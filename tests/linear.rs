use ode_solvers::error::SolverError;
use ode_solvers::linear::{check_shape, select_pivot};
use ode_solvers::stages::solve_stages;

#[test]
fn pivot_is_first_largest() {
    let keys: Vec<u64> = vec![9, 3, 7, 2, 7];
    assert_eq!(select_pivot(&keys, 1, 1), Ok(2));
    assert_eq!(select_pivot(&keys, 0, 1), Ok(0));
    assert_eq!(select_pivot(&keys, 3, 1), Ok(4));
    assert_eq!(select_pivot(&keys, 4, 7), Ok(4));
}

#[test]
fn pivot_from_float_magnitudes() {
    let column = [0.5f64, -3.0, 2.5, -3.0];
    let keys: Vec<u64> = column.iter().map(|x| x.abs().to_bits()).collect();
    let tiny = 1e-12f64.to_bits();
    assert_eq!(select_pivot(&keys, 0, tiny), Ok(1));
    assert_eq!(select_pivot(&keys, 2, tiny), Ok(3));
}

#[test]
fn pivot_below_threshold_is_singular() {
    let column = [5.0f64, 1e-13, -1e-14];
    let keys: Vec<u64> = column.iter().map(|x| x.abs().to_bits()).collect();
    let tiny = 1e-12f64.to_bits();
    assert_eq!(select_pivot(&keys, 1, tiny), Err(SolverError::SingularMatrix { step: 1 }));
}

#[test]
fn shape_checks() {
    let a = vec![vec![1.0, 2.0], vec![3.0, 4.0]];
    assert_eq!(check_shape(&a, 2, 2), Ok(()));
    assert_eq!(check_shape(&a, 3, 2), Err(SolverError::DimensionMismatch { expected: 3, found: 2 }));
    let b = vec![vec![1.0, 2.0], vec![3.0], vec![4.0, 5.0, 6.0]];
    assert_eq!(check_shape(&b, 3, 2), Err(SolverError::DimensionMismatch { expected: 2, found: 1 }));
    let empty: Vec<Vec<f64>> = Vec::new();
    assert_eq!(check_shape(&empty, 0, 5), Ok(()));
}

#[test]
fn stages_stop_at_first_converged_sweep() {
    // halves the residual each sweep; converged once it is below 0.1
    let sweep = |k: &Vec<f64>| -> Result<(Vec<f64>, bool), SolverError> {
        let next = vec![k[0] / 2.0];
        Ok((next.clone(), next[0] < 0.1))
    };
    let s = solve_stages(vec![1.0], 10, sweep).unwrap();
    assert!(s.converged);
    assert_eq!(s.sweeps, 4);
    assert_eq!(s.stages, vec![0.0625]);
}

#[test]
fn stages_report_nonconvergence() {
    let sweep = |k: &Vec<f64>| -> Result<(Vec<f64>, bool), SolverError> { Ok((vec![k[0] + 1.0], false)) };
    let s = solve_stages(vec![0.0], 10, sweep).unwrap();
    assert!(!s.converged);
    assert_eq!(s.sweeps, 10);
    assert_eq!(s.stages, vec![10.0]);
    let none = solve_stages(vec![0.0], 0, sweep).unwrap();
    assert!(!none.converged);
    assert_eq!(none.sweeps, 0);
    assert_eq!(none.stages, vec![0.0]);
}

#[test]
fn stages_propagate_singular_matrix() {
    let sweep = |k: &Vec<f64>| -> Result<(Vec<f64>, bool), SolverError> {
        if k[0] >= 2.0 {
            Err(SolverError::SingularMatrix { step: 0 })
        } else {
            Ok((vec![k[0] + 1.0], false))
        }
    };
    assert_eq!(solve_stages(vec![0.0], 10, sweep).err(), Some(SolverError::SingularMatrix { step: 0 }));
}

#[test]
fn stages_are_deterministic() {
    let sweep = |k: &Vec<f64>| -> Result<(Vec<f64>, bool), SolverError> {
        let next = vec![k[0] * 0.3 + 0.7];
        Ok((next.clone(), (next[0] - k[0]).abs() < 1e-6))
    };
    let a = solve_stages(vec![0.0], 100, sweep).unwrap();
    let b = solve_stages(vec![0.0], 100, sweep).unwrap();
    assert_eq!(a.stages, b.stages);
    assert_eq!(a.sweeps, b.sweeps);
    assert!(a.converged && b.converged);
}
