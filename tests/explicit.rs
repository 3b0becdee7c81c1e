use ode_solvers::error::SolverError;
use ode_solvers::explicit::euler;

fn lotka_volterra(variables: &[f64], parameters: &[f64]) -> Vec<f64> {
    let (prey, pred) = (variables[0], variables[1]);
    let (alpha, beta, gamma, delta) = (parameters[0], parameters[1], parameters[2], parameters[3]);
    let interaction = pred * prey;
    vec![alpha * prey - beta * interaction, delta * interaction - gamma * pred]
}

fn euler_step(pars: Vec<f64>, h: f64) -> impl Fn(f64, &Vec<f64>) -> (f64, Vec<f64>) {
    move |t: f64, y: &Vec<f64>| {
        let d = lotka_volterra(y, &pars);
        let next: Vec<f64> = y.iter().zip(d.iter()).map(|(a, b)| a + b * h).collect();
        (t + h, next)
    }
}

#[test]
fn lotka_volterra_fixture() {
    let pars = vec![1.1, 0.4, 0.4, 0.1];
    let step_size: f64 = 0.01;
    let t_end: f64 = 1.0;
    let n_steps = (t_end / step_size).ceil() as usize;
    assert_eq!(n_steps, 100);
    let tr = euler(0.0, vec![10.0, 10.0], n_steps, euler_step(pars, step_size)).unwrap();
    assert_eq!(tr.time.len(), 101);
    assert_eq!(tr.values.len(), 101);
    assert_eq!(tr.time[0], 0.0);
    assert_eq!(tr.values[0], vec![10.0, 10.0]);
    // dprey = 1.1*10 - 0.4*100 = -29, dpred = 0.1*100 - 0.4*10 = 6
    assert!((tr.values[1][0] - 9.71).abs() < 1e-12);
    assert!((tr.values[1][1] - 10.06).abs() < 1e-12);
    assert!((tr.time[100] - 1.0).abs() < 1e-9);
    for v in &tr.values {
        assert_eq!(v.len(), 2);
    }
}

#[test]
fn euler_time_is_arithmetic() {
    let tr = euler(0.0, vec![1.0], 7, |t: f64, y: &Vec<f64>| (t + 0.25, vec![y[0] * 0.5])).unwrap();
    assert_eq!(tr.time.len(), 8);
    for i in 0..7 {
        assert_eq!(tr.time[i + 1] - tr.time[i], 0.25);
    }
    assert_eq!(tr.time[7], 1.75);
    assert_eq!(tr.values[3], vec![0.125]);
}

#[test]
fn euler_zero_steps_keeps_initial_sample() {
    let tr = euler(0.0, vec![3.0, 4.0], 0, |t: f64, y: &Vec<f64>| (t + 1.0, y.clone())).unwrap();
    assert_eq!(tr.time, vec![0.0]);
    assert_eq!(tr.values, vec![vec![3.0, 4.0]]);
    assert_eq!(tr.len(), 1);
}

#[test]
fn euler_reports_dimension_mismatch() {
    let r = euler(0.0, vec![1.0, 2.0], 5, |t: f64, y: &Vec<f64>| (t + 1.0, vec![y[0]]));
    assert_eq!(r.err(), Some(SolverError::DimensionMismatch { expected: 2, found: 1 }));
}

#[test]
fn euler_is_deterministic() {
    let pars = vec![1.1, 0.4, 0.4, 0.1];
    let a = euler(0.0, vec![10.0, 10.0], 50, euler_step(pars.clone(), 0.01)).unwrap();
    let b = euler(0.0, vec![10.0, 10.0], 50, euler_step(pars, 0.01)).unwrap();
    assert_eq!(a.time, b.time);
    assert_eq!(a.values, b.values);
}

#[test]
fn explicit_euler_diverges_on_stiff_problem() {
    let h = 0.125;
    let tr = euler(0.0, vec![1.0], 8, move |t: f64, y: &Vec<f64>| (t + h, vec![y[0] + h * (-1000.0 * y[0])]))
        .unwrap();
    // amplification factor 1 - 1000 h = -124
    assert_eq!(tr.values[1], vec![-124.0]);
    assert_eq!(tr.time[8], 1.0);
    assert!(tr.values[8][0].abs() > 1e16);
}
