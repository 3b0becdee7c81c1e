use ode_solvers::trajectory::Integration;

#[test]
fn trajectory_grows_one_sample_at_a_time() {
    let mut tr = Integration::new(0.0, vec![1.0, 2.0]);
    assert_eq!(tr.len(), 1);
    tr.push(0.5, vec![3.0, 4.0]);
    assert_eq!(tr.len(), 2);
    assert_eq!(tr.time, vec![0.0, 0.5]);
    assert_eq!(tr.values, vec![vec![1.0, 2.0], vec![3.0, 4.0]]);
}
