use vstd::prelude::*;
use crate::error::SolverError;
use crate::trajectory::Integration;

verus! {

/// `r` is the fixed-step trajectory of `n_steps` steps from `(t0, y0)`:
/// `n_steps + 1` samples of the length of `y0`, the first one `(t0, y0)`,
/// each later one a result of `step` on the sample before it.
pub open spec fn euler_trajectory<T, F: Fn(T, &Vec<T>) -> (T, Vec<T>)>(
    t0: T,
    y0: Seq<T>,
    n_steps: nat,
    step: F,
    r: Integration<T>,
) -> bool {
    &&& r.wf(y0.len())
    &&& r.time.len() == n_steps + 1
    &&& r.time[0] == t0
    &&& r.values[0]@ == y0
    &&& forall|i: int|
        0 <= i < n_steps ==> #[trigger] step.ensures(
            (r.time[i], &r.values[i]),
            (r.time[i + 1], r.values[i + 1]),
        )
}

/// `step` can turn a state of `n` components into one of `found` components.
pub open spec fn step_can_yield_len<T, F: Fn(T, &Vec<T>) -> (T, Vec<T>)>(
    step: F,
    n: nat,
    found: nat,
) -> bool {
    exists|t: T, y: Vec<T>, t2: T, y2: Vec<T>|
        y.len() == n && y2.len() == found && #[trigger] step.ensures((t, &y), (t2, y2))
}

/// `e` reports that `step`, given a state of `n` components, can return one
/// of another length.
pub open spec fn step_dimension_fault<T, F: Fn(T, &Vec<T>) -> (T, Vec<T>)>(
    step: F,
    n: usize,
    e: SolverError,
) -> bool {
    match e {
        SolverError::DimensionMismatch { expected, found } => expected == n && found != n
            && step_can_yield_len(step, n as nat, found as nat),
        _ => false,
    }
}

/// Fixed-step explicit integration: starting from `(t0, y0)`, applies `step`
/// (which advances one sample by one step, e.g. `y + h * f(t, y)`) `n_steps`
/// times and records every sample.
pub fn euler<T: Copy, F: Fn(T, &Vec<T>) -> (T, Vec<T>)>(
    t0: T,
    y0: Vec<T>,
    n_steps: usize,
    step: F,
) -> (r: Result<Integration<T>, SolverError>)
    requires
        forall|t: T, y: Vec<T>| y.len() == y0.len() ==> #[trigger] step.requires((t, &y)),
    ensures
        match r {
            Ok(tr) => euler_trajectory(t0, y0@, n_steps as nat, step, tr),
            Err(e) => step_dimension_fault(step, y0.len(), e),
        },
{
    let n = y0.len();
    let ghost g0 = y0@;
    let mut tr = Integration::new(t0, y0);
    let mut i: usize = 0;
    while i < n_steps
        invariant
            forall|t: T, y: Vec<T>| y.len() == n ==> #[trigger] step.requires((t, &y)),
            i <= n_steps,
            g0.len() == n,
            g0 == y0@,
            tr.wf(n as nat),
            tr.time.len() == i + 1,
            tr.time[0] == t0,
            tr.values[0]@ == g0,
            forall|k: int|
                0 <= k < i ==> #[trigger] step.ensures(
                    (tr.time[k], &tr.values[k]),
                    (tr.time[k + 1], tr.values[k + 1]),
                ),
        decreases n_steps - i,
    {
        let (t_next, y_next) = step(tr.time[i], &tr.values[i]);
        if y_next.len() != n {
            proof {
                let yi = tr.values[i as int];
                assert(yi.len() == n);
                assert(step.ensures((tr.time[i as int], &yi), (t_next, y_next)));
                assert(step_can_yield_len(step, n as nat, y_next.len() as nat));
            }
            return Err(SolverError::DimensionMismatch { expected: n, found: y_next.len() });
        }
        tr.push(t_next, y_next);
        i = i + 1;
    }
    Ok(tr)
}


/// `step` depends on the time and the components of the state alone, and
/// has one result for each such input.
pub open spec fn step_is_deterministic<T, F: Fn(T, &Vec<T>) -> (T, Vec<T>)>(step: F) -> bool {
    forall|t: T, y1: Vec<T>, y2: Vec<T>, a: (T, Vec<T>), b: (T, Vec<T>)|
        y1@ == y2@ && #[trigger] step.ensures((t, &y1), a) && #[trigger] step.ensures((t, &y2), b)
            ==> a.0 == b.0 && a.1@ == b.1@
}

proof fn lemma_euler_sample_agrees<T, F: Fn(T, &Vec<T>) -> (T, Vec<T>)>(
    t0: T,
    y0: Seq<T>,
    n_steps: nat,
    step: F,
    r1: Integration<T>,
    r2: Integration<T>,
    k: nat,
)
    requires
        step_is_deterministic(step),
        euler_trajectory(t0, y0, n_steps, step, r1),
        euler_trajectory(t0, y0, n_steps, step, r2),
        k <= n_steps,
    ensures
        r1.time[k as int] == r2.time[k as int],
        r1.values[k as int]@ == r2.values[k as int]@,
    decreases k,
{
    if k > 0 {
        let i = k - 1;
        lemma_euler_sample_agrees(t0, y0, n_steps, step, r1, r2, i as nat);
        assert(step.ensures((r1.time[i], &r1.values[i]), (r1.time[i + 1], r1.values[i + 1])));
        assert(step.ensures((r2.time[i], &r2.values[i]), (r2.time[i + 1], r2.values[i + 1])));
    }
}

/// Determinism of the fixed-step integrator: with a deterministic step, two
/// runs from the same initial sample over the same number of steps give the
/// same trajectory, sample for sample.
pub proof fn lemma_euler_deterministic<T, F: Fn(T, &Vec<T>) -> (T, Vec<T>)>(
    t0: T,
    y0: Seq<T>,
    n_steps: nat,
    step: F,
    r1: Integration<T>,
    r2: Integration<T>,
)
    requires
        step_is_deterministic(step),
        euler_trajectory(t0, y0, n_steps, step, r1),
        euler_trajectory(t0, y0, n_steps, step, r2),
    ensures
        r1.time@ == r2.time@,
        r1.values.len() == r2.values.len(),
        forall|i: int| 0 <= i < r1.values.len() ==> (#[trigger] r1.values[i])@ == r2.values[i]@,
{
    assert forall|i: int| 0 <= i < r1.values.len() implies (#[trigger] r1.values[i])@
        == r2.values[i]@ by {
        lemma_euler_sample_agrees(t0, y0, n_steps, step, r1, r2, i as nat);
    }
    assert forall|i: int| 0 <= i < r1.time.len() implies #[trigger] r1.time[i] == r2.time[i] by {
        lemma_euler_sample_agrees(t0, y0, n_steps, step, r1, r2, i as nat);
    }
    assert(r1.time@ =~= r2.time@);
}

} // verus!
