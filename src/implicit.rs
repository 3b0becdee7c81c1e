use vstd::prelude::*;
use crate::error::SolverError;
use crate::trajectory::Integration;

verus! {

/// The outcome of one attempted step of an adaptive integrator: the
/// candidate sample, whether its error estimate was within tolerance,
/// whether the stage solver met its tolerance, and the step size to try next.
#[derive(Debug)]
pub struct Attempt<T, H> {
    pub time: T,
    pub state: Vec<T>,
    pub accept: bool,
    pub converged: bool,
    pub next_h: H,
}

/// A fault that ended an adaptive run, with the attempt and the time at
/// which it came.
#[derive(Debug)]
pub struct StepFailure<T> {
    pub attempt: usize,
    pub time: T,
    pub error: SolverError,
}

/// The result of an adaptive run: the accepted samples, one convergence flag
/// per sample (the initial sample counts as converged), the number of
/// attempted steps, and whether the step budget ran out before the end.
#[derive(Debug)]
pub struct AdaptiveRun<T> {
    pub trajectory: Integration<T>,
    pub converged: Vec<bool>,
    pub attempts: usize,
    pub budget_exhausted: bool,
}

/// The sample `(t, y)` with flag `c` is an accepted result of `attempt` on
/// the sample `(t_prev, y_prev)`, for some step size.
pub open spec fn accepted_from<T, H, F: Fn(T, &Vec<T>, H) -> Result<Attempt<T, H>, SolverError>>(
    attempt: F,
    t_prev: T,
    y_prev: Vec<T>,
    t: T,
    y: Vec<T>,
    c: bool,
) -> bool {
    exists|h: H, a: Attempt<T, H>|
        #[trigger] attempt.ensures((t_prev, &y_prev, h), Ok(a)) && a.accept && a.time == t
            && a.state == y && a.converged == c
}

/// Every sample after the first is an accepted result of `attempt` on the
/// sample before it.
pub open spec fn accepted_chain<T, H, F: Fn(T, &Vec<T>, H) -> Result<Attempt<T, H>, SolverError>>(
    attempt: F,
    time: Seq<T>,
    values: Seq<Vec<T>>,
    converged: Seq<bool>,
) -> bool {
    forall|i: int|
        1 <= i < time.len() ==> #[trigger] accepted_from(
            attempt,
            time[i - 1],
            values[i - 1],
            time[i],
            values[i],
            converged[i],
        )
}

/// `e` is a fault that `attempt` can report, or a result of it of another
/// length than `n`, on some state of `n` components at time `t`.
pub open spec fn attempt_fault<T, H, F: Fn(T, &Vec<T>, H) -> Result<Attempt<T, H>, SolverError>>(
    attempt: F,
    n: nat,
    t: T,
    e: SolverError,
) -> bool {
    exists|y: Vec<T>, h: H, r: Result<Attempt<T, H>, SolverError>|
        y.len() == n && #[trigger] attempt.ensures((t, &y, h), r) && match r {
            Err(e2) => e2 == e,
            Ok(a) => a.state.len() != n && e == (SolverError::DimensionMismatch {
                expected: n as usize,
                found: a.state.len(),
            }),
        }
}

/// The times recorded after the attempts `outs`, from the initial time `t0`:
/// the time of each accepted attempt is appended.
pub open spec fn recorded_times<T, H>(t0: T, outs: Seq<Attempt<T, H>>) -> Seq<T>
    decreases outs.len(),
{
    if outs.len() == 0 {
        seq![t0]
    } else {
        let prev = recorded_times(t0, outs.drop_last());
        if outs.last().accept {
            prev.push(outs.last().time)
        } else {
            prev
        }
    }
}

/// The states recorded after the attempts `outs`, from the initial state `y0`.
pub open spec fn recorded_values<T, H>(y0: Vec<T>, outs: Seq<Attempt<T, H>>) -> Seq<Vec<T>>
    decreases outs.len(),
{
    if outs.len() == 0 {
        seq![y0]
    } else {
        let prev = recorded_values(y0, outs.drop_last());
        if outs.last().accept {
            prev.push(outs.last().state)
        } else {
            prev
        }
    }
}

/// The convergence flags recorded after the attempts `outs`; the initial
/// sample counts as converged.
pub open spec fn recorded_flags<T, H>(outs: Seq<Attempt<T, H>>) -> Seq<bool>
    decreases outs.len(),
{
    if outs.len() == 0 {
        seq![true]
    } else {
        let prev = recorded_flags(outs.drop_last());
        if outs.last().accept {
            prev.push(outs.last().converged)
        } else {
            prev
        }
    }
}

/// `ts`, `ys`, `hs` are the time, state and step size before each attempt,
/// and `outs` the outcome of each attempt: the run was not finished before
/// any of them, each outcome is a result of `attempt` on what preceded it
/// with a state of `n` components, an accepted outcome becomes the current
/// sample, a rejected one leaves it, and each proposed step size is taken.
pub open spec fn adaptive_trace<
    T,
    H,
    D: Fn(T) -> bool,
    F: Fn(T, &Vec<T>, H) -> Result<Attempt<T, H>, SolverError>,
>(
    finished: D,
    attempt: F,
    n: nat,
    ts: Seq<T>,
    ys: Seq<Vec<T>>,
    hs: Seq<H>,
    outs: Seq<Attempt<T, H>>,
) -> bool {
    &&& ts.len() == outs.len() + 1
    &&& ys.len() == outs.len() + 1
    &&& hs.len() == outs.len() + 1
    &&& forall|j: int|
        0 <= j < outs.len() ==> {
            &&& #[trigger] attempt.ensures((ts[j], &ys[j], hs[j]), Ok(outs[j]))
            &&& finished.ensures((ts[j],), false)
            &&& outs[j].state.len() == n
            &&& hs[j + 1] == outs[j].next_h
            &&& outs[j].accept ==> ts[j + 1] == outs[j].time && ys[j + 1] == outs[j].state
            &&& !outs[j].accept ==> ts[j + 1] == ts[j] && ys[j + 1] == ys[j]
        }
}

/// `run` is the outcome of the attempts `outs` (with the trace `ts`, `ys`,
/// `hs`) from `(t0, y0, h0)`: it records exactly the accepted samples, and
/// it stopped when `finished` held or after `max_steps` attempts, reporting
/// an exhausted budget exactly when the end was not reached.
pub open spec fn adaptive_outcome<
    T,
    H,
    D: Fn(T) -> bool,
    F: Fn(T, &Vec<T>, H) -> Result<Attempt<T, H>, SolverError>,
>(
    finished: D,
    attempt: F,
    t0: T,
    y0: Vec<T>,
    h0: H,
    max_steps: usize,
    run: AdaptiveRun<T>,
    ts: Seq<T>,
    ys: Seq<Vec<T>>,
    hs: Seq<H>,
    outs: Seq<Attempt<T, H>>,
) -> bool {
    &&& adaptive_trace(finished, attempt, y0.len() as nat, ts, ys, hs, outs)
    &&& ts[0] == t0
    &&& ys[0] == y0
    &&& hs[0] == h0
    &&& outs.len() == run.attempts
    &&& run.attempts <= max_steps
    &&& run.trajectory.time@ == recorded_times(t0, outs)
    &&& run.trajectory.values@ == recorded_values(y0, outs)
    &&& run.converged@ == recorded_flags(outs)
    &&& run.attempts < max_steps ==> finished.ensures((ts.last(),), true) && !run.budget_exhausted
    &&& run.attempts == max_steps ==> finished.ensures((ts.last(),), !run.budget_exhausted)
}

/// Adaptive time stepping. From the sample `(t0, y0)` and step size `h0`, at
/// most `max_steps` times: stop if `finished` holds of the current time,
/// else call `attempt` on the current sample and step size; append the
/// candidate sample if it is accepted, and take its proposed step size
/// whether it is accepted or not. A rejected step leaves time and state
/// unchanged.
pub fn adaptive<
    T: Copy,
    H: Copy,
    D: Fn(T) -> bool,
    F: Fn(T, &Vec<T>, H) -> Result<Attempt<T, H>, SolverError>,
>(t0: T, y0: Vec<T>, h0: H, max_steps: usize, finished: D, attempt: F) -> (r: Result<
    AdaptiveRun<T>,
    StepFailure<T>,
>)
    requires
        forall|t: T| #[trigger] finished.requires((t,)),
        forall|t: T, y: Vec<T>, h: H|
            y.len() == y0.len() ==> #[trigger] attempt.requires((t, &y, h)),
    ensures
        match r {
            Ok(run) => {
                let tr = run.trajectory;
                &&& tr.wf(y0.len() as nat)
                &&& tr.time[0] == t0
                &&& tr.values[0] == y0
                &&& run.converged.len() == tr.time.len()
                &&& accepted_chain(attempt, tr.time@, tr.values@, run.converged@)
                &&& tr.time.len() <= run.attempts + 1
                &&& run.budget_exhausted ==> run.attempts == max_steps
                &&& !run.budget_exhausted ==> finished.ensures((tr.time[tr.time.len() - 1],), true)
                &&& exists|ts: Seq<T>, ys: Seq<Vec<T>>, hs: Seq<H>, outs: Seq<Attempt<T, H>>|
                    #[trigger] adaptive_outcome(
                        finished,
                        attempt,
                        t0,
                        y0,
                        h0,
                        max_steps,
                        run,
                        ts,
                        ys,
                        hs,
                        outs,
                    )
            },
            Err(f) => f.attempt < max_steps && attempt_fault(
                attempt,
                y0.len() as nat,
                f.time,
                f.error,
            ),
        },
{
    let n = y0.len();
    let ghost gy = y0;
    let mut tr = Integration::new(t0, y0);
    let mut converged: Vec<bool> = Vec::new();
    converged.push(true);
    let mut h = h0;
    let mut count: usize = 0;
    let mut done = false;
    let ghost mut ts: Seq<T> = seq![t0];
    let ghost mut ys: Seq<Vec<T>> = seq![gy];
    let ghost mut hs: Seq<H> = seq![h0];
    let ghost mut outs: Seq<Attempt<T, H>> = Seq::empty();
    proof {
        assert(tr.time@ =~= recorded_times(t0, outs));
        assert(tr.values@ =~= recorded_values(gy, outs));
        assert(converged@ =~= recorded_flags(outs));
    }
    while count < max_steps
        invariant_except_break
            !done,
        invariant
            forall|t: T| #[trigger] finished.requires((t,)),
            forall|t: T, y: Vec<T>, h: H| y.len() == n ==> #[trigger] attempt.requires((t, &y, h)),
            gy == y0,
            gy.len() == n,
            count <= max_steps,
            tr.wf(n as nat),
            tr.time[0] == t0,
            tr.values[0] == gy,
            converged.len() == tr.time.len(),
            tr.time.len() <= count + 1,
            accepted_chain(attempt, tr.time@, tr.values@, converged@),
            adaptive_trace(finished, attempt, n as nat, ts, ys, hs, outs),
            ts[0] == t0,
            ys[0] == gy,
            hs[0] == h0,
            outs.len() == count,
            tr.time@ == recorded_times(t0, outs),
            tr.values@ == recorded_values(gy, outs),
            converged@ == recorded_flags(outs),
            ts.last() == tr.time@.last(),
            ys.last() == tr.values@.last(),
            hs.last() == h,
            done ==> finished.ensures((ts.last(),), true),
        ensures
            count < max_steps ==> done,
        decreases max_steps - count,
    {
        let last = tr.len() - 1;
        let t = tr.time[last];
        if finished(t) {
            done = true;
            break;
        }
        let res = attempt(t, &tr.values[last], h);
        let ghost y = tr.values[last as int];
        proof {
            assert(y.len() == n);
        }
        let a = match res {
            Ok(a) => a,
            Err(e) => {
                proof {
                    assert(attempt.ensures((t, &y, h), Err(e)));
                }
                return Err(StepFailure { attempt: count, time: t, error: e });
            },
        };
        if a.state.len() != n {
            let e = SolverError::DimensionMismatch { expected: n, found: a.state.len() };
            proof {
                assert(attempt.ensures((t, &y, h), Ok(a)));
            }
            return Err(StepFailure { attempt: count, time: t, error: e });
        }
        let ghost ga = a;
        let ghost old_outs = outs;
        let ghost old_ts = ts;
        let ghost old_ys = ys;
        let ghost old_hs = hs;
        proof {
            assert(attempt.ensures((t, &y, h), Ok(a)));
        }
        if a.accept {
            let ghost old_time = tr.time@;
            let ghost old_values = tr.values@;
            let ghost old_conv = converged@;
            proof {
                assert(accepted_from(attempt, t, y, a.time, a.state, a.converged));
            }
            tr.push(a.time, a.state);
            converged.push(a.converged);
            proof {
                assert forall|i: int| 1 <= i < tr.time.len() implies #[trigger] accepted_from(
                    attempt,
                    tr.time@[i - 1],
                    tr.values@[i - 1],
                    tr.time@[i],
                    tr.values@[i],
                    converged@[i],
                ) by {
                    if i < old_time.len() {
                        assert(accepted_from(
                            attempt,
                            old_time[i - 1],
                            old_values[i - 1],
                            old_time[i],
                            old_values[i],
                            old_conv[i],
                        ));
                    }
                }
            }
        }
        h = a.next_h;
        count = count + 1;
        proof {
            outs = old_outs.push(ga);
            ts = old_ts.push(if ga.accept { ga.time } else { t });
            ys = old_ys.push(if ga.accept { ga.state } else { y });
            hs = old_hs.push(ga.next_h);
            assert(outs.drop_last() =~= old_outs);
            assert forall|j: int| 0 <= j < outs.len() implies {
                &&& #[trigger] attempt.ensures((ts[j], &ys[j], hs[j]), Ok(outs[j]))
                &&& finished.ensures((ts[j],), false)
                &&& outs[j].state.len() == n
                &&& hs[j + 1] == outs[j].next_h
                &&& outs[j].accept ==> ts[j + 1] == outs[j].time && ys[j + 1] == outs[j].state
                &&& !outs[j].accept ==> ts[j + 1] == ts[j] && ys[j + 1] == ys[j]
            } by {
                if j < old_outs.len() {
                    assert(attempt.ensures(
                        (old_ts[j], &old_ys[j], old_hs[j]),
                        Ok(old_outs[j]),
                    ));
                }
            }
            assert(tr.time@ =~= recorded_times(t0, outs));
            assert(tr.values@ =~= recorded_values(gy, outs));
            assert(converged@ =~= recorded_flags(outs));
        }
    }
    if !done {
        let last = tr.len() - 1;
        done = finished(tr.time[last]);
    }
    let run = AdaptiveRun { trajectory: tr, converged, attempts: count, budget_exhausted: !done };
    let r: Result<AdaptiveRun<T>, StepFailure<T>> = Ok(run);
    proof {
        assert(adaptive_outcome(finished, attempt, t0, gy, h0, max_steps, r->Ok_0, ts, ys, hs, outs));
    }
    r
}


/// `attempt` has one result for each input.
pub open spec fn attempt_is_deterministic<
    T,
    H,
    F: Fn(T, &Vec<T>, H) -> Result<Attempt<T, H>, SolverError>,
>(attempt: F) -> bool {
    forall|
        t: T,
        y: Vec<T>,
        h: H,
        a: Result<Attempt<T, H>, SolverError>,
        b: Result<Attempt<T, H>, SolverError>,
    |
        #[trigger] attempt.ensures((t, &y, h), a) && #[trigger] attempt.ensures((t, &y, h), b)
            ==> a == b
}

/// `finished` has one result for each time.
pub open spec fn finished_is_deterministic<T, D: Fn(T) -> bool>(finished: D) -> bool {
    forall|t: T, a: bool, b: bool|
        #[trigger] finished.ensures((t,), a) && #[trigger] finished.ensures((t,), b) ==> a == b
}

proof fn lemma_traces_agree<
    T,
    H,
    D: Fn(T) -> bool,
    F: Fn(T, &Vec<T>, H) -> Result<Attempt<T, H>, SolverError>,
>(
    finished: D,
    attempt: F,
    n: nat,
    ts1: Seq<T>,
    ys1: Seq<Vec<T>>,
    hs1: Seq<H>,
    o1: Seq<Attempt<T, H>>,
    ts2: Seq<T>,
    ys2: Seq<Vec<T>>,
    hs2: Seq<H>,
    o2: Seq<Attempt<T, H>>,
    j: int,
)
    requires
        attempt_is_deterministic(attempt),
        adaptive_trace(finished, attempt, n, ts1, ys1, hs1, o1),
        adaptive_trace(finished, attempt, n, ts2, ys2, hs2, o2),
        ts1[0] == ts2[0],
        ys1[0] == ys2[0],
        hs1[0] == hs2[0],
        0 <= j <= o1.len(),
        j <= o2.len(),
    ensures
        ts1[j] == ts2[j],
        ys1[j] == ys2[j],
        hs1[j] == hs2[j],
        forall|i: int| 0 <= i < j ==> o1[i] == o2[i],
    decreases j,
{
    if j > 0 {
        let i = j - 1;
        lemma_traces_agree(finished, attempt, n, ts1, ys1, hs1, o1, ts2, ys2, hs2, o2, i);
        assert(attempt.ensures((ts1[i], &ys1[i], hs1[i]), Ok(o1[i])));
        assert(attempt.ensures((ts2[i], &ys2[i], hs2[i]), Ok(o2[i])));
    }
}

proof fn lemma_run_not_shorter<
    T,
    H,
    D: Fn(T) -> bool,
    F: Fn(T, &Vec<T>, H) -> Result<Attempt<T, H>, SolverError>,
>(
    finished: D,
    attempt: F,
    t0: T,
    y0: Vec<T>,
    h0: H,
    max_steps: usize,
    r1: AdaptiveRun<T>,
    ts1: Seq<T>,
    ys1: Seq<Vec<T>>,
    hs1: Seq<H>,
    o1: Seq<Attempt<T, H>>,
    r2: AdaptiveRun<T>,
    ts2: Seq<T>,
    ys2: Seq<Vec<T>>,
    hs2: Seq<H>,
    o2: Seq<Attempt<T, H>>,
)
    requires
        attempt_is_deterministic(attempt),
        finished_is_deterministic(finished),
        adaptive_outcome(finished, attempt, t0, y0, h0, max_steps, r1, ts1, ys1, hs1, o1),
        adaptive_outcome(finished, attempt, t0, y0, h0, max_steps, r2, ts2, ys2, hs2, o2),
    ensures
        o1.len() >= o2.len(),
{
    if o1.len() < o2.len() {
        let j = o1.len() as int;
        lemma_traces_agree(
            finished,
            attempt,
            y0.len() as nat,
            ts1,
            ys1,
            hs1,
            o1,
            ts2,
            ys2,
            hs2,
            o2,
            j,
        );
        assert(finished.ensures((ts1[j],), true));
        assert(attempt.ensures((ts2[j], &ys2[j], hs2[j]), Ok(o2[j])));
        assert(finished.ensures((ts2[j],), false));
    }
}

/// Determinism of the adaptive integrator: with a deterministic `attempt`
/// and `finished`, two successful runs from the same initial sample, step
/// size and step budget record the same samples and flags, make the same
/// number of attempts and agree on whether the budget ran out.
pub proof fn lemma_adaptive_deterministic<
    T,
    H,
    D: Fn(T) -> bool,
    F: Fn(T, &Vec<T>, H) -> Result<Attempt<T, H>, SolverError>,
>(
    finished: D,
    attempt: F,
    t0: T,
    y0: Vec<T>,
    h0: H,
    max_steps: usize,
    r1: AdaptiveRun<T>,
    r2: AdaptiveRun<T>,
)
    requires
        attempt_is_deterministic(attempt),
        finished_is_deterministic(finished),
        exists|ts: Seq<T>, ys: Seq<Vec<T>>, hs: Seq<H>, outs: Seq<Attempt<T, H>>|
            #[trigger] adaptive_outcome(finished, attempt, t0, y0, h0, max_steps, r1, ts, ys, hs, outs),
        exists|ts: Seq<T>, ys: Seq<Vec<T>>, hs: Seq<H>, outs: Seq<Attempt<T, H>>|
            #[trigger] adaptive_outcome(finished, attempt, t0, y0, h0, max_steps, r2, ts, ys, hs, outs),
    ensures
        r1.trajectory.time@ == r2.trajectory.time@,
        r1.trajectory.values@ == r2.trajectory.values@,
        r1.converged@ == r2.converged@,
        r1.attempts == r2.attempts,
        r1.budget_exhausted == r2.budget_exhausted,
{
    let (ts1, ys1, hs1, o1) = choose|
        ts: Seq<T>,
        ys: Seq<Vec<T>>,
        hs: Seq<H>,
        outs: Seq<Attempt<T, H>>,
    | adaptive_outcome(finished, attempt, t0, y0, h0, max_steps, r1, ts, ys, hs, outs);
    let (ts2, ys2, hs2, o2) = choose|
        ts: Seq<T>,
        ys: Seq<Vec<T>>,
        hs: Seq<H>,
        outs: Seq<Attempt<T, H>>,
    | adaptive_outcome(finished, attempt, t0, y0, h0, max_steps, r2, ts, ys, hs, outs);
    lemma_run_not_shorter(
        finished,
        attempt,
        t0,
        y0,
        h0,
        max_steps,
        r1,
        ts1,
        ys1,
        hs1,
        o1,
        r2,
        ts2,
        ys2,
        hs2,
        o2,
    );
    lemma_run_not_shorter(
        finished,
        attempt,
        t0,
        y0,
        h0,
        max_steps,
        r2,
        ts2,
        ys2,
        hs2,
        o2,
        r1,
        ts1,
        ys1,
        hs1,
        o1,
    );
    let m = o1.len() as int;
    lemma_traces_agree(finished, attempt, y0.len() as nat, ts1, ys1, hs1, o1, ts2, ys2, hs2, o2, m);
    assert(o1 =~= o2);
    assert(ts1.last() == ts2.last());
}

} // verus!
