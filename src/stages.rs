use vstd::prelude::*;
use crate::error::SolverError;

verus! {

/// The stage values left by the Newton sweeps, whether the last sweep met
/// the tolerance, and the number of sweeps made.
#[derive(Debug)]
pub struct StageSolution<K> {
    pub stages: K,
    pub converged: bool,
    pub sweeps: usize,
}

/// `chain[j + 1]` is a result of `sweep` on `chain[j]`, whose convergence
/// flag is `flags[j]`.
pub open spec fn sweep_chain<K, F: Fn(&K) -> Result<(K, bool), SolverError>>(
    sweep: F,
    chain: Seq<K>,
    flags: Seq<bool>,
) -> bool {
    &&& chain.len() == flags.len() + 1
    &&& forall|j: int|
        0 <= j < flags.len() ==> #[trigger] sweep.ensures((&chain[j],), Ok((chain[j + 1], flags[j])))
}

/// `s` comes from `chain` and `flags`: the sweeps started from `k0`, none
/// but the last met the tolerance, they stopped at the first that met it or
/// after `max_iter` sweeps, and `s` holds the last stage values.
pub open spec fn newton_history<K, F: Fn(&K) -> Result<(K, bool), SolverError>>(
    sweep: F,
    k0: K,
    max_iter: usize,
    s: StageSolution<K>,
    chain: Seq<K>,
    flags: Seq<bool>,
) -> bool {
    &&& sweep_chain(sweep, chain, flags)
    &&& chain[0] == k0
    &&& chain.last() == s.stages
    &&& flags.len() == s.sweeps
    &&& s.sweeps <= max_iter
    &&& forall|j: int| 0 <= j < flags.len() - 1 ==> !#[trigger] flags[j]
    &&& s.converged <==> (flags.len() > 0 && flags.last())
    &&& !s.converged ==> s.sweeps == max_iter
}

/// Newton iteration over all stages: starting from `k0`, applies `sweep`
/// (one pass over the stages in order, reporting whether the largest
/// residual was within tolerance) until a sweep meets the tolerance or
/// `max_iter` sweeps have been made. When none met it, the last stage values
/// are still returned, with `converged` false.
pub fn solve_stages<K, F: Fn(&K) -> Result<(K, bool), SolverError>>(
    k0: K,
    max_iter: usize,
    sweep: F,
) -> (r: Result<StageSolution<K>, SolverError>)
    requires
        forall|k: K| #[trigger] sweep.requires((&k,)),
    ensures
        match r {
            Ok(s) => exists|chain: Seq<K>, flags: Seq<bool>|
                #[trigger] newton_history(sweep, k0, max_iter, s, chain, flags),
            Err(e) => exists|k: K| #[trigger] sweep.ensures((&k,), Err(e)),
        },
{
    let ghost g0 = k0;
    let mut k = k0;
    let mut converged = false;
    let mut i: usize = 0;
    let ghost mut chain: Seq<K> = seq![g0];
    let ghost mut flags: Seq<bool> = Seq::empty();
    while !converged && i < max_iter
        invariant
            forall|k: K| #[trigger] sweep.requires((&k,)),
            i <= max_iter,
            sweep_chain(sweep, chain, flags),
            chain[0] == g0,
            chain.last() == k,
            flags.len() == i,
            forall|j: int| 0 <= j < flags.len() - 1 ==> !#[trigger] flags[j],
            converged <==> (flags.len() > 0 && flags.last()),
        decreases max_iter - i,
    {
        let res = sweep(&k);
        match res {
            Ok((k_next, ok)) => {
                proof {
                    let old_chain = chain;
                    let old_flags = flags;
                    chain = chain.push(k_next);
                    flags = flags.push(ok);
                    assert forall|j: int| 0 <= j < flags.len() implies #[trigger] sweep.ensures(
                        (&chain[j],),
                        Ok((chain[j + 1], flags[j])),
                    ) by {
                        if j < old_flags.len() {
                            assert(sweep.ensures(
                                (&old_chain[j],),
                                Ok((old_chain[j + 1], old_flags[j])),
                            ));
                        }
                    }
                }
                k = k_next;
                converged = ok;
            },
            Err(e) => {
                proof {
                    assert(sweep.ensures((&k,), Err(e)));
                }
                return Err(e);
            },
        }
        i = i + 1;
    }
    let s = StageSolution { stages: k, converged, sweeps: i };
    let r: Result<StageSolution<K>, SolverError> = Ok(s);
    proof {
        assert(newton_history(sweep, k0, max_iter, r->Ok_0, chain, flags));
    }
    r
}


/// `sweep` has one result for each input.
pub open spec fn sweep_is_deterministic<K, F: Fn(&K) -> Result<(K, bool), SolverError>>(
    sweep: F,
) -> bool {
    forall|k: K, a: Result<(K, bool), SolverError>, b: Result<(K, bool), SolverError>|
        #[trigger] sweep.ensures((&k,), a) && #[trigger] sweep.ensures((&k,), b) ==> a == b
}

proof fn lemma_chains_agree<K, F: Fn(&K) -> Result<(K, bool), SolverError>>(
    sweep: F,
    c1: Seq<K>,
    f1: Seq<bool>,
    c2: Seq<K>,
    f2: Seq<bool>,
    j: int,
)
    requires
        sweep_is_deterministic(sweep),
        sweep_chain(sweep, c1, f1),
        sweep_chain(sweep, c2, f2),
        c1[0] == c2[0],
        0 <= j <= f1.len(),
        j <= f2.len(),
    ensures
        c1[j] == c2[j],
        forall|i: int| 0 <= i < j ==> f1[i] == f2[i],
    decreases j,
{
    if j > 0 {
        lemma_chains_agree(sweep, c1, f1, c2, f2, j - 1);
        let i = j - 1;
        assert(sweep.ensures((&c1[i],), Ok((c1[i + 1], f1[i]))));
        assert(sweep.ensures((&c2[i],), Ok((c2[i + 1], f2[i]))));
    }
}

proof fn lemma_history_not_shorter<K, F: Fn(&K) -> Result<(K, bool), SolverError>>(
    sweep: F,
    k0: K,
    max_iter: usize,
    s1: StageSolution<K>,
    c1: Seq<K>,
    f1: Seq<bool>,
    s2: StageSolution<K>,
    c2: Seq<K>,
    f2: Seq<bool>,
)
    requires
        sweep_is_deterministic(sweep),
        newton_history(sweep, k0, max_iter, s1, c1, f1),
        newton_history(sweep, k0, max_iter, s2, c2, f2),
    ensures
        f1.len() >= f2.len(),
{
    if f1.len() < f2.len() {
        lemma_chains_agree(sweep, c1, f1, c2, f2, f1.len() as int);
        assert(s1.converged);
        assert(f2[f1.len() - 1] == f1[f1.len() - 1]);
    }
}

/// Determinism of the stage solver: with a deterministic sweep, two
/// successful runs from the same initial stage values and sweep cap end
/// with the same stage values, the same convergence flag and the same
/// number of sweeps.
pub proof fn lemma_stages_deterministic<K, F: Fn(&K) -> Result<(K, bool), SolverError>>(
    sweep: F,
    k0: K,
    max_iter: usize,
    s1: StageSolution<K>,
    s2: StageSolution<K>,
)
    requires
        sweep_is_deterministic(sweep),
        exists|c: Seq<K>, f: Seq<bool>| #[trigger] newton_history(sweep, k0, max_iter, s1, c, f),
        exists|c: Seq<K>, f: Seq<bool>| #[trigger] newton_history(sweep, k0, max_iter, s2, c, f),
    ensures
        s1.stages == s2.stages,
        s1.converged == s2.converged,
        s1.sweeps == s2.sweeps,
{
    let (c1, f1) = choose|c: Seq<K>, f: Seq<bool>| newton_history(sweep, k0, max_iter, s1, c, f);
    let (c2, f2) = choose|c: Seq<K>, f: Seq<bool>| newton_history(sweep, k0, max_iter, s2, c, f);
    lemma_history_not_shorter(sweep, k0, max_iter, s1, c1, f1, s2, c2, f2);
    lemma_history_not_shorter(sweep, k0, max_iter, s2, c2, f2, s1, c1, f1);
    lemma_chains_agree(sweep, c1, f1, c2, f2, f1.len() as int);
}

} // verus!
