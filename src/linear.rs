use vstd::prelude::*;
use crate::error::SolverError;

verus! {

/// Partial pivoting at elimination step `start`. `keys[k]` orders the
/// magnitude of the entry of row `k` in the pivot column (a larger key for a
/// larger magnitude); `tiny` is the key of the smallest magnitude accepted as
/// a pivot. Returns the first row at or below `start` with the largest key,
/// or reports a singular matrix when even that key is below `tiny`.
pub fn select_pivot(keys: &Vec<u64>, start: usize, tiny: u64) -> (r: Result<usize, SolverError>)
    requires
        start < keys.len(),
    ensures
        match r {
            Ok(p) => {
                &&& start <= p < keys.len()
                &&& keys[p as int] >= tiny
                &&& forall|k: int| start <= k < keys.len() ==> keys[k] <= keys[p as int]
                &&& forall|k: int| start <= k < p ==> keys[k] < keys[p as int]
            },
            Err(e) => {
                &&& e == SolverError::SingularMatrix { step: start }
                &&& forall|k: int| start <= k < keys.len() ==> keys[k] < tiny
            },
        },
{
    let mut best = start;
    let mut k = start + 1;
    while k < keys.len()
        invariant
            start <= best < k <= keys.len(),
            forall|j: int| start <= j < k ==> keys[j] <= keys[best as int],
            forall|j: int| start <= j < best ==> keys[j] < keys[best as int],
        decreases keys.len() - k,
    {
        if keys[k] > keys[best] {
            best = k;
        }
        k = k + 1;
    }
    if keys[best] < tiny {
        Err(SolverError::SingularMatrix { step: start })
    } else {
        Ok(best)
    }
}

/// `a` has `rows` rows of `cols` entries each.
pub open spec fn has_shape<T>(a: Seq<Vec<T>>, rows: nat, cols: nat) -> bool {
    a.len() == rows && forall|i: int| 0 <= i < a.len() ==> (#[trigger] a[i]).len() == cols
}

/// Checks that `a` has `rows` rows of `cols` entries each. On failure
/// reports the first length that differs: the number of rows, else the
/// length of the first row that is too short or too long.
pub fn check_shape<T>(a: &Vec<Vec<T>>, rows: usize, cols: usize) -> (r: Result<(), SolverError>)
    ensures
        r is Ok <==> has_shape(a@, rows as nat, cols as nat),
        match r {
            Ok(_) => true,
            Err(e) => if a.len() != rows {
                e == (SolverError::DimensionMismatch { expected: rows, found: a.len() })
            } else {
                exists|i: int|
                    0 <= i < a.len() && (forall|j: int| 0 <= j < i ==> (#[trigger] a[j]).len() == cols)
                        && a[i].len() != cols && e == (SolverError::DimensionMismatch {
                        expected: cols,
                        found: a[i].len(),
                    })
            },
        },
{
    if a.len() != rows {
        return Err(SolverError::DimensionMismatch { expected: rows, found: a.len() });
    }
    let mut i: usize = 0;
    while i < a.len()
        invariant
            i <= a.len(),
            a.len() == rows,
            forall|j: int| 0 <= j < i ==> (#[trigger] a[j]).len() == cols,
        decreases a.len() - i,
    {
        if a[i].len() != cols {
            proof {
                assert(!has_shape(a@, rows as nat, cols as nat)) by {
                    assert(a@[i as int].len() != cols);
                }
            }
            return Err(SolverError::DimensionMismatch { expected: cols, found: a[i].len() });
        }
        i = i + 1;
    }
    Ok(())
}

} // verus!
