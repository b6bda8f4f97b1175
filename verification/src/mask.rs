use vstd::prelude::*;

verus! {

/// Whether attention from position `i` to position `j` is forbidden: a
/// position may not attend to one that comes strictly later.
pub open spec fn forbidden(i: int, j: int) -> bool {
    j > i
}

/// The causal mask for a context of `n` positions: entry `j` of row `i` says
/// whether attention from `i` to `j` is forbidden. It depends on `n` alone
/// and is made anew by every call.
pub fn causal_mask(n: usize) -> (mask: Vec<Vec<bool>>)
    ensures
        mask@.len() == n,
        forall|i: int| 0 <= i < n ==> (#[trigger] mask@[i])@.len() == n,
        forall|i: int, j: int| 0 <= i < n && 0 <= j < n ==> mask@[i]@[j] == forbidden(i, j),
{
    let mut mask: Vec<Vec<bool>> = Vec::new();
    let mut i: usize = 0;
    while i < n
        invariant
            i <= n,
            mask@.len() == i,
            forall|k: int| 0 <= k < i ==> (#[trigger] mask@[k])@.len() == n,
            forall|k: int, j: int| 0 <= k < i && 0 <= j < n ==> mask@[k]@[j] == forbidden(k, j),
        decreases n - i,
    {
        let mut row: Vec<bool> = Vec::new();
        let mut j: usize = 0;
        while j < n
            invariant
                j <= n,
                row@.len() == j,
                forall|k: int| 0 <= k < j ==> row@[k] == forbidden(i as int, k),
            decreases n - j,
        {
            row.push(j > i);
            j += 1;
        }
        mask.push(row);
        i += 1;
    }
    mask
}

} // verus!
