use crate::error::TensorError;
use vstd::prelude::*;

verus! {

/// The positions of `ids` that hold the id `row`, in increasing order.
pub open spec fn group_of(ids: Seq<usize>, row: int) -> Seq<usize>
    decreases ids.len(),
{
    if ids.len() == 0 {
        Seq::empty()
    } else if ids.last() == row {
        group_of(ids.drop_last(), row).push((ids.len() - 1) as usize)
    } else {
        group_of(ids.drop_last(), row)
    }
}

/// Whether every id names one of `rows` table rows.
pub open spec fn ids_in_range(ids: Seq<usize>, rows: int) -> bool {
    forall|p: int| 0 <= p < ids.len() ==> ids[p] < rows
}

/// Groups the positions of a context by the table row that was bound into
/// each: group `r` lists, in increasing order, the positions that hold id
/// `r`. The gradient of table row `r` is the mean of the gradient rows at
/// those positions; a row with an empty group gets none. An id that names no
/// row is refused.
pub fn unembed(ids: &[usize], rows: usize) -> (r: Result<Vec<Vec<usize>>, TensorError>)
    ensures
        match r {
            Ok(groups) => {
                &&& ids_in_range(ids@, rows as int)
                &&& groups@.len() == rows
                &&& forall|row: int|
                    0 <= row < rows ==> (#[trigger] groups@[row])@ == group_of(ids@, row)
            },
            Err(e) => e == TensorError::InvalidIndex && !ids_in_range(ids@, rows as int),
        },
{
    let mut groups: Vec<Vec<usize>> = Vec::new();
    let mut row: usize = 0;
    while row < rows
        invariant
            row <= rows,
            groups@.len() == row,
            forall|k: int| 0 <= k < row ==> (#[trigger] groups@[k])@ == Seq::<usize>::empty(),
        decreases rows - row,
    {
        groups.push(Vec::new());
        row += 1;
    }
    let mut p: usize = 0;
    assert(ids@.take(0) =~= Seq::<usize>::empty());
    while p < ids.len()
        invariant
            p <= ids@.len(),
            groups@.len() == rows,
            ids_in_range(ids@.take(p as int), rows as int),
            forall|k: int|
                0 <= k < rows ==> (#[trigger] groups@[k])@ == group_of(ids@.take(p as int), k),
        decreases ids@.len() - p,
    {
        let id: usize = ids[p];
        if id >= rows {
            assert(ids@[p as int] >= rows);
            return Err(TensorError::InvalidIndex);
        }
        let ghost before = groups@;
        groups[id].push(p);
        proof {
            let longer = ids@.take(p + 1);
            assert(longer.drop_last() =~= ids@.take(p as int));
            assert(longer.last() == id);
            assert forall|k: int| 0 <= k < rows implies (#[trigger] groups@[k])@ == group_of(
                longer,
                k,
            ) by {
                if k != id {
                    assert(groups@[k] == before[k]);
                }
            }
            assert forall|q: int| 0 <= q < longer.len() implies longer[q] < rows by {
                if q < p {
                    assert(ids@.take(p as int)[q] == longer[q]);
                }
            }
        }
        p += 1;
    }
    assert(ids@.take(ids@.len() as int) =~= ids@);
    Ok(groups)
}

/// A position is in the group of a row exactly when it holds that row's id.
pub proof fn lemma_group_members(ids: Seq<usize>, row: int, p: usize)
    requires
        ids.len() <= usize::MAX,
    ensures
        group_of(ids, row).contains(p) <==> p < ids.len() && ids[p as int] == row,
    decreases ids.len(),
{
    if ids.len() > 0 {
        let rest = ids.drop_last();
        lemma_group_members(rest, row, p);
        let g = group_of(rest, row);
        let last = (ids.len() - 1) as usize;
        if ids.last() == row {
            let h = g.push(last);
            if h.contains(p) {
                let i = choose|i: int| 0 <= i < h.len() && h[i] == p;
                if i < g.len() {
                    assert(g[i] == p);
                    assert(g.contains(p));
                }
            }
            if p < ids.len() && ids[p as int] == row {
                if p < rest.len() {
                    assert(g.contains(p));
                    let i = choose|i: int| 0 <= i < g.len() && g[i] == p;
                    assert(h[i] == p);
                } else {
                    assert(h[g.len() as int] == p);
                }
            }
        } else {
            if p < rest.len() {
                assert(rest[p as int] == ids[p as int]);
            }
        }
    }
}

/// The positions of a group come in strictly increasing order, so none
/// occurs twice, and all lie within the context.
pub proof fn lemma_group_increasing(ids: Seq<usize>, row: int)
    requires
        ids.len() <= usize::MAX,
    ensures
        forall|i: int, j: int|
            0 <= i < j < group_of(ids, row).len() ==> group_of(ids, row)[i] < group_of(
                ids,
                row,
            )[j],
        forall|i: int| 0 <= i < group_of(ids, row).len() ==> group_of(ids, row)[i] < ids.len(),
    decreases ids.len(),
{
    if ids.len() > 0 {
        let rest = ids.drop_last();
        lemma_group_increasing(rest, row);
        let g = group_of(rest, row);
        let now = group_of(ids, row);
        let last = (ids.len() - 1) as usize;
        assert forall|i: int| 0 <= i < now.len() implies now[i] < ids.len() by {
            if i < g.len() {
                assert(now[i] == g[i]);
            }
        }
        assert forall|i: int, j: int| 0 <= i < j < now.len() implies now[i] < now[j] by {
            assert(now[i] == g[i]);
            if j < g.len() {
                assert(now[j] == g[j]);
            } else {
                assert(now[j] == last);
                assert(g[i] < rest.len());
            }
        }
    }
}

/// A row that no position holds has an empty group.
pub proof fn lemma_unbound_row(ids: Seq<usize>, row: int)
    requires
        forall|p: int| 0 <= p < ids.len() ==> ids[p] != row,
    ensures
        group_of(ids, row).len() == 0,
    decreases ids.len(),
{
    if ids.len() > 0 {
        assert(ids.last() != row);
        lemma_unbound_row(ids.drop_last(), row);
    }
}

} // verus!
