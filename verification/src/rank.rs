use vstd::prelude::*;

verus! {

/// Whether candidate `a` is scanned before candidate `b`: the larger key
/// first, and of two equal keys the larger id first.
pub open spec fn outranks(keys: Seq<usize>, a: int, b: int) -> bool {
    keys[a] > keys[b] || (keys[a] == keys[b] && a > b)
}

/// Whether `order` lists the ids from `lo` up to, and without, `hi`, each
/// once, every id before all those it outranks.
pub open spec fn ranks(keys: Seq<usize>, order: Seq<usize>, lo: int, hi: int) -> bool {
    &&& order.len() == hi - lo
    &&& forall|i: int| 0 <= i < order.len() ==> lo <= #[trigger] order[i] < hi
    &&& forall|id: int| lo <= id < hi ==> #[trigger] order.contains(id as usize)
    &&& forall|i: int, j: int|
        0 <= i < j < order.len() ==> outranks(keys, order[i] as int, order[j] as int)
}

/// Whether `order` is the scan order of all candidates of `keys`.
pub open spec fn is_ranking(keys: Seq<usize>, order: Seq<usize>) -> bool {
    ranks(keys, order, 0, keys.len() as int)
}

/// Whether candidate `a` is scanned before candidate `b`.
fn goes_first(keys: &[usize], a: usize, b: usize) -> (r: bool)
    requires
        a < keys@.len(),
        b < keys@.len(),
    ensures
        r == outranks(keys@, a as int, b as int),
{
    keys[a] > keys[b] || (keys[a] == keys[b] && a > b)
}

/// Merges the scan orders of two adjoining ranges of ids into the scan order
/// of both.
fn merge(
    keys: &[usize],
    left: &Vec<usize>,
    right: &Vec<usize>,
    Ghost(lo): Ghost<int>,
    Ghost(mid): Ghost<int>,
    Ghost(hi): Ghost<int>,
) -> (out: Vec<usize>)
    requires
        0 <= lo <= mid <= hi <= keys@.len(),
        ranks(keys@, left@, lo, mid),
        ranks(keys@, right@, mid, hi),
    ensures
        ranks(keys@, out@, lo, hi),
{
    let mut out: Vec<usize> = Vec::new();
    let mut i: usize = 0;
    let mut j: usize = 0;
    while i < left.len() || j < right.len()
        invariant
            0 <= lo <= mid <= hi <= keys@.len(),
            ranks(keys@, left@, lo, mid),
            ranks(keys@, right@, mid, hi),
            i <= left@.len(),
            j <= right@.len(),
            out@.len() == i + j,
            forall|k: int| 0 <= k < out@.len() ==> lo <= #[trigger] out@[k] < hi,
            forall|k: int| 0 <= k < i ==> out@.contains(#[trigger] left@[k]),
            forall|k: int| 0 <= k < j ==> out@.contains(#[trigger] right@[k]),
            forall|a: int, b: int|
                0 <= a < b < out@.len() ==> outranks(keys@, out@[a] as int, out@[b] as int),
            forall|k: int, r: int|
                0 <= k < out@.len() && i <= r < left@.len() ==> outranks(
                    keys@,
                    #[trigger] out@[k] as int,
                    #[trigger] left@[r] as int,
                ),
            forall|k: int, r: int|
                0 <= k < out@.len() && j <= r < right@.len() ==> outranks(
                    keys@,
                    #[trigger] out@[k] as int,
                    #[trigger] right@[r] as int,
                ),
        decreases left@.len() - i + right@.len() - j,
    {
        let ghost before = out@;
        let from_left: bool = if j == right.len() {
            true
        } else if i == left.len() {
            false
        } else {
            assert(lo <= left@[i as int] < mid && mid <= right@[j as int] < hi);
            goes_first(keys, left[i], right[j])
        };
        if from_left {
            let x: usize = left[i];
            out.push(x);
            proof {
                assert forall|k: int| 0 <= k < i + 1 implies out@.contains(
                    #[trigger] left@[k],
                ) by {
                    if k < i {
                        let at = choose|at: int| 0 <= at < before.len() && before[at] == left@[k];
                        assert(out@[at] == left@[k]);
                    } else {
                        assert(out@[before.len() as int] == x);
                    }
                }
                assert forall|k: int| 0 <= k < j implies out@.contains(#[trigger] right@[k]) by {
                    let at = choose|at: int| 0 <= at < before.len() && before[at] == right@[k];
                    assert(out@[at] == right@[k]);
                }
                assert forall|a: int, b: int| 0 <= a < b < out@.len() implies outranks(
                    keys@,
                    out@[a] as int,
                    out@[b] as int,
                ) by {
                    if b < before.len() {
                        assert(out@[a] == before[a] && out@[b] == before[b]);
                    } else {
                        assert(out@[a] == before[a]);
                        assert(outranks(keys@, before[a] as int, left@[i as int] as int));
                    }
                }
                assert forall|k: int, r: int|
                    0 <= k < out@.len() && i + 1 <= r < left@.len() implies outranks(
                    keys@,
                    #[trigger] out@[k] as int,
                    #[trigger] left@[r] as int,
                ) by {
                    if k < before.len() {
                        assert(out@[k] == before[k]);
                    }
                }
                assert forall|k: int, r: int|
                    0 <= k < out@.len() && j <= r < right@.len() implies outranks(
                    keys@,
                    #[trigger] out@[k] as int,
                    #[trigger] right@[r] as int,
                ) by {
                    if k < before.len() {
                        assert(out@[k] == before[k]);
                    } else {
                        assert(lo <= left@[i as int] < mid);
                        assert(mid <= right@[r] < hi);
                        assert(mid <= right@[j as int] < hi);
                        assert(outranks(keys@, x as int, right@[j as int] as int));
                        if r > j {
                            assert(outranks(keys@, right@[j as int] as int, right@[r] as int));
                        }
                    }
                }
            }
            i += 1;
        } else {
            let x: usize = right[j];
            out.push(x);
            proof {
                assert forall|k: int| 0 <= k < i implies out@.contains(#[trigger] left@[k]) by {
                    let at = choose|at: int| 0 <= at < before.len() && before[at] == left@[k];
                    assert(out@[at] == left@[k]);
                }
                assert forall|k: int| 0 <= k < j + 1 implies out@.contains(
                    #[trigger] right@[k],
                ) by {
                    if k < j {
                        let at = choose|at: int| 0 <= at < before.len() && before[at] == right@[k];
                        assert(out@[at] == right@[k]);
                    } else {
                        assert(out@[before.len() as int] == x);
                    }
                }
                assert forall|a: int, b: int| 0 <= a < b < out@.len() implies outranks(
                    keys@,
                    out@[a] as int,
                    out@[b] as int,
                ) by {
                    if b < before.len() {
                        assert(out@[a] == before[a] && out@[b] == before[b]);
                    } else {
                        assert(out@[a] == before[a]);
                        assert(outranks(keys@, before[a] as int, right@[j as int] as int));
                    }
                }
                assert forall|k: int, r: int|
                    0 <= k < out@.len() && i <= r < left@.len() implies outranks(
                    keys@,
                    #[trigger] out@[k] as int,
                    #[trigger] left@[r] as int,
                ) by {
                    if k < before.len() {
                        assert(out@[k] == before[k]);
                    } else {
                        assert(lo <= left@[r] < mid);
                        assert(lo <= left@[i as int] < mid);
                        assert(mid <= right@[j as int] < hi);
                        assert(!outranks(keys@, left@[i as int] as int, x as int));
                        if r > i {
                            assert(outranks(keys@, left@[i as int] as int, left@[r] as int));
                        }
                    }
                }
                assert forall|k: int, r: int|
                    0 <= k < out@.len() && j + 1 <= r < right@.len() implies outranks(
                    keys@,
                    #[trigger] out@[k] as int,
                    #[trigger] right@[r] as int,
                ) by {
                    if k < before.len() {
                        assert(out@[k] == before[k]);
                    }
                }
            }
            j += 1;
        }
    }
    proof {
        assert forall|id: int| lo <= id < hi implies #[trigger] out@.contains(id as usize) by {
            if id < mid {
                assert(left@.contains(id as usize));
                let k = choose|k: int| 0 <= k < left@.len() && left@[k] == id as usize;
                assert(out@.contains(left@[k]));
            } else {
                assert(right@.contains(id as usize));
                let k = choose|k: int| 0 <= k < right@.len() && right@[k] == id as usize;
                assert(out@.contains(right@[k]));
            }
        }
    }
    out
}

/// Scan order of the ids from `lo` up to, and without, `hi`.
fn rank_range(keys: &[usize], lo: usize, hi: usize) -> (out: Vec<usize>)
    requires
        lo <= hi <= keys@.len(),
    ensures
        ranks(keys@, out@, lo as int, hi as int),
    decreases hi - lo,
{
    if hi - lo == 0 {
        Vec::new()
    } else if hi - lo == 1 {
        let mut out: Vec<usize> = Vec::new();
        out.push(lo);
        assert(out@[0] == lo);
        out
    } else {
        let mid: usize = lo + (hi - lo) / 2;
        let left = rank_range(keys, lo, mid);
        let right = rank_range(keys, mid, hi);
        merge(keys, &left, &right, Ghost(lo as int), Ghost(mid as int), Ghost(hi as int))
    }
}

/// The order in which the candidates are scanned during selection: by
/// falling key, and among equal keys by falling id. `keys[id]` is the
/// quantised probability of candidate `id`.
pub fn rank(keys: &[usize]) -> (order: Vec<usize>)
    ensures
        is_ranking(keys@, order@),
{
    rank_range(keys, 0, keys.len())
}

/// The candidate that is scanned first has the largest key.
pub proof fn lemma_first_is_largest(keys: Seq<usize>, order: Seq<usize>, id: usize)
    requires
        is_ranking(keys, order),
        id < keys.len(),
    ensures
        keys[order[0] as int] >= keys[id as int],
{
    assert(order.contains(id as int as usize));
    let k = choose|k: int| 0 <= k < order.len() && order[k] == id;
    if k > 0 {
        assert(outranks(keys, order[0] as int, order[k] as int));
    }
}

/// The scan order is determined by the keys: two scan orders of the same
/// keys are the same, whatever ties the keys hold.
pub proof fn lemma_ranking_unique(keys: Seq<usize>, a: Seq<usize>, b: Seq<usize>)
    requires
        is_ranking(keys, a),
        is_ranking(keys, b),
    ensures
        a == b,
{
    assert forall|i: int| 0 <= i < a.len() implies a[i] == b[i] by {
        lemma_same_at(keys, a, b, i);
    }
    assert(a =~= b);
}

/// Two scan orders of the same keys agree at position `i`.
proof fn lemma_same_at(keys: Seq<usize>, a: Seq<usize>, b: Seq<usize>, i: int)
    requires
        is_ranking(keys, a),
        is_ranking(keys, b),
        0 <= i < a.len(),
    ensures
        a[i] == b[i],
    decreases i,
{
    assert(0 <= a[i] < keys.len());
    assert(0 <= b[i] < keys.len());
    assert(b.contains(a[i] as int as usize));
    let j = choose|j: int| 0 <= j < b.len() && b[j] == a[i];
    assert(a.contains(b[i] as int as usize));
    let k = choose|k: int| 0 <= k < a.len() && a[k] == b[i];
    if j < i {
        lemma_same_at(keys, a, b, j);
        assert(outranks(keys, a[j] as int, a[i] as int));
    } else if j > i {
        assert(outranks(keys, b[i] as int, b[j] as int));
        if k < i {
            lemma_same_at(keys, a, b, k);
            assert(outranks(keys, b[k] as int, b[i] as int));
        } else if k > i {
            assert(outranks(keys, a[i] as int, a[k] as int));
        }
    }
}

} // verus!
