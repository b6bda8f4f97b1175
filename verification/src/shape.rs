use vstd::prelude::*;

verus! {

/// Number of elements of a tensor with the given dimensions: their product,
/// one for a scalar.
pub open spec fn shape_size(shape: Seq<usize>) -> nat
    decreases shape.len(),
{
    if shape.len() == 0 {
        1
    } else {
        shape_size(shape.drop_last()) * (shape.last() as nat)
    }
}

/// Sum of the element counts of a list of shapes.
pub open spec fn total_size(shapes: Seq<Seq<usize>>) -> nat
    decreases shapes.len(),
{
    if shapes.len() == 0 {
        0
    } else {
        total_size(shapes.drop_last()) + shape_size(shapes.last())
    }
}

/// A shape with a zero dimension holds no element.
pub proof fn lemma_zero_dimension(shape: Seq<usize>, k: int)
    requires
        0 <= k < shape.len(),
        shape[k] == 0,
    ensures
        shape_size(shape) == 0,
    decreases shape.len(),
{
    if k < shape.len() - 1 {
        lemma_zero_dimension(shape.drop_last(), k);
        assert(shape_size(shape.drop_last()) * (shape.last() as nat) == 0) by (nonlinear_arith)
            requires
                shape_size(shape.drop_last()) == 0,
        ;
    } else {
        assert(shape_size(shape.drop_last()) * (shape.last() as nat) == 0) by (nonlinear_arith)
            requires
                shape.last() == 0,
        ;
    }
}

/// Without a zero dimension, the leading dimensions alone never hold more
/// elements than the whole shape.
pub proof fn lemma_prefix_size(shape: Seq<usize>, n: int)
    requires
        0 <= n <= shape.len(),
        forall|k: int| 0 <= k < shape.len() ==> shape[k] > 0,
    ensures
        1 <= shape_size(shape.take(n)) <= shape_size(shape),
    decreases shape.len() - n,
{
    if n == shape.len() {
        assert(shape.take(n) =~= shape);
        lemma_size_positive(shape);
    } else {
        lemma_prefix_size(shape, n + 1);
        let longer = shape.take(n + 1);
        assert(longer.drop_last() =~= shape.take(n));
        lemma_size_positive(shape.take(n));
        assert(shape_size(shape.take(n)) <= shape_size(shape.take(n)) * (longer.last() as nat))
            by (nonlinear_arith)
            requires
                longer.last() >= 1,
        ;
    }
}

/// Without a zero dimension a shape holds at least one element.
pub proof fn lemma_size_positive(shape: Seq<usize>)
    requires
        forall|k: int| 0 <= k < shape.len() ==> shape[k] > 0,
    ensures
        shape_size(shape) >= 1,
    decreases shape.len(),
{
    if shape.len() > 0 {
        lemma_size_positive(shape.drop_last());
        assert(shape_size(shape.drop_last()) * (shape.last() as nat) >= 1) by (nonlinear_arith)
            requires
                shape_size(shape.drop_last()) >= 1,
                shape.last() >= 1,
        ;
    }
}

/// The total over a concatenation is the sum of the totals.
pub proof fn lemma_total_concat(a: Seq<Seq<usize>>, b: Seq<Seq<usize>>)
    ensures
        total_size(a + b) == total_size(a) + total_size(b),
    decreases b.len(),
{
    if b.len() == 0 {
        assert(a + b =~= a);
    } else {
        lemma_total_concat(a, b.drop_last());
        assert((a + b).drop_last() =~= a + b.drop_last());
        assert((a + b).last() == b.last());
    }
}

/// Every leading part of a list of shapes totals no more than the list.
pub proof fn lemma_total_prefix(shapes: Seq<Seq<usize>>, n: int)
    requires
        0 <= n <= shapes.len(),
    ensures
        total_size(shapes.take(n)) <= total_size(shapes),
{
    lemma_total_concat(shapes.take(n), shapes.skip(n));
    assert(shapes.take(n) + shapes.skip(n) =~= shapes);
}

/// Whether some dimension of `shape` is zero.
fn has_zero(shape: &[usize]) -> (found: bool)
    ensures
        found <==> exists|k: int| 0 <= k < shape@.len() && shape@[k] == 0,
{
    let mut i: usize = 0;
    while i < shape.len()
        invariant
            i <= shape@.len(),
            forall|k: int| 0 <= k < i ==> shape@[k] != 0,
        decreases shape@.len() - i,
    {
        if shape[i] == 0 {
            return true;
        }
        i += 1;
    }
    false
}

/// Element count of `shape`, or `None` when it exceeds what `usize` holds.
pub fn checked_size(shape: &[usize]) -> (n: Option<usize>)
    ensures
        shape_size(shape@) <= usize::MAX ==> n == Some(shape_size(shape@) as usize),
        shape_size(shape@) > usize::MAX ==> n.is_none(),
{
    if has_zero(shape) {
        proof {
            let k = choose|k: int| 0 <= k < shape@.len() && shape@[k] == 0;
            lemma_zero_dimension(shape@, k);
        }
        return Some(0);
    }
    let mut acc: usize = 1;
    let mut i: usize = 0;
    assert(shape@.take(0) =~= Seq::<usize>::empty());
    while i < shape.len()
        invariant
            i <= shape@.len(),
            forall|k: int| 0 <= k < shape@.len() ==> shape@[k] > 0,
            acc == shape_size(shape@.take(i as int)),
        decreases shape@.len() - i,
    {
        proof {
            lemma_prefix_size(shape@, i + 1);
            assert(shape@.take(i + 1).drop_last() =~= shape@.take(i as int));
        }
        match acc.checked_mul(shape[i]) {
            Some(next) => {
                acc = next;
            },
            None => {
                return None;
            },
        }
        i += 1;
    }
    assert(shape@.take(shape@.len() as int) =~= shape@);
    Some(acc)
}

} // verus!
