use crate::arch::{app1, app2, app3};
use crate::error::TensorError;
use crate::graph::{
    cols_sum, leaf, infer, input_shapes, inputs_below, is_suffix, rows_agree, Graph, NodeView, Op,
    TensorId,
};
use vstd::prelude::*;

verus! {

/// Whether `op` takes one operand of the shape `shape` and keeps that shape.
pub open spec fn keeps_shape(op: Op, shape: Seq<usize>) -> bool {
    match op {
        Op::Coeff(_) | Op::Dropout | Op::Relu => true,
        Op::Softmax => shape.len() >= 1,
        Op::Mask(side) => shape == seq![side, side],
        _ => false,
    }
}

/// Adds a leaf vector of `n` elements.
pub(crate) fn vector(g: &mut Graph, n: usize) -> (id: TensorId)
    requires
        old(g).wf(),
    ensures
        final(g).wf(),
        id == old(g)@.len(),
        final(g)@ == old(g)@.push(leaf(seq![n])),
{
    let shape: Vec<usize> = vec![n];
    assert(shape@ =~= seq![n]);
    g.allocate(shape)
}

/// Adds a leaf matrix of `rows` by `cols` elements.
pub(crate) fn matrix(g: &mut Graph, rows: usize, cols: usize) -> (id: TensorId)
    requires
        old(g).wf(),
    ensures
        final(g).wf(),
        id == old(g)@.len(),
        final(g)@ == old(g)@.push(leaf(seq![rows, cols])),
{
    let shape: Vec<usize> = vec![rows, cols];
    assert(shape@ =~= seq![rows, cols]);
    g.allocate(shape)
}

/// Applies a shape-preserving operator to the node `a`.
pub(crate) fn unary(g: &mut Graph, op: Op, a: TensorId) -> (r: Result<TensorId, TensorError>)
    requires
        old(g).wf(),
        a < old(g)@.len(),
        keeps_shape(op, old(g)@[a as int].shape),
    ensures
        final(g).wf(),
        r is Ok,
        r->Ok_0 == old(g)@.len(),
        final(g)@ == old(g)@.push(app1(op, a as int, old(g)@[a as int].shape)),
{
    let inputs: Vec<TensorId> = vec![a];
    proof {
        assert(inputs@ =~= seq![a]);
        let ins = input_shapes(g@, inputs@);
        assert(ins.len() == 1 && ins[0] == g@[a as int].shape);
        assert(infer(op, ins) == Ok::<Seq<usize>, TensorError>(g@[a as int].shape));
    }
    g.call(op, inputs)
}

/// Transposes the matrix `a`.
pub(crate) fn transpose(g: &mut Graph, a: TensorId) -> (r: Result<TensorId, TensorError>)
    requires
        old(g).wf(),
        a < old(g)@.len(),
        old(g)@[a as int].shape.len() == 2,
    ensures
        final(g).wf(),
        r is Ok,
        r->Ok_0 == old(g)@.len(),
        final(g)@ == old(g)@.push(
            app1(
                Op::Transpose,
                a as int,
                seq![old(g)@[a as int].shape[1], old(g)@[a as int].shape[0]],
            ),
        ),
{
    let inputs: Vec<TensorId> = vec![a];
    proof {
        assert(inputs@ =~= seq![a]);
        let ins = input_shapes(g@, inputs@);
        assert(ins.len() == 1 && ins[0] == g@[a as int].shape);
    }
    g.call(Op::Transpose, inputs)
}

/// Multiplies the matrices `a` and `b`.
pub(crate) fn matmul(g: &mut Graph, a: TensorId, b: TensorId) -> (r: Result<
    TensorId,
    TensorError,
>)
    requires
        old(g).wf(),
        a < old(g)@.len(),
        b < old(g)@.len(),
        old(g)@[a as int].shape.len() == 2,
        old(g)@[b as int].shape.len() == 2,
        old(g)@[a as int].shape[1] == old(g)@[b as int].shape[0],
    ensures
        final(g).wf(),
        r is Ok,
        r->Ok_0 == old(g)@.len(),
        final(g)@ == old(g)@.push(
            app2(
                Op::MatMul,
                a as int,
                b as int,
                seq![old(g)@[a as int].shape[0], old(g)@[b as int].shape[1]],
            ),
        ),
{
    let inputs: Vec<TensorId> = vec![a, b];
    proof {
        assert(inputs@ =~= seq![a, b]);
        let ins = input_shapes(g@, inputs@);
        assert(ins.len() == 2 && ins[0] == g@[a as int].shape && ins[1] == g@[b as int].shape);
    }
    g.call(Op::MatMul, inputs)
}

/// Adds `b` to `a`, broadcasting `b` over the leading axes of `a`.
pub(crate) fn sum(g: &mut Graph, a: TensorId, b: TensorId) -> (r: Result<TensorId, TensorError>)
    requires
        old(g).wf(),
        a < old(g)@.len(),
        b < old(g)@.len(),
        is_suffix(old(g)@[b as int].shape, old(g)@[a as int].shape),
    ensures
        final(g).wf(),
        r is Ok,
        r->Ok_0 == old(g)@.len(),
        final(g)@ == old(g)@.push(app2(Op::Add, a as int, b as int, old(g)@[a as int].shape)),
{
    let inputs: Vec<TensorId> = vec![a, b];
    proof {
        assert(inputs@ =~= seq![a, b]);
        let ins = input_shapes(g@, inputs@);
        assert(ins.len() == 2 && ins[0] == g@[a as int].shape && ins[1] == g@[b as int].shape);
    }
    g.call(Op::Add, inputs)
}

/// Normalises `x` over its last axis with the scale `c` and the bias `b`.
pub(crate) fn layer_norm(g: &mut Graph, x: TensorId, c: TensorId, b: TensorId) -> (r: Result<
    TensorId,
    TensorError,
>)
    requires
        old(g).wf(),
        x < old(g)@.len(),
        c < old(g)@.len(),
        b < old(g)@.len(),
        old(g)@[x as int].shape.len() >= 1,
        old(g)@[c as int].shape == seq![old(g)@[x as int].shape.last()],
        old(g)@[b as int].shape == seq![old(g)@[x as int].shape.last()],
    ensures
        final(g).wf(),
        r is Ok,
        r->Ok_0 == old(g)@.len(),
        final(g)@ == old(g)@.push(
            app3(Op::LayerNorm, x as int, c as int, b as int, old(g)@[x as int].shape),
        ),
{
    let inputs: Vec<TensorId> = vec![x, c, b];
    proof {
        assert(inputs@ =~= seq![x, c, b]);
        let ins = input_shapes(g@, inputs@);
        assert(ins.len() == 3 && ins[0] == g@[x as int].shape && ins[1] == g@[c as int].shape
            && ins[2] == g@[b as int].shape);
    }
    g.call(Op::LayerNorm, inputs)
}

/// Matrices that all have `cols` columns have `cols` columns each time over.
pub proof fn lemma_cols_uniform(ins: Seq<Seq<usize>>, cols: usize)
    requires
        forall|k: int| 0 <= k < ins.len() ==> (#[trigger] ins[k]).len() == 2 && ins[k][1] == cols,
    ensures
        cols_sum(ins) == ins.len() * cols,
    decreases ins.len(),
{
    if ins.len() > 0 {
        lemma_cols_uniform(ins.drop_last(), cols);
        assert(ins.last()[1] == cols);
        assert((ins.len() - 1) * cols + cols == ins.len() * cols) by (nonlinear_arith);
    } else {
        assert(ins.len() * cols == 0) by (nonlinear_arith)
            requires
                ins.len() == 0,
        ;
    }
}

/// Concatenates matrices of one common shape along the last axis.
pub(crate) fn cat(g: &mut Graph, inputs: Vec<TensorId>, rows: usize, cols: usize) -> (r: Result<
    TensorId,
    TensorError,
>)
    requires
        old(g).wf(),
        inputs@.len() >= 1,
        inputs_below(inputs@, old(g)@.len() as int),
        forall|k: int|
            0 <= k < inputs@.len() ==> (#[trigger] old(g)@[inputs@[k] as int]).shape == seq![
                rows,
                cols,
            ],
        inputs@.len() * cols <= usize::MAX,
    ensures
        final(g).wf(),
        r is Ok,
        r->Ok_0 == old(g)@.len(),
        final(g)@ == old(g)@.push(
            NodeView {
                op: Op::Cat,
                inputs: inputs@,
                shape: seq![rows, (inputs@.len() * cols) as usize],
            },
        ),
{
    proof {
        let ins = input_shapes(g@, inputs@);
        assert forall|k: int| 0 <= k < ins.len() implies (#[trigger] ins[k]).len() == 2 && ins[k][0]
            == rows && ins[k][1] == cols by {
            assert(g@[inputs@[k] as int].shape == seq![rows, cols]);
        }
        assert(rows_agree(ins));
        lemma_cols_uniform(ins, cols);
    }
    g.call(Op::Cat, inputs)
}

} // verus!
