use crate::error::TensorError;
use vstd::prelude::*;

verus! {

/// Index of a node in its graph.
pub type TensorId = usize;

/// What produces a node's tensor.
#[derive(Debug, Clone, Copy, PartialEq, Eq, Structural)]
pub enum Op {
    /// Allocated, not computed: a learnable tensor or an input placeholder.
    Leaf,
    /// Elementwise sum; the second operand may be broadcast over leading axes.
    Add,
    /// Normalisation over the last axis, with a scale and a bias vector.
    LayerNorm,
    /// Product of two matrices.
    MatMul,
    /// Exchange of the two axes of a matrix.
    Transpose,
    /// Scaling by the inverse square root of the given head size.
    Coeff(usize),
    /// Causal mask over a square matrix with the given side: entries whose
    /// column lies behind their row are replaced by negative infinity.
    Mask(usize),
    /// Row-wise normalisation into a probability distribution.
    Softmax,
    /// Random zeroing, active in training only.
    Dropout,
    /// Concatenation of matrices along the last axis.
    Cat,
    /// Rectifier.
    Relu,
}

/// A node of the dataflow graph.
pub struct Node {
    pub op: Op,
    pub inputs: Vec<TensorId>,
    pub shape: Vec<usize>,
}

/// Mathematical model of a node.
pub struct NodeView {
    pub op: Op,
    pub inputs: Seq<usize>,
    pub shape: Seq<usize>,
}

impl View for Node {
    type V = NodeView;

    open spec fn view(&self) -> NodeView {
        NodeView { op: self.op, inputs: self.inputs@, shape: self.shape@ }
    }
}

/// Model of an allocated node with the given shape.
pub open spec fn leaf(shape: Seq<usize>) -> NodeView {
    NodeView { op: Op::Leaf, inputs: Seq::empty(), shape }
}

/// Whether `b` equals the trailing dimensions of `a`.
pub open spec fn is_suffix(b: Seq<usize>, a: Seq<usize>) -> bool {
    &&& b.len() <= a.len()
    &&& forall|k: int| 0 <= k < b.len() ==> b[k] == a[a.len() - b.len() + k]
}

/// Whether the shapes are matrices with one common number of rows.
pub open spec fn rows_agree(ins: Seq<Seq<usize>>) -> bool {
    &&& ins.len() >= 1
    &&& forall|k: int|
        0 <= k < ins.len() ==> (#[trigger] ins[k]).len() == 2 && ins[k][0] == ins[0][0]
}

/// Sum of the second dimensions of the shapes.
pub open spec fn cols_sum(ins: Seq<Seq<usize>>) -> nat
    decreases ins.len(),
{
    if ins.len() == 0 {
        0
    } else {
        cols_sum(ins.drop_last()) + (ins.last()[1] as nat)
    }
}

/// Shape that `op` gives on operands of the shapes `ins`, or why it refuses
/// them.
pub open spec fn infer(op: Op, ins: Seq<Seq<usize>>) -> Result<Seq<usize>, TensorError> {
    match op {
        Op::Leaf => Err(TensorError::UnexpectedShape),
        Op::Add => if ins.len() == 2 && is_suffix(ins[1], ins[0]) {
            Ok(ins[0])
        } else {
            Err(TensorError::UnexpectedShape)
        },
        Op::LayerNorm => if ins.len() == 3 && ins[0].len() >= 1 && ins[1] == seq![ins[0].last()]
            && ins[2] == seq![ins[0].last()] {
            Ok(ins[0])
        } else {
            Err(TensorError::UnexpectedShape)
        },
        Op::MatMul => if ins.len() == 2 && ins[0].len() == 2 && ins[1].len() == 2 && ins[0][1]
            == ins[1][0] {
            Ok(seq![ins[0][0], ins[1][1]])
        } else {
            Err(TensorError::UnexpectedShape)
        },
        Op::Transpose => if ins.len() == 1 && ins[0].len() == 2 {
            Ok(seq![ins[0][1], ins[0][0]])
        } else {
            Err(TensorError::UnexpectedShape)
        },
        Op::Coeff(_) | Op::Dropout | Op::Relu => if ins.len() == 1 {
            Ok(ins[0])
        } else {
            Err(TensorError::UnexpectedShape)
        },
        Op::Mask(side) => if ins.len() == 1 && ins[0] == seq![side, side] {
            Ok(ins[0])
        } else {
            Err(TensorError::UnexpectedShape)
        },
        Op::Softmax => if ins.len() == 1 && ins[0].len() >= 1 {
            Ok(ins[0])
        } else {
            Err(TensorError::UnexpectedShape)
        },
        Op::Cat => if !rows_agree(ins) {
            Err(TensorError::UnexpectedShape)
        } else if cols_sum(ins) > usize::MAX {
            Err(TensorError::TooLarge)
        } else {
            Ok(seq![ins[0][0], cols_sum(ins) as usize])
        },
    }
}

/// Shapes of the nodes `inputs` of `g`, in order.
pub open spec fn input_shapes(g: Seq<NodeView>, inputs: Seq<usize>) -> Seq<Seq<usize>> {
    Seq::new(inputs.len(), |k: int| g[inputs[k] as int].shape)
}

/// Whether every operand names one of the first `bound` nodes.
pub open spec fn inputs_below(inputs: Seq<usize>, bound: int) -> bool {
    forall|k: int| 0 <= k < inputs.len() ==> inputs[k] < bound
}

/// Whether the ids come in strictly rising order, which is the order in
/// which their nodes were constructed.
pub open spec fn ascending(ids: Seq<usize>) -> bool {
    forall|i: int, j: int| 0 <= i < j < ids.len() ==> ids[i] < ids[j]
}

/// Ids of nodes constructed later may be appended to ids in rising order.
pub proof fn lemma_ascending_append(ids: Seq<usize>, more: Seq<usize>, bound: int)
    requires
        ascending(ids),
        inputs_below(ids, bound),
        ascending(more),
        forall|k: int| 0 <= k < more.len() ==> more[k] >= bound,
    ensures
        ascending(ids + more),
{
    let all = ids + more;
    assert forall|i: int, j: int| 0 <= i < j < all.len() implies all[i] < all[j] by {
        if j < ids.len() {
            assert(all[i] == ids[i] && all[j] == ids[j]);
        } else if i < ids.len() {
            assert(all[i] == ids[i] && all[j] == more[j - ids.len()]);
        } else {
            assert(all[i] == more[i - ids.len()] && all[j] == more[j - ids.len()]);
        }
    }
}

/// What applying `op` to the nodes `inputs` of `g` gives: the shape of the
/// new node, `InvalidIndex` when an operand is no node of `g`, or the refusal
/// of the operator.
pub open spec fn outcome(g: Seq<NodeView>, op: Op, inputs: Seq<usize>) -> Result<
    Seq<usize>,
    TensorError,
> {
    if !inputs_below(inputs, g.len() as int) {
        Err(TensorError::InvalidIndex)
    } else {
        infer(op, input_shapes(g, inputs))
    }
}

/// Whether node `i` of `g` is a leaf without operands, or an operator applied
/// to earlier nodes whose shapes it accepts, with the shape it gives.
pub open spec fn node_ok(g: Seq<NodeView>, i: int) -> bool {
    if g[i].op == Op::Leaf {
        g[i].inputs.len() == 0
    } else {
        &&& inputs_below(g[i].inputs, i)
        &&& infer(g[i].op, input_shapes(g, g[i].inputs)) == Ok::<Seq<usize>, TensorError>(
            g[i].shape,
        )
    }
}

/// Whether every node of `g` is in order: the graph is acyclic and every
/// operator fits its operands.
pub open spec fn well_formed(g: Seq<NodeView>) -> bool {
    forall|i: int| 0 <= i < g.len() ==> node_ok(g, i)
}

/// Appending a node leaves the earlier nodes in order.
pub proof fn lemma_push_keeps_order(g: Seq<NodeView>, n: NodeView)
    requires
        well_formed(g),
        node_ok(g.push(n), g.len() as int),
    ensures
        well_formed(g.push(n)),
{
    let h = g.push(n);
    assert forall|i: int| 0 <= i < h.len() implies node_ok(h, i) by {
        if i < g.len() {
            assert(node_ok(g, i));
            assert(h[i] == g[i]);
            if g[i].op != Op::Leaf {
                assert(input_shapes(h, h[i].inputs) =~= input_shapes(g, g[i].inputs));
            }
        }
    }
}

/// The leading shapes never sum to more columns than all of them.
pub proof fn lemma_cols_prefix(ins: Seq<Seq<usize>>, n: int)
    requires
        0 <= n <= ins.len(),
    ensures
        cols_sum(ins.take(n)) <= cols_sum(ins),
    decreases ins.len() - n,
{
    if n == ins.len() {
        assert(ins.take(n) =~= ins);
    } else {
        lemma_cols_prefix(ins, n + 1);
        assert(ins.take(n + 1).drop_last() =~= ins.take(n));
    }
}

/// A copy of `v`.
fn copy_of(v: &Vec<usize>) -> (c: Vec<usize>)
    ensures
        c@ == v@,
{
    let mut c: Vec<usize> = Vec::new();
    let mut i: usize = 0;
    while i < v.len()
        invariant
            i <= v@.len(),
            c@ == v@.take(i as int),
        decreases v@.len() - i,
    {
        c.push(v[i]);
        assert(v@.take(i + 1) =~= v@.take(i as int).push(v@[i as int]));
        i += 1;
    }
    assert(v@.take(v@.len() as int) =~= v@);
    c
}

/// Whether `b` equals the trailing dimensions of `a`.
fn ends_with(a: &Vec<usize>, b: &Vec<usize>) -> (r: bool)
    ensures
        r == is_suffix(b@, a@),
{
    if b.len() > a.len() {
        return false;
    }
    let off: usize = a.len() - b.len();
    let mut k: usize = 0;
    while k < b.len()
        invariant
            k <= b@.len(),
            b@.len() <= a@.len(),
            off == a@.len() - b@.len(),
            a@.len() <= usize::MAX,
            forall|j: int| 0 <= j < k ==> b@[j] == a@[a@.len() - b@.len() + j],
        decreases b@.len() - k,
    {
        if b[k] != a[off + k] {
            return false;
        }
        k += 1;
    }
    true
}

/// A dataflow graph as a plan: which tensors exist, of which shape, and how
/// each computed one follows from earlier ones. It holds no values.
pub struct Graph {
    nodes: Vec<Node>,
}

impl View for Graph {
    type V = Seq<NodeView>;

    closed spec fn view(&self) -> Seq<NodeView> {
        Seq::new(self.nodes@.len(), |i: int| self.nodes@[i]@)
    }
}

impl Graph {
    /// The graph is acyclic and every operator fits its operands.
    pub open spec fn wf(&self) -> bool {
        well_formed(self@)
    }

    /// The empty graph.
    pub fn new() -> (g: Graph)
        ensures
            g@ == Seq::<NodeView>::empty(),
            g.wf(),
    {
        let g = Graph { nodes: Vec::new() };
        assert(g@ =~= Seq::<NodeView>::empty());
        g
    }

    /// Number of nodes.
    pub fn len(&self) -> (n: usize)
        ensures
            n == self@.len(),
    {
        self.nodes.len()
    }

    /// The node `id`.
    pub fn get(&self, id: TensorId) -> (node: &Node)
        requires
            id < self@.len(),
        ensures
            node@ == self@[id as int],
    {
        &self.nodes[id]
    }

    /// Adds a leaf of the given shape and returns its id.
    pub fn allocate(&mut self, shape: Vec<usize>) -> (id: TensorId)
        requires
            old(self).wf(),
        ensures
            final(self).wf(),
            id == old(self)@.len(),
            final(self)@ == old(self)@.push(leaf(shape@)),
    {
        let id: usize = self.nodes.len();
        let ghost before = self@;
        self.nodes.push(Node { op: Op::Leaf, inputs: Vec::new(), shape });
        proof {
            assert(self@ =~= before.push(leaf(shape@)));
            lemma_push_keeps_order(before, leaf(shape@));
        }
        id
    }

    /// Whether every operand names a node.
    fn all_below(&self, inputs: &Vec<TensorId>) -> (r: bool)
        ensures
            r == inputs_below(inputs@, self@.len() as int),
    {
        let n: usize = self.nodes.len();
        let mut k: usize = 0;
        while k < inputs.len()
            invariant
                k <= inputs@.len(),
                n == self@.len(),
                forall|j: int| 0 <= j < k ==> inputs@[j] < n,
            decreases inputs@.len() - k,
        {
            if inputs[k] >= n {
                return false;
            }
            k += 1;
        }
        true
    }

    /// Shape of the concatenation of the operands along the last axis.
    fn infer_cat(&self, inputs: &Vec<TensorId>) -> (r: Result<Vec<usize>, TensorError>)
        requires
            inputs_below(inputs@, self@.len() as int),
        ensures
            match r {
                Ok(shape) => infer(Op::Cat, input_shapes(self@, inputs@)) == Ok::<
                    Seq<usize>,
                    TensorError,
                >(shape@),
                Err(e) => infer(Op::Cat, input_shapes(self@, inputs@)) == Err::<
                    Seq<usize>,
                    TensorError,
                >(e),
            },
    {
        let ghost ins = input_shapes(self@, inputs@);
        if inputs.len() == 0 {
            return Err(TensorError::UnexpectedShape);
        }
        let first: &Vec<usize> = &self.nodes[inputs[0]].shape;
        assert(first@ == ins[0]);
        if first.len() != 2 {
            return Err(TensorError::UnexpectedShape);
        }
        let rows: usize = first[0];
        let mut k: usize = 0;
        while k < inputs.len()
            invariant
                k <= inputs@.len(),
                inputs_below(inputs@, self@.len() as int),
                ins == input_shapes(self@, inputs@),
                ins.len() >= 1,
                ins[0].len() == 2,
                rows == ins[0][0],
                forall|j: int| 0 <= j < k ==> (#[trigger] ins[j]).len() == 2 && ins[j][0] == rows,
            decreases inputs@.len() - k,
        {
            let s: &Vec<usize> = &self.nodes[inputs[k]].shape;
            assert(s@ == ins[k as int]);
            if s.len() != 2 || s[0] != rows {
                return Err(TensorError::UnexpectedShape);
            }
            k += 1;
        }
        assert(rows_agree(ins));
        let mut cols: usize = 0;
        let mut k: usize = 0;
        assert(ins.take(0) =~= Seq::<Seq<usize>>::empty());
        while k < inputs.len()
            invariant
                k <= inputs@.len(),
                inputs_below(inputs@, self@.len() as int),
                ins == input_shapes(self@, inputs@),
                rows_agree(ins),
                cols == cols_sum(ins.take(k as int)),
            decreases inputs@.len() - k,
        {
            let s: &Vec<usize> = &self.nodes[inputs[k]].shape;
            assert(s@ == ins[k as int]);
            proof {
                lemma_cols_prefix(ins, k + 1);
                assert(ins.take(k + 1).drop_last() =~= ins.take(k as int));
            }
            match cols.checked_add(s[1]) {
                Some(next) => {
                    cols = next;
                },
                None => {
                    return Err(TensorError::TooLarge);
                },
            }
            k += 1;
        }
        assert(ins.take(ins.len() as int) =~= ins);
        let shape: Vec<usize> = vec![rows, cols];
        assert(shape@ =~= seq![ins[0][0], cols_sum(ins) as usize]);
        Ok(shape)
    }

    /// Shape that `op` gives on the operands, or why it refuses them.
    fn infer_shape(&self, op: Op, inputs: &Vec<TensorId>) -> (r: Result<Vec<usize>, TensorError>)
        requires
            inputs_below(inputs@, self@.len() as int),
        ensures
            match r {
                Ok(shape) => infer(op, input_shapes(self@, inputs@)) == Ok::<
                    Seq<usize>,
                    TensorError,
                >(shape@),
                Err(e) => infer(op, input_shapes(self@, inputs@)) == Err::<Seq<usize>, TensorError>(
                    e,
                ),
            },
    {
        let ghost ins = input_shapes(self@, inputs@);
        match op {
            Op::Leaf => Err(TensorError::UnexpectedShape),
            Op::Add => {
                if inputs.len() != 2 {
                    return Err(TensorError::UnexpectedShape);
                }
                let a: &Vec<usize> = &self.nodes[inputs[0]].shape;
                let b: &Vec<usize> = &self.nodes[inputs[1]].shape;
                assert(a@ == ins[0] && b@ == ins[1]);
                if ends_with(a, b) {
                    Ok(copy_of(a))
                } else {
                    Err(TensorError::UnexpectedShape)
                }
            },
            Op::LayerNorm => {
                if inputs.len() != 3 {
                    return Err(TensorError::UnexpectedShape);
                }
                let x: &Vec<usize> = &self.nodes[inputs[0]].shape;
                let c: &Vec<usize> = &self.nodes[inputs[1]].shape;
                let b: &Vec<usize> = &self.nodes[inputs[2]].shape;
                assert(x@ == ins[0] && c@ == ins[1] && b@ == ins[2]);
                if x.len() == 0 {
                    return Err(TensorError::UnexpectedShape);
                }
                let width: usize = x[x.len() - 1];
                if c.len() == 1 && c[0] == width && b.len() == 1 && b[0] == width {
                    assert(c@ =~= seq![x@.last()]);
                    assert(b@ =~= seq![x@.last()]);
                    Ok(copy_of(x))
                } else {
                    assert(seq![x@.last()].len() == 1 && seq![x@.last()][0] == width);
                    Err(TensorError::UnexpectedShape)
                }
            },
            Op::MatMul => {
                if inputs.len() != 2 {
                    return Err(TensorError::UnexpectedShape);
                }
                let a: &Vec<usize> = &self.nodes[inputs[0]].shape;
                let b: &Vec<usize> = &self.nodes[inputs[1]].shape;
                assert(a@ == ins[0] && b@ == ins[1]);
                if a.len() == 2 && b.len() == 2 && a[1] == b[0] {
                    let shape: Vec<usize> = vec![a[0], b[1]];
                    assert(shape@ =~= seq![ins[0][0], ins[1][1]]);
                    Ok(shape)
                } else {
                    Err(TensorError::UnexpectedShape)
                }
            },
            Op::Transpose => {
                if inputs.len() != 1 {
                    return Err(TensorError::UnexpectedShape);
                }
                let x: &Vec<usize> = &self.nodes[inputs[0]].shape;
                assert(x@ == ins[0]);
                if x.len() == 2 {
                    let shape: Vec<usize> = vec![x[1], x[0]];
                    assert(shape@ =~= seq![ins[0][1], ins[0][0]]);
                    Ok(shape)
                } else {
                    Err(TensorError::UnexpectedShape)
                }
            },
            Op::Coeff(_) | Op::Dropout | Op::Relu => {
                if inputs.len() != 1 {
                    return Err(TensorError::UnexpectedShape);
                }
                let x: &Vec<usize> = &self.nodes[inputs[0]].shape;
                assert(x@ == ins[0]);
                Ok(copy_of(x))
            },
            Op::Mask(side) => {
                if inputs.len() != 1 {
                    return Err(TensorError::UnexpectedShape);
                }
                let x: &Vec<usize> = &self.nodes[inputs[0]].shape;
                assert(x@ == ins[0]);
                if x.len() == 2 && x[0] == side && x[1] == side {
                    assert(x@ =~= seq![side, side]);
                    Ok(copy_of(x))
                } else {
                    assert(seq![side, side].len() == 2 && seq![side, side][0] == side && seq![
                        side,
                        side,
                    ][1] == side);
                    Err(TensorError::UnexpectedShape)
                }
            },
            Op::Softmax => {
                if inputs.len() != 1 {
                    return Err(TensorError::UnexpectedShape);
                }
                let x: &Vec<usize> = &self.nodes[inputs[0]].shape;
                assert(x@ == ins[0]);
                if x.len() >= 1 {
                    Ok(copy_of(x))
                } else {
                    Err(TensorError::UnexpectedShape)
                }
            },
            Op::Cat => self.infer_cat(inputs),
        }
    }

    /// Applies `op` to the nodes `inputs` and returns the id of the new
    /// node. On a refusal the graph is left as it was.
    pub fn call(&mut self, op: Op, inputs: Vec<TensorId>) -> (r: Result<TensorId, TensorError>)
        requires
            old(self).wf(),
        ensures
            final(self).wf(),
            match r {
                Ok(id) => {
                    &&& id == old(self)@.len()
                    &&& outcome(old(self)@, op, inputs@) is Ok
                    &&& final(self)@ == old(self)@.push(
                        NodeView {
                            op,
                            inputs: inputs@,
                            shape: outcome(old(self)@, op, inputs@)->Ok_0,
                        },
                    )
                },
                Err(e) => {
                    &&& outcome(old(self)@, op, inputs@) == Err::<Seq<usize>, TensorError>(e)
                    &&& final(self)@ == old(self)@
                },
            },
    {
        if !self.all_below(&inputs) {
            return Err(TensorError::InvalidIndex);
        }
        match self.infer_shape(op, &inputs) {
            Ok(shape) => {
                let id: usize = self.nodes.len();
                let ghost before = self@;
                let ghost added = NodeView { op, inputs: inputs@, shape: shape@ };
                self.nodes.push(Node { op, inputs, shape });
                proof {
                    assert(self@ =~= before.push(added));
                    assert(input_shapes(before.push(added), added.inputs) =~= input_shapes(
                        before,
                        added.inputs,
                    ));
                    lemma_push_keeps_order(before, added);
                }
                Ok(id)
            },
            Err(e) => Err(e),
        }
    }
}

} // verus!
