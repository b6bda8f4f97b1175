use crate::error::TensorError;
use crate::graph::{leaf, NodeView, Op};
use vstd::prelude::*;

verus! {

/// The sizes that fix a model's architecture.
#[derive(Debug, Clone, Copy, PartialEq, Eq, Structural)]
pub struct Hyperparameters {
    /// Number of distinct tokens.
    pub vocab_size: usize,
    /// Width of the feature vector of one token.
    pub embedding_degree: usize,
    /// Number of positions attended over at once.
    pub num_tokens: usize,
    /// Number of stacked blocks.
    pub num_layers: usize,
    /// Number of attention heads per block.
    pub num_heads: usize,
    /// Width of the key, query and value space of one head.
    pub head_size: usize,
    /// Number of additional square stages in the feed-forward part of a block.
    pub hiddens: usize,
}

/// Model of a node that applies `op` to one operand.
pub open spec fn app1(op: Op, x: int, shape: Seq<usize>) -> NodeView {
    NodeView { op, inputs: seq![x as usize], shape }
}

/// Model of a node that applies `op` to two operands.
pub open spec fn app2(op: Op, x: int, y: int, shape: Seq<usize>) -> NodeView {
    NodeView { op, inputs: seq![x as usize, y as usize], shape }
}

/// Model of a node that applies `op` to three operands.
pub open spec fn app3(op: Op, x: int, y: int, z: int, shape: Seq<usize>) -> NodeView {
    NodeView { op, inputs: seq![x as usize, y as usize, z as usize], shape }
}

/// Number of nodes of one attention head.
pub const HEAD_NODES: usize = 13;

/// Number of nodes of one additional feed-forward stage.
pub const HIDDEN_NODES: usize = 5;

impl Hyperparameters {
    /// Width of the feed-forward part: four times the embedding width.
    pub open spec fn wide(self) -> usize {
        (4 * self.embedding_degree) as usize
    }

    /// Width of the concatenated heads.
    pub open spec fn heads_width(self) -> usize {
        (self.num_heads * self.head_size) as usize
    }

    /// The nodes that precede the blocks: the token and the position table,
    /// the two input placeholders bound from them, and their sum.
    pub open spec fn prologue(self) -> Seq<NodeView> {
        let v = self.vocab_size;
        let t = self.num_tokens;
        let e = self.embedding_degree;
        seq![
            leaf(seq![v, e]),
            leaf(seq![t, e]),
            leaf(seq![t, e]),
            leaf(seq![t, e]),
            app2(Op::Add, 2, 3, seq![t, e]),
        ]
    }

    /// One attention head whose first node has id `b`, reading the
    /// normalised activation `x`: key, query and value weights and
    /// projections, the scaled and causally masked scores, their row-wise
    /// normalisation, dropout, and the weighted values.
    #[verifier::opaque]
    pub open spec fn head(self, b: int, x: int) -> Seq<NodeView> {
        let t = self.num_tokens;
        let e = self.embedding_degree;
        let s = self.head_size;
        seq![
            leaf(seq![e, s]),
            leaf(seq![e, s]),
            leaf(seq![e, s]),
            app2(Op::MatMul, x, b, seq![t, s]),
            app2(Op::MatMul, x, b + 1, seq![t, s]),
            app2(Op::MatMul, x, b + 2, seq![t, s]),
            app1(Op::Transpose, b + 4, seq![s, t]),
            app2(Op::MatMul, b + 3, b + 6, seq![t, t]),
            app1(Op::Coeff(s), b + 7, seq![t, t]),
            app1(Op::Mask(t), b + 8, seq![t, t]),
            app1(Op::Softmax, b + 9, seq![t, t]),
            app1(Op::Dropout, b + 10, seq![t, t]),
            app2(Op::MatMul, b + 11, b + 5, seq![t, s]),
        ]
    }

    /// The first `n` heads of a block, the first of them at id `b`.
    pub open spec fn heads(self, b: int, x: int, n: nat) -> Seq<NodeView>
        decreases n,
    {
        if n == 0 {
            Seq::empty()
        } else {
            self.heads(b, x, (n - 1) as nat) + self.head(b + HEAD_NODES * (n - 1), x)
        }
    }

    /// Ids of the results of `n` heads, the first head at id `b`.
    pub open spec fn head_outputs(b: int, n: nat) -> Seq<usize> {
        Seq::new(n, |k: int| (b + HEAD_NODES * k + 12) as usize)
    }

    /// One additional feed-forward stage at id `b`, reading the activation
    /// just before it: weight, bias, product, sum, rectifier.
    #[verifier::opaque]
    pub open spec fn hidden(self, b: int) -> Seq<NodeView> {
        let t = self.num_tokens;
        let w = self.wide();
        seq![
            leaf(seq![w, w]),
            leaf(seq![w]),
            app2(Op::MatMul, b - 1, b, seq![t, w]),
            app2(Op::Add, b + 2, b + 1, seq![t, w]),
            app1(Op::Relu, b + 3, seq![t, w]),
        ]
    }

    /// The first `n` additional feed-forward stages, the first at id `b`.
    pub open spec fn hidden_stages(self, b: int, n: nat) -> Seq<NodeView>
        decreases n,
    {
        if n == 0 {
            Seq::empty()
        } else {
            self.hidden_stages(b, (n - 1) as nat) + self.hidden(b + HIDDEN_NODES * (n - 1))
        }
    }

    /// What follows the heads of a block, from id `c` on; `x` is the block's
    /// normalised input and `b` the id of its first head. The heads are
    /// concatenated, projected back to the embedding width with a bias,
    /// dropped out, added to `x` and normalised; then comes the expansion of
    /// the feed-forward part with its rectifier.
    #[verifier::opaque]
    pub open spec fn mix(self, c: int, x: int, b: int) -> Seq<NodeView> {
        let t = self.num_tokens;
        let e = self.embedding_degree;
        let w = self.wide();
        let hs = self.heads_width();
        seq![
            NodeView {
                op: Op::Cat,
                inputs: Self::head_outputs(b, self.num_heads as nat),
                shape: seq![t, hs],
            },
            leaf(seq![hs, e]),
            leaf(seq![e]),
            app2(Op::MatMul, c, c + 1, seq![t, e]),
            app2(Op::Add, c + 3, c + 2, seq![t, e]),
            app1(Op::Dropout, c + 4, seq![t, e]),
            app2(Op::Add, x, c + 5, seq![t, e]),
            leaf(seq![e]),
            leaf(seq![e]),
            app3(Op::LayerNorm, c + 6, c + 7, c + 8, seq![t, e]),
            leaf(seq![e, w]),
            leaf(seq![w]),
            app2(Op::MatMul, c + 9, c + 10, seq![t, w]),
            app2(Op::Add, c + 12, c + 11, seq![t, w]),
            app1(Op::Relu, c + 13, seq![t, w]),
        ]
    }

    /// The end of a block, from id `d` on: the contraction back to the
    /// embedding width and the residual sum with the normalised attention
    /// result `r`.
    #[verifier::opaque]
    pub open spec fn contract(self, d: int, r: int) -> Seq<NodeView> {
        let t = self.num_tokens;
        let e = self.embedding_degree;
        let w = self.wide();
        seq![
            leaf(seq![w, e]),
            leaf(seq![e]),
            app2(Op::MatMul, d - 1, d, seq![t, e]),
            app2(Op::Add, d + 2, d + 1, seq![t, e]),
            app2(Op::Add, r, d + 3, seq![t, e]),
        ]
    }

    /// Number of nodes of one block.
    pub open spec fn layer_len(self) -> int {
        23 + HEAD_NODES * self.num_heads + HIDDEN_NODES * self.hiddens
    }

    /// One block at id `b`, reading the running activation just before it.
    pub open spec fn layer(self, b: int) -> Seq<NodeView> {
        let t = self.num_tokens;
        let e = self.embedding_degree;
        let c = b + 3 + HEAD_NODES * self.num_heads;
        let d = c + 15 + HIDDEN_NODES * self.hiddens;
        seq![leaf(seq![e]), leaf(seq![e]), app3(Op::LayerNorm, b - 1, b, b + 1, seq![t, e])]
            + self.heads(b + 3, b + 2, self.num_heads as nat) + self.mix(c, b + 2, b + 3)
            + self.hidden_stages(c + 15, self.hiddens as nat) + self.contract(d, c + 9)
    }

    /// The first `n` blocks; the first follows the prologue.
    pub open spec fn layers(self, n: nat) -> Seq<NodeView>
        decreases n,
    {
        if n == 0 {
            Seq::empty()
        } else {
            let before = self.layers((n - 1) as nat);
            before + self.layer(5 + before.len() as int)
        }
    }

    /// What follows the blocks, from id `b` on: a last normalisation and the
    /// projection onto the vocabulary with its bias. The last node holds the
    /// logits.
    pub open spec fn epilogue(self, b: int) -> Seq<NodeView> {
        let v = self.vocab_size;
        let t = self.num_tokens;
        let e = self.embedding_degree;
        seq![
            leaf(seq![e]),
            leaf(seq![e]),
            app3(Op::LayerNorm, b - 1, b, b + 1, seq![t, e]),
            leaf(seq![e, v]),
            leaf(seq![v]),
            app2(Op::MatMul, b + 2, b + 3, seq![t, v]),
            app2(Op::Add, b + 5, b + 4, seq![t, v]),
        ]
    }

    /// The whole graph of the model, node by node.
    pub open spec fn topology(self) -> Seq<NodeView> {
        let body = self.prologue() + self.layers(self.num_layers as nat);
        body + self.epilogue(body.len() as int)
    }

    /// Ids of the learnable tensors of `n` heads, the first head at id `b`.
    pub open spec fn head_params(b: int, n: nat) -> Seq<usize>
        decreases n,
    {
        if n == 0 {
            Seq::empty()
        } else {
            let h = b + HEAD_NODES * (n - 1);
            Self::head_params(b, (n - 1) as nat) + seq![
                h as usize,
                (h + 1) as usize,
                (h + 2) as usize,
            ]
        }
    }

    /// Ids of the learnable tensors of `n` additional feed-forward stages,
    /// the first at id `b`.
    pub open spec fn hidden_params(b: int, n: nat) -> Seq<usize>
        decreases n,
    {
        if n == 0 {
            Seq::empty()
        } else {
            let h = b + HIDDEN_NODES * (n - 1);
            Self::hidden_params(b, (n - 1) as nat) + seq![h as usize, (h + 1) as usize]
        }
    }

    /// Ids of the six learnable tensors of the middle of a block that starts
    /// at id `c`: the projection with its bias, the scale and bias of the
    /// second normalisation, and the expansion with its bias.
    pub open spec fn mix_params(c: int) -> Seq<usize> {
        seq![
            (c + 1) as usize,
            (c + 2) as usize,
            (c + 7) as usize,
            (c + 8) as usize,
            (c + 10) as usize,
            (c + 11) as usize,
        ]
    }

    /// Ids of the learnable tensors of the block at id `b`, in the order of
    /// their construction, which is the order of their ids: the first
    /// normalisation, the heads, the middle, the additional stages, and the
    /// contraction.
    pub open spec fn layer_params(self, b: int) -> Seq<usize> {
        let c = b + 3 + HEAD_NODES * self.num_heads;
        let d = c + 15 + HIDDEN_NODES * self.hiddens;
        seq![b as usize, (b + 1) as usize] + Self::head_params(b + 3, self.num_heads as nat)
            + Self::mix_params(c) + Self::hidden_params(c + 15, self.hiddens as nat) + seq![
            d as usize,
            (d + 1) as usize,
        ]
    }

    /// Ids of the learnable tensors of the first `n` blocks.
    pub open spec fn layers_params(self, n: nat) -> Seq<usize>
        decreases n,
    {
        if n == 0 {
            Seq::empty()
        } else {
            self.layers_params((n - 1) as nat) + self.layer_params(
                5 + self.layers((n - 1) as nat).len() as int,
            )
        }
    }

    /// Ids of all learnable tensors, in the order of registration.
    pub open spec fn param_ids(self) -> Seq<usize> {
        let b = 5 + self.layers(self.num_layers as nat).len();
        seq![0usize, 1usize] + self.layers_params(self.num_layers as nat) + seq![
            b as usize,
            (b + 1) as usize,
            (b + 3) as usize,
            (b + 4) as usize,
        ]
    }

    /// Shapes of the learnable tensors of `n` heads.
    pub open spec fn head_param_shapes(self, n: nat) -> Seq<Seq<usize>>
        decreases n,
    {
        let e = self.embedding_degree;
        let s = self.head_size;
        if n == 0 {
            Seq::empty()
        } else {
            self.head_param_shapes((n - 1) as nat) + seq![seq![e, s], seq![e, s], seq![e, s]]
        }
    }

    /// Shapes of the learnable tensors of `n` additional feed-forward stages.
    pub open spec fn hidden_param_shapes(self, n: nat) -> Seq<Seq<usize>>
        decreases n,
    {
        let w = self.wide();
        if n == 0 {
            Seq::empty()
        } else {
            self.hidden_param_shapes((n - 1) as nat) + seq![seq![w, w], seq![w]]
        }
    }

    /// Shapes of the six learnable tensors of the middle of a block.
    pub open spec fn mix_param_shapes(self) -> Seq<Seq<usize>> {
        let e = self.embedding_degree;
        let w = self.wide();
        let hs = self.heads_width();
        seq![seq![hs, e], seq![e], seq![e], seq![e], seq![e, w], seq![w]]
    }

    /// Shapes of the learnable tensors of one block, in the order of their
    /// construction.
    pub open spec fn layer_param_shapes(self) -> Seq<Seq<usize>> {
        let e = self.embedding_degree;
        let w = self.wide();
        seq![seq![e], seq![e]] + self.head_param_shapes(self.num_heads as nat)
            + self.mix_param_shapes() + self.hidden_param_shapes(self.hiddens as nat) + seq![
            seq![w, e],
            seq![e],
        ]
    }

    /// Shapes of the learnable tensors of `n` blocks.
    pub open spec fn layers_param_shapes(self, n: nat) -> Seq<Seq<usize>>
        decreases n,
    {
        if n == 0 {
            Seq::empty()
        } else {
            self.layers_param_shapes((n - 1) as nat) + self.layer_param_shapes()
        }
    }

    /// Shapes of all learnable tensors, in the order of registration.
    pub open spec fn param_shapes(self) -> Seq<Seq<usize>> {
        let v = self.vocab_size;
        let t = self.num_tokens;
        let e = self.embedding_degree;
        seq![seq![v, e], seq![t, e]] + self.layers_param_shapes(self.num_layers as nat) + seq![
            seq![e],
            seq![e],
            seq![e, v],
            seq![v],
        ]
    }

    /// Number of learnable tensors.
    pub open spec fn param_tensors(self) -> int {
        6 + self.num_layers * (10 + 3 * self.num_heads + 2 * self.hiddens)
    }

    /// Number of learnable scalars of one block.
    pub open spec fn layer_param_count(self) -> int {
        let e = self.embedding_degree as int;
        let hs = self.num_heads * self.head_size;
        4 * (hs * e) + self.hiddens * (16 * (e * e) + 4 * e) + 8 * (e * e) + 10 * e
    }

    /// Number of learnable scalars of the model.
    pub open spec fn param_count(self) -> int {
        let v = self.vocab_size as int;
        let t = self.num_tokens as int;
        let e = self.embedding_degree as int;
        2 * (v * e) + t * e + self.num_layers * self.layer_param_count() + 2 * e + v
    }

    /// Whether the widths of a block fit the machine's integers; a model
    /// without blocks has no such widths.
    pub open spec fn widths_fit(self) -> bool {
        self.num_layers > 0 ==> 4 * self.embedding_degree <= usize::MAX && self.num_heads
            * self.head_size <= usize::MAX
    }

    /// Whether the machine can count the model: its block widths and the
    /// number of its learnable scalars fit.
    pub open spec fn fits(self) -> bool {
        self.widths_fit() && self.param_count() <= usize::MAX
    }

    /// Whether the sizes describe a graph: a block needs at least one head,
    /// because nothing can be concatenated from no head.
    pub open spec fn buildable(self) -> bool {
        self.num_layers > 0 ==> self.num_heads > 0
    }

    /// Whether a model of these sizes can be built, and if not, why: block
    /// widths beyond the machine's integers come first, then a block without
    /// heads, then a parameter count beyond the machine's integers.
    pub open spec fn verdict(self) -> Result<(), TensorError> {
        if !self.widths_fit() {
            Err(TensorError::TooLarge)
        } else if !self.buildable() {
            Err(TensorError::UnexpectedShape)
        } else if self.param_count() > usize::MAX {
            Err(TensorError::TooLarge)
        } else {
            Ok(())
        }
    }
}

} // verus!
