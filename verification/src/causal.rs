use crate::graph::{NodeView, Op};
use vstd::prelude::*;

verus! {

/// Whether node `i` of `g` respects causality for a context of `t`
/// positions: if it normalises rows into probabilities, what it reads is a
/// causal mask of side `t`, and if it is a mask, its side is `t`.
pub open spec fn node_causal(g: Seq<NodeView>, i: int, t: usize) -> bool {
    &&& g[i].op == Op::Softmax ==> {
        &&& g[i].inputs.len() == 1
        &&& g[i].inputs[0] < i
        &&& g[g[i].inputs[0] as int].op == Op::Mask(t)
    }
    &&& g[i].op is Mask ==> g[i].op == Op::Mask(t)
}

/// Whether every node of `g` respects causality for a context of `t`
/// positions: no attention weight is normalised before the positions to
/// come are masked out, and all masks are the same.
pub open spec fn causal(g: Seq<NodeView>, t: usize) -> bool {
    forall|i: int| 0 <= i < g.len() ==> node_causal(g, i, t)
}

/// Whether `ext` holds neither a row-wise normalisation nor a mask.
pub open spec fn quiet(ext: Seq<NodeView>) -> bool {
    forall|k: int|
        0 <= k < ext.len() ==> (#[trigger] ext[k]).op != Op::Softmax && !(ext[k].op is Mask)
}

/// Nodes that neither normalise nor mask leave a causal graph causal.
pub proof fn lemma_quiet_extension(g: Seq<NodeView>, ext: Seq<NodeView>, t: usize)
    requires
        causal(g, t),
        quiet(ext),
    ensures
        causal(g + ext, t),
{
    let h = g + ext;
    assert forall|i: int| 0 <= i < h.len() implies node_causal(h, i, t) by {
        if i < g.len() {
            assert(node_causal(g, i, t));
            assert(h[i] == g[i]);
            if g[i].op == Op::Softmax {
                assert(h[g[i].inputs[0] as int] == g[g[i].inputs[0] as int]);
            }
        } else {
            assert(h[i] == ext[i - g.len()]);
        }
    }
}

/// A causal graph stays causal when a block is appended whose only
/// normalisation, at offset `at`, reads the block's only mask, just before
/// it and of side `t`.
pub proof fn lemma_masked_extension(g: Seq<NodeView>, ext: Seq<NodeView>, t: usize, at: int)
    requires
        causal(g, t),
        1 <= at < ext.len(),
        ext[at].op == Op::Softmax,
        ext[at].inputs.len() == 1,
        ext[at].inputs[0] == g.len() + at - 1,
        ext[at - 1].op == Op::Mask(t),
        forall|k: int|
            0 <= k < ext.len() && k != at && k != at - 1 ==> (#[trigger] ext[k]).op != Op::Softmax
                && !(ext[k].op is Mask),
    ensures
        causal(g + ext, t),
{
    let h = g + ext;
    assert forall|i: int| 0 <= i < h.len() implies node_causal(h, i, t) by {
        if i < g.len() {
            assert(node_causal(g, i, t));
            assert(h[i] == g[i]);
            if g[i].op == Op::Softmax {
                assert(h[g[i].inputs[0] as int] == g[g[i].inputs[0] as int]);
            }
        } else {
            let k = i - g.len();
            assert(h[i] == ext[k]);
            if k == at {
                assert(h[g.len() + at - 1] == ext[at - 1]);
            }
        }
    }
}

} // verus!
