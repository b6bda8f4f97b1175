use crate::graph::NodeView;
use vstd::prelude::*;

verus! {

/// Whether the value of node `a` enters the computation of node `b`: `a` is
/// `b` itself, or enters the computation of one of the operands of `b`.
pub open spec fn feeds(g: Seq<NodeView>, a: int, b: int) -> bool
    decreases b,
{
    a == b || (0 <= b < g.len() && exists|k: int|
        0 <= k < g[b].inputs.len() && (#[trigger] g[b].inputs[k]) < b && feeds(
            g,
            a,
            g[b].inputs[k] as int,
        ))
}

/// What enters an operand of a node enters the node.
pub proof fn lemma_feeds_operand(g: Seq<NodeView>, a: int, b: int, k: int)
    requires
        0 <= b < g.len(),
        0 <= k < g[b].inputs.len(),
        g[b].inputs[k] < b,
        feeds(g, a, g[b].inputs[k] as int),
    ensures
        feeds(g, a, b),
{
}

/// What enters a node enters everything that the node enters.
pub proof fn lemma_feeds_on(g: Seq<NodeView>, a: int, b: int, c: int)
    requires
        feeds(g, a, b),
        feeds(g, b, c),
    ensures
        feeds(g, a, c),
    decreases c,
{
    if b != c {
        let k = choose|k: int|
            0 <= k < g[c].inputs.len() && g[c].inputs[k] < c && feeds(g, b, g[c].inputs[k] as int);
        lemma_feeds_on(g, a, b, g[c].inputs[k] as int);
        lemma_feeds_operand(g, a, c, k);
    }
}

/// Operand `k` of the node `via` enters whatever `via` enters.
pub proof fn lemma_feeds_via(g: Seq<NodeView>, via: int, k: int, sink: int)
    requires
        0 <= via < g.len(),
        0 <= k < g[via].inputs.len(),
        g[via].inputs[k] < via,
        feeds(g, via, sink),
    ensures
        feeds(g, g[via].inputs[k] as int, sink),
{
    let a = g[via].inputs[k] as int;
    lemma_feeds_operand(g, a, via, k);
    lemma_feeds_on(g, a, via, sink);
}

/// Appending nodes does not cut what was connected.
pub proof fn lemma_feeds_extend(g: Seq<NodeView>, ext: Seq<NodeView>, a: int, b: int)
    requires
        feeds(g, a, b),
        b < g.len(),
    ensures
        feeds(g + ext, a, b),
    decreases b,
{
    if a != b {
        let k = choose|k: int|
            0 <= k < g[b].inputs.len() && g[b].inputs[k] < b && feeds(g, a, g[b].inputs[k] as int);
        lemma_feeds_extend(g, ext, a, g[b].inputs[k] as int);
        assert((g + ext)[b] == g[b]);
        lemma_feeds_operand(g + ext, a, b, k);
    }
}

/// What was connected to the old end of a graph is connected to whatever
/// that end enters once nodes are appended.
pub proof fn lemma_feeds_carry(g: Seq<NodeView>, ext: Seq<NodeView>, a: int, end: int, sink: int)
    requires
        feeds(g, a, end),
        end < g.len(),
        feeds(g + ext, end, sink),
    ensures
        feeds(g + ext, a, sink),
{
    lemma_feeds_extend(g, ext, a, end);
    lemma_feeds_on(g + ext, a, end, sink);
}

/// Whether the nodes `ids[from]`, `ids[from + 1]`, ... all enter `sink`.
pub open spec fn all_feed(g: Seq<NodeView>, ids: Seq<usize>, from: int, sink: int) -> bool {
    forall|k: int| from <= k < ids.len() ==> feeds(g, #[trigger] ids[k] as int, sink)
}

/// Whether the nodes `ids[from]`, `ids[from + 1]`, ... enter the results
/// `outs` by threes: the first three the first result, the next three the
/// second, and so on.
pub open spec fn threes_feed(
    g: Seq<NodeView>,
    ids: Seq<usize>,
    from: int,
    outs: Seq<usize>,
) -> bool {
    forall|k: int|
        0 <= k < 3 * outs.len() ==> feeds(g, #[trigger] ids[from + k] as int, outs[k / 3] as int)
}

/// Whether the graph `g` of a model hangs together: the two input
/// placeholders, nodes 2 and 3, enter the last node, which is the output,
/// and so does every registered tensor behind the first two. The first two
/// are the embedding tables, which are bound into the placeholders by
/// copying and so are connected to nothing.
pub open spec fn connected(g: Seq<NodeView>, params: Seq<usize>) -> bool {
    &&& feeds(g, 2, g.len() - 1)
    &&& feeds(g, 3, g.len() - 1)
    &&& all_feed(g, params, 2, g.len() - 1)
}

} // verus!
