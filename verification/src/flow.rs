use crate::arch::Hyperparameters;
use crate::graph::NodeView;
use crate::reach::{feeds, lemma_feeds_via};
use vstd::prelude::*;

verus! {

/// In an attention head, the activation it reads and its three weight
/// matrices all enter its result.
pub proof fn lemma_head_flow(hp: Hyperparameters, g: Seq<NodeView>, x: int)
    requires
        0 <= x < g.len(),
        g.len() + 12 <= usize::MAX,
    ensures
        feeds(g + hp.head(g.len() as int, x), x, g.len() as int + 12),
        feeds(g + hp.head(g.len() as int, x), g.len() as int, g.len() as int + 12),
        feeds(g + hp.head(g.len() as int, x), g.len() as int + 1, g.len() as int + 12),
        feeds(g + hp.head(g.len() as int, x), g.len() as int + 2, g.len() as int + 12),
{
    reveal(Hyperparameters::head);
    let b = g.len() as int;
    let ext = hp.head(b, x);
    let h = g + ext;
    let r = b + 12;
    assert forall|k: int| 0 <= k < 13 implies h[b + k] == ext[k] by {}
    assert(h[b + 12] == ext[12]);
    lemma_feeds_via(h, r, 0, r);
    lemma_feeds_via(h, r, 1, r);
    assert(h[b + 11] == ext[11]);
    lemma_feeds_via(h, b + 11, 0, r);
    assert(h[b + 10] == ext[10]);
    lemma_feeds_via(h, b + 10, 0, r);
    assert(h[b + 9] == ext[9]);
    lemma_feeds_via(h, b + 9, 0, r);
    assert(h[b + 8] == ext[8]);
    lemma_feeds_via(h, b + 8, 0, r);
    assert(h[b + 7] == ext[7]);
    lemma_feeds_via(h, b + 7, 0, r);
    lemma_feeds_via(h, b + 7, 1, r);
    assert(h[b + 6] == ext[6]);
    lemma_feeds_via(h, b + 6, 0, r);
    assert(h[b + 5] == ext[5]);
    lemma_feeds_via(h, b + 5, 1, r);
    assert(h[b + 4] == ext[4]);
    lemma_feeds_via(h, b + 4, 1, r);
    assert(h[b + 3] == ext[3]);
    lemma_feeds_via(h, b + 3, 0, r);
    lemma_feeds_via(h, b + 3, 1, r);
}

/// In an additional feed-forward stage, the activation before it and its
/// weight and bias all enter its result.
pub proof fn lemma_hidden_flow(hp: Hyperparameters, g: Seq<NodeView>)
    requires
        g.len() >= 1,
        g.len() + 4 <= usize::MAX,
    ensures
        feeds(g + hp.hidden(g.len() as int), g.len() as int - 1, g.len() as int + 4),
        feeds(g + hp.hidden(g.len() as int), g.len() as int, g.len() as int + 4),
        feeds(g + hp.hidden(g.len() as int), g.len() as int + 1, g.len() as int + 4),
{
    reveal(Hyperparameters::hidden);
    let b = g.len() as int;
    let ext = hp.hidden(b);
    let h = g + ext;
    let r = b + 4;
    assert(h[b + 4] == ext[4]);
    lemma_feeds_via(h, r, 0, r);
    assert(h[b + 3] == ext[3]);
    lemma_feeds_via(h, b + 3, 0, r);
    lemma_feeds_via(h, b + 3, 1, r);
    assert(h[b + 2] == ext[2]);
    lemma_feeds_via(h, b + 2, 0, r);
    lemma_feeds_via(h, b + 2, 1, r);
}

/// In the middle of a block, the results of all heads, the block's
/// normalised input and the six tensors allocated there all enter the
/// expanded activation that the middle ends with, and so does the
/// normalised attention result.
pub proof fn lemma_mix_flow(hp: Hyperparameters, g: Seq<NodeView>, x: int, b: int)
    requires
        0 <= x < g.len(),
        g.len() + 14 <= usize::MAX,
        forall|j: int|
            0 <= j < hp.num_heads ==> #[trigger] Hyperparameters::head_outputs(
                b,
                hp.num_heads as nat,
            )[j] < g.len(),
    ensures
        forall|j: int|
            0 <= j < hp.num_heads ==> feeds(
                g + hp.mix(g.len() as int, x, b),
                #[trigger] Hyperparameters::head_outputs(b, hp.num_heads as nat)[j] as int,
                g.len() as int + 14,
            ),
        feeds(g + hp.mix(g.len() as int, x, b), x, g.len() as int + 14),
        feeds(g + hp.mix(g.len() as int, x, b), g.len() as int + 1, g.len() as int + 14),
        feeds(g + hp.mix(g.len() as int, x, b), g.len() as int + 2, g.len() as int + 14),
        feeds(g + hp.mix(g.len() as int, x, b), g.len() as int + 7, g.len() as int + 14),
        feeds(g + hp.mix(g.len() as int, x, b), g.len() as int + 8, g.len() as int + 14),
        feeds(g + hp.mix(g.len() as int, x, b), g.len() as int + 9, g.len() as int + 14),
        feeds(g + hp.mix(g.len() as int, x, b), g.len() as int + 10, g.len() as int + 14),
        feeds(g + hp.mix(g.len() as int, x, b), g.len() as int + 11, g.len() as int + 14),
{
    reveal(Hyperparameters::mix);
    let c = g.len() as int;
    let ext = hp.mix(c, x, b);
    let h = g + ext;
    let r = c + 14;
    assert(h[c + 14] == ext[14]);
    lemma_feeds_via(h, r, 0, r);
    assert(h[c + 13] == ext[13]);
    lemma_feeds_via(h, c + 13, 0, r);
    lemma_feeds_via(h, c + 13, 1, r);
    assert(h[c + 12] == ext[12]);
    lemma_feeds_via(h, c + 12, 0, r);
    lemma_feeds_via(h, c + 12, 1, r);
    assert(h[c + 9] == ext[9]);
    lemma_feeds_via(h, c + 9, 0, r);
    lemma_feeds_via(h, c + 9, 1, r);
    lemma_feeds_via(h, c + 9, 2, r);
    assert(h[c + 6] == ext[6]);
    lemma_feeds_via(h, c + 6, 0, r);
    lemma_feeds_via(h, c + 6, 1, r);
    assert(h[c + 5] == ext[5]);
    lemma_feeds_via(h, c + 5, 0, r);
    assert(h[c + 4] == ext[4]);
    lemma_feeds_via(h, c + 4, 0, r);
    lemma_feeds_via(h, c + 4, 1, r);
    assert(h[c + 3] == ext[3]);
    lemma_feeds_via(h, c + 3, 0, r);
    lemma_feeds_via(h, c + 3, 1, r);
    assert(h[c] == ext[0]);
    let outs = Hyperparameters::head_outputs(b, hp.num_heads as nat);
    assert forall|j: int| 0 <= j < hp.num_heads implies feeds(h, #[trigger] outs[j] as int, r) by {
        lemma_feeds_via(h, c, j, r);
    }
}

/// At the end of a block, the activation before it, the normalised
/// attention result `res` and the contraction's weight and bias all enter
/// the block's result.
pub proof fn lemma_contract_flow(hp: Hyperparameters, g: Seq<NodeView>, res: int)
    requires
        g.len() >= 1,
        0 <= res < g.len(),
        g.len() + 4 <= usize::MAX,
    ensures
        feeds(g + hp.contract(g.len() as int, res), g.len() as int - 1, g.len() as int + 4),
        feeds(g + hp.contract(g.len() as int, res), res, g.len() as int + 4),
        feeds(g + hp.contract(g.len() as int, res), g.len() as int, g.len() as int + 4),
        feeds(g + hp.contract(g.len() as int, res), g.len() as int + 1, g.len() as int + 4),
{
    reveal(Hyperparameters::contract);
    let d = g.len() as int;
    let ext = hp.contract(d, res);
    let h = g + ext;
    let r = d + 4;
    assert(h[d + 4] == ext[4]);
    lemma_feeds_via(h, r, 0, r);
    lemma_feeds_via(h, r, 1, r);
    assert(h[d + 3] == ext[3]);
    lemma_feeds_via(h, d + 3, 0, r);
    lemma_feeds_via(h, d + 3, 1, r);
    assert(h[d + 2] == ext[2]);
    lemma_feeds_via(h, d + 2, 0, r);
    lemma_feeds_via(h, d + 2, 1, r);
}

} // verus!
