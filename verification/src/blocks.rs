use crate::arch::{app2, app3, Hyperparameters, HEAD_NODES, HIDDEN_NODES};
use crate::causal::{causal, lemma_masked_extension, lemma_quiet_extension};
use crate::flow::{lemma_contract_flow, lemma_head_flow, lemma_hidden_flow, lemma_mix_flow};
use crate::error::TensorError;
use crate::graph::{
    ascending, input_shapes, inputs_below, leaf, lemma_ascending_append, Graph, NodeView, Op,
    TensorId,
};
use crate::reach::{
    all_feed, feeds, lemma_feeds_carry, lemma_feeds_extend, lemma_feeds_on, lemma_feeds_via,
    threes_feed,
};
use crate::wiring::{cat, layer_norm, matmul, matrix, sum, transpose, unary, vector};
use vstd::prelude::*;

verus! {

/// Nodes appended to a graph leave the shapes of registered tensors alone.
pub proof fn lemma_shapes_extend(g: Seq<NodeView>, ext: Seq<NodeView>, ids: Seq<usize>)
    requires
        inputs_below(ids, g.len() as int),
    ensures
        inputs_below(ids, (g + ext).len() as int),
        input_shapes(g + ext, ids) == input_shapes(g, ids),
{
    assert(input_shapes(g + ext, ids) =~= input_shapes(g, ids));
}

/// Concatenation may be regrouped: five parts behind a first.
pub proof fn lemma_concat5<A>(p: Seq<A>, a: Seq<A>, b: Seq<A>, c: Seq<A>, d: Seq<A>, e: Seq<A>)
    ensures
        ((((p + a) + b) + c) + d) + e == p + ((((a + b) + c) + d) + e),
{
    assert(((((p + a) + b) + c) + d) + e =~= p + ((((a + b) + c) + d) + e));
}

/// Whether `outs` names nodes of `g` that have the shape of a head's result.
pub open spec fn results_ready(hp: &Hyperparameters, g: Seq<NodeView>, outs: Seq<usize>) -> bool {
    forall|k: int|
        0 <= k < outs.len() ==> (#[trigger] outs[k]) < g.len() && g[outs[k] as int].shape == seq![
            hp.num_tokens,
            hp.head_size,
        ]
}

/// Adds one attention head that reads the normalised activation `x`, and
/// registers its three weight matrices. Returns the id of the head's result.
pub(crate) fn build_head(
    hp: &Hyperparameters,
    g: &mut Graph,
    params: &mut Vec<TensorId>,
    x: TensorId,
) -> (r: Result<TensorId, TensorError>)
    requires
        old(g).wf(),
        causal(old(g)@, hp.num_tokens),
        x < old(g)@.len(),
        old(g)@[x as int].shape == seq![hp.num_tokens, hp.embedding_degree],
        inputs_below(old(params)@, old(g)@.len() as int),
        ascending(old(params)@),
    ensures
        final(g).wf(),
        causal(final(g)@, hp.num_tokens),
        r is Ok,
        r->Ok_0 == old(g)@.len() + 12,
        final(g)@ == old(g)@ + hp.head(old(g)@.len() as int, x as int),
        final(g)@.len() == old(g)@.len() + HEAD_NODES,
        final(g)@.last().shape == seq![hp.num_tokens, hp.head_size],
        feeds(final(g)@, x as int, old(g)@.len() as int + 12),
        feeds(final(g)@, old(g)@.len() as int, old(g)@.len() as int + 12),
        feeds(final(g)@, old(g)@.len() as int + 1, old(g)@.len() as int + 12),
        feeds(final(g)@, old(g)@.len() as int + 2, old(g)@.len() as int + 12),
        final(params)@ == old(params)@ + seq![
            old(g)@.len() as usize,
            (old(g)@.len() + 1) as usize,
            (old(g)@.len() + 2) as usize,
        ],
        inputs_below(final(params)@, final(g)@.len() as int),
        ascending(final(params)@),
        input_shapes(final(g)@, final(params)@) == input_shapes(old(g)@, old(params)@) + seq![
            seq![hp.embedding_degree, hp.head_size],
            seq![hp.embedding_degree, hp.head_size],
            seq![hp.embedding_degree, hp.head_size],
        ],
{
    let t: usize = hp.num_tokens;
    let e: usize = hp.embedding_degree;
    let s: usize = hp.head_size;
    let k_params = matrix(g, e, s);
    let q_params = matrix(g, e, s);
    let v_params = matrix(g, e, s);
    params.push(k_params);
    params.push(q_params);
    params.push(v_params);
    let k = matmul(g, x, k_params)?;
    let q = matmul(g, x, q_params)?;
    let v = matmul(g, x, v_params)?;
    let q_t = transpose(g, q)?;
    let kq = matmul(g, k, q_t)?;
    let kq_coeff = unary(g, Op::Coeff(s), kq)?;
    let masked_kq = unary(g, Op::Mask(t), kq_coeff)?;
    let soft_masked_kq = unary(g, Op::Softmax, masked_kq)?;
    let dropped_soft_masked_kq = unary(g, Op::Dropout, soft_masked_kq)?;
    let atten = matmul(g, dropped_soft_masked_kq, v)?;
    proof {
        reveal(Hyperparameters::head);
        let ext = hp.head(old(g)@.len() as int, x as int);
        assert(g@ =~= old(g)@ + ext);
        lemma_masked_extension(old(g)@, ext, hp.num_tokens, 10);
        lemma_head_flow(*hp, old(g)@, x as int);
        assert(params@ =~= old(params)@ + seq![k_params, q_params, v_params]);
        lemma_ascending_append(
            old(params)@,
            seq![k_params, q_params, v_params],
            old(g)@.len() as int,
        );
        assert(input_shapes(g@, params@) =~= input_shapes(old(g)@, old(params)@) + seq![
            seq![e, s],
            seq![e, s],
            seq![e, s],
        ]);
    }
    Ok(atten)
}

/// Adds the heads of one block, all reading the normalised activation `x`.
/// Returns the ids of their results, in order.
pub(crate) fn build_heads(
    hp: &Hyperparameters,
    g: &mut Graph,
    params: &mut Vec<TensorId>,
    x: TensorId,
) -> (r: Result<Vec<TensorId>, TensorError>)
    requires
        old(g).wf(),
        causal(old(g)@, hp.num_tokens),
        x < old(g)@.len(),
        old(g)@[x as int].shape == seq![hp.num_tokens, hp.embedding_degree],
        inputs_below(old(params)@, old(g)@.len() as int),
        ascending(old(params)@),
    ensures
        final(g).wf(),
        causal(final(g)@, hp.num_tokens),
        r is Ok,
        r->Ok_0@ == Hyperparameters::head_outputs(old(g)@.len() as int, hp.num_heads as nat),
        results_ready(hp, final(g)@, r->Ok_0@),
        final(g)@ == old(g)@ + hp.heads(old(g)@.len() as int, x as int, hp.num_heads as nat),
        final(g)@.len() == old(g)@.len() + HEAD_NODES * hp.num_heads,
        forall|j: int|
            0 <= j < hp.num_heads ==> feeds(final(g)@, x as int, #[trigger] r->Ok_0@[j] as int),
        threes_feed(final(g)@, final(params)@, old(params)@.len() as int, r->Ok_0@),
        final(params)@.len() == old(params)@.len() + 3 * hp.num_heads,
        final(params)@ == old(params)@ + Hyperparameters::head_params(
            old(g)@.len() as int,
            hp.num_heads as nat,
        ),
        inputs_below(final(params)@, final(g)@.len() as int),
        ascending(final(params)@),
        input_shapes(final(g)@, final(params)@) == input_shapes(old(g)@, old(params)@)
            + hp.head_param_shapes(hp.num_heads as nat),
{
    let ghost g0 = g@;
    let ghost ids0 = params@;
    let ghost b = g@.len() as int;
    let mut outs: Vec<TensorId> = Vec::new();
    let mut i: usize = 0;
    proof {
        assert(g@ =~= g0 + hp.heads(b, x as int, 0));
        assert(params@ =~= ids0 + Hyperparameters::head_params(b, 0));
        assert(outs@ =~= Hyperparameters::head_outputs(b, 0));
        assert(input_shapes(g@, params@) =~= input_shapes(g0, ids0) + hp.head_param_shapes(0));
    }
    while i < hp.num_heads
        invariant
            i <= hp.num_heads,
            g.wf(),
            b == g0.len(),
            x < g0.len(),
            g0[x as int].shape == seq![hp.num_tokens, hp.embedding_degree],
            g@ == g0 + hp.heads(b, x as int, i as nat),
            causal(g@, hp.num_tokens),
            g@.len() == b + HEAD_NODES * i,
            outs@ == Hyperparameters::head_outputs(b, i as nat),
            forall|k: int|
                0 <= k < i ==> (#[trigger] outs@[k]) < g@.len() && g@[outs@[k] as int].shape
                    == seq![hp.num_tokens, hp.head_size],
            params@ == ids0 + Hyperparameters::head_params(b, i as nat),
            params@.len() == ids0.len() + 3 * i,
            inputs_below(params@, g@.len() as int),
            ascending(params@),
            input_shapes(g@, params@) == input_shapes(g0, ids0) + hp.head_param_shapes(i as nat),
            forall|j: int| 0 <= j < i ==> feeds(g@, x as int, #[trigger] outs@[j] as int),
            threes_feed(g@, params@, ids0.len() as int, outs@),
        decreases hp.num_heads - i,
    {
        let ghost g1 = g@;
        let ghost ids1 = params@;
        let ghost outs1 = outs@;
        let out = build_head(hp, g, params, x)?;
        outs.push(out);
        proof {
            assert(g@ =~= g0 + hp.heads(b, x as int, (i + 1) as nat));
            assert(params@ =~= ids0 + Hyperparameters::head_params(b, (i + 1) as nat));
            assert(outs@ =~= Hyperparameters::head_outputs(b, (i + 1) as nat));
            assert(input_shapes(g@, params@) =~= input_shapes(g0, ids0) + hp.head_param_shapes(
                (i + 1) as nat,
            ));
            assert forall|k: int| 0 <= k < i + 1 implies (#[trigger] outs@[k]) < g@.len()
                && g@[outs@[k] as int].shape == seq![hp.num_tokens, hp.head_size] by {
                if k < i {
                    assert(outs@[k] == outs1[k]);
                    assert(g@[outs1[k] as int] == g1[outs1[k] as int]);
                } else {
                    assert(g@[out as int] == g@.last());
                }
            }
            let ext = hp.head(g1.len() as int, x as int);
            assert forall|j: int| 0 <= j < i + 1 implies feeds(
                g@,
                x as int,
                #[trigger] outs@[j] as int,
            ) by {
                if j < i {
                    assert(outs@[j] == outs1[j]);
                    lemma_feeds_extend(g1, ext, x as int, outs1[j] as int);
                }
            }
            assert forall|k: int| 0 <= k < 3 * outs@.len() implies feeds(
                g@,
                #[trigger] params@[ids0.len() + k] as int,
                outs@[k / 3] as int,
            ) by {
                if k < 3 * i {
                    assert(outs@[k / 3] == outs1[k / 3]);
                    assert(params@[ids0.len() + k] == ids1[ids0.len() + k]);
                    lemma_feeds_extend(
                        g1,
                        ext,
                        ids1[ids0.len() + k] as int,
                        outs1[k / 3] as int,
                    );
                } else {
                    assert(k / 3 == i as int);
                    assert(params@[ids0.len() + k] == g1.len() + (k - 3 * i));
                }
            }
        }
        i += 1;
    }
    Ok(outs)
}

/// Adds the additional feed-forward stages of one block behind the
/// activation that the graph ends with, and registers their weights and
/// biases.
pub(crate) fn build_hidden_stages(
    hp: &Hyperparameters,
    g: &mut Graph,
    params: &mut Vec<TensorId>,
    w: usize,
) -> (r: Result<(), TensorError>)
    requires
        old(g).wf(),
        causal(old(g)@, hp.num_tokens),
        old(g)@.len() >= 1,
        old(g)@.last().shape == seq![hp.num_tokens, w],
        w == hp.wide(),
        inputs_below(old(params)@, old(g)@.len() as int),
        ascending(old(params)@),
    ensures
        final(g).wf(),
        causal(final(g)@, hp.num_tokens),
        r is Ok,
        final(g)@ == old(g)@ + hp.hidden_stages(old(g)@.len() as int, hp.hiddens as nat),
        final(g)@.len() == old(g)@.len() + HIDDEN_NODES * hp.hiddens,
        final(g)@.last().shape == seq![hp.num_tokens, w],
        feeds(final(g)@, old(g)@.len() as int - 1, final(g)@.len() as int - 1),
        all_feed(final(g)@, final(params)@, old(params)@.len() as int, final(g)@.len() as int - 1),
        final(params)@ == old(params)@ + Hyperparameters::hidden_params(
            old(g)@.len() as int,
            hp.hiddens as nat,
        ),
        inputs_below(final(params)@, final(g)@.len() as int),
        ascending(final(params)@),
        input_shapes(final(g)@, final(params)@) == input_shapes(old(g)@, old(params)@)
            + hp.hidden_param_shapes(hp.hiddens as nat),
{
    let ghost g0 = g@;
    let ghost ids0 = params@;
    let ghost b = g@.len() as int;
    let t: usize = hp.num_tokens;
    let mut i: usize = 0;
    proof {
        assert(g@ =~= g0 + hp.hidden_stages(b, 0));
        assert(params@ =~= ids0 + Hyperparameters::hidden_params(b, 0));
        assert(input_shapes(g@, params@) =~= input_shapes(g0, ids0) + hp.hidden_param_shapes(0));
    }
    while i < hp.hiddens
        invariant
            i <= hp.hiddens,
            g.wf(),
            b == g0.len(),
            b >= 1,
            t == hp.num_tokens,
            w == hp.wide(),
            g@ == g0 + hp.hidden_stages(b, i as nat),
            causal(g@, hp.num_tokens),
            g@.len() == b + HIDDEN_NODES * i,
            g@.last().shape == seq![t, w],
            params@ == ids0 + Hyperparameters::hidden_params(b, i as nat),
            inputs_below(params@, g@.len() as int),
            ascending(params@),
            input_shapes(g@, params@) == input_shapes(g0, ids0) + hp.hidden_param_shapes(i as nat),
            feeds(g@, b - 1, g@.len() - 1),
            all_feed(g@, params@, ids0.len() as int, g@.len() - 1),
        decreases hp.hiddens - i,
    {
        let ghost g1 = g@;
        let ghost ids1 = params@;
        let act: usize = g.len() - 1;
        let lin_params = matrix(g, w, w);
        let bias_params = vector(g, w);
        params.push(lin_params);
        params.push(bias_params);
        let lin_result = matmul(g, act, lin_params)?;
        let lin_bias_result = sum(g, lin_result, bias_params)?;
        unary(g, Op::Relu, lin_bias_result)?;
        proof {
            reveal(Hyperparameters::hidden);
            let ext = hp.hidden(b + HIDDEN_NODES * i);
            assert(g@ =~= g1 + ext);
            lemma_quiet_extension(g1, ext, hp.num_tokens);
            lemma_hidden_flow(*hp, g1);
            assert(params@ =~= ids1 + seq![lin_params, bias_params]);
            lemma_ascending_append(ids1, seq![lin_params, bias_params], g1.len() as int);
            let end = g1.len() as int - 1;
            let sink = g1.len() as int + 4;
            lemma_feeds_carry(g1, ext, b - 1, end, sink);
            assert forall|k: int| ids0.len() <= k < params@.len() implies feeds(
                g@,
                #[trigger] params@[k] as int,
                sink,
            ) by {
                if k < ids1.len() {
                    assert(params@[k] == ids1[k]);
                    lemma_feeds_carry(g1, ext, ids1[k] as int, end, sink);
                } else {
                    assert(params@[k] == g1.len() + (k - ids1.len()));
                }
            }
            assert(g@ =~= g0 + hp.hidden_stages(b, (i + 1) as nat));
            assert(params@ =~= ids0 + Hyperparameters::hidden_params(b, (i + 1) as nat));
            assert(input_shapes(g@, params@) =~= input_shapes(g1, ids1) + seq![
                seq![w, w],
                seq![w],
            ]);
            assert(input_shapes(g@, params@) =~= input_shapes(g0, ids0) + hp.hidden_param_shapes(
                (i + 1) as nat,
            ));
        }
        i += 1;
    }
    Ok(())
}

/// Adds what follows the heads of a block: their concatenation and
/// projection, the residual sum with the block's normalised input `x`, its
/// normalisation, and the expansion of the feed-forward part. The six
/// tensors allocated on the way are registered as they are allocated.
pub(crate) fn build_mix(
    hp: &Hyperparameters,
    g: &mut Graph,
    params: &mut Vec<TensorId>,
    x: TensorId,
    heads: Vec<TensorId>,
    w: usize,
    hs: usize,
    Ghost(b): Ghost<int>,
) -> (r: Result<(), TensorError>)
    requires
        old(g).wf(),
        causal(old(g)@, hp.num_tokens),
        x < old(g)@.len(),
        old(g)@[x as int].shape == seq![hp.num_tokens, hp.embedding_degree],
        hp.num_heads >= 1,
        heads@ == Hyperparameters::head_outputs(b, hp.num_heads as nat),
        results_ready(hp, old(g)@, heads@),
        w == hp.wide(),
        hs == hp.num_heads * hp.head_size,
        inputs_below(old(params)@, old(g)@.len() as int),
        ascending(old(params)@),
    ensures
        final(g).wf(),
        causal(final(g)@, hp.num_tokens),
        r is Ok,
        final(g)@ == old(g)@ + hp.mix(old(g)@.len() as int, x as int, b),
        final(g)@.len() == old(g)@.len() + 15,
        final(g)@.last().shape == seq![hp.num_tokens, w],
        final(g)@[old(g)@.len() as int + 9].shape == seq![hp.num_tokens, hp.embedding_degree],
        forall|j: int|
            0 <= j < hp.num_heads ==> feeds(
                final(g)@,
                #[trigger] heads@[j] as int,
                old(g)@.len() as int + 14,
            ),
        feeds(final(g)@, x as int, old(g)@.len() as int + 14),
        feeds(final(g)@, old(g)@.len() as int + 9, old(g)@.len() as int + 14),
        all_feed(final(g)@, final(params)@, old(params)@.len() as int, old(g)@.len() as int + 14),
        final(params)@ == old(params)@ + Hyperparameters::mix_params(old(g)@.len() as int),
        inputs_below(final(params)@, final(g)@.len() as int),
        ascending(final(params)@),
        input_shapes(final(g)@, final(params)@) == input_shapes(old(g)@, old(params)@)
            + hp.mix_param_shapes(),
{
    let t: usize = hp.num_tokens;
    let e: usize = hp.embedding_degree;
    proof {
        assert forall|k: int| 0 <= k < heads@.len() implies heads@[k] < g@.len() by {
            assert(heads@[k] < g@.len());
        }
    }
    let ghost outs = heads@;
    let ghost c = g@.len() as int;
    let cat_id = cat(g, heads, t, hp.head_size)?;
    let proj_params = matrix(g, hs, e);
    let proj_bias_params = vector(g, e);
    params.push(proj_params);
    params.push(proj_bias_params);
    let proj_cat = matmul(g, cat_id, proj_params)?;
    let proj_cat_bias = sum(g, proj_cat, proj_bias_params)?;
    let dropped_proj_cat_bias = unary(g, Op::Dropout, proj_cat_bias)?;
    let add_atten = sum(g, x, dropped_proj_cat_bias)?;
    let add_atten_norm_coeff = vector(g, e);
    let add_atten_norm_bias = vector(g, e);
    params.push(add_atten_norm_coeff);
    params.push(add_atten_norm_bias);
    let add_atten_norm = layer_norm(g, add_atten, add_atten_norm_coeff, add_atten_norm_bias)?;
    let lin1_params = matrix(g, e, w);
    let bias1_params = vector(g, w);
    params.push(lin1_params);
    params.push(bias1_params);
    let lin1_result = matmul(g, add_atten_norm, lin1_params)?;
    let lin1_bias_result = sum(g, lin1_result, bias1_params)?;
    unary(g, Op::Relu, lin1_bias_result)?;
    proof {
        reveal(Hyperparameters::mix);
        let ext = hp.mix(c, x as int, b);
        assert(g@ =~= old(g)@ + ext);
        lemma_quiet_extension(old(g)@, ext, hp.num_tokens);
        assert forall|j: int| 0 <= j < hp.num_heads implies #[trigger] Hyperparameters::head_outputs(
            b,
            hp.num_heads as nat,
        )[j] < old(g)@.len() by {
            assert(outs[j] < old(g)@.len());
        }
        lemma_mix_flow(*hp, old(g)@, x as int, b);
        assert forall|j: int| 0 <= j < hp.num_heads implies feeds(
            g@,
            #[trigger] outs[j] as int,
            c + 14,
        ) by {
            assert(outs[j] == Hyperparameters::head_outputs(b, hp.num_heads as nat)[j]);
        }
        let six = Hyperparameters::mix_params(c);
        assert(params@ =~= old(params)@ + six);
        lemma_ascending_append(old(params)@, six, c);
        assert forall|k: int| old(params)@.len() <= k < params@.len() implies feeds(
            g@,
            #[trigger] params@[k] as int,
            c + 14,
        ) by {
            assert(params@[k] == six[k - old(params)@.len()]);
        }
        assert(input_shapes(g@, params@) =~= input_shapes(old(g)@, old(params)@)
            + hp.mix_param_shapes());
    }
    Ok(())
}

/// Adds the end of a block behind the activation that the graph ends with:
/// the contraction to the embedding width, whose weight and bias are
/// registered, and the residual sum with `res`.
pub(crate) fn build_contract(
    hp: &Hyperparameters,
    g: &mut Graph,
    params: &mut Vec<TensorId>,
    res: TensorId,
    w: usize,
) -> (r: Result<(), TensorError>)
    requires
        old(g).wf(),
        causal(old(g)@, hp.num_tokens),
        old(g)@.len() >= 1,
        old(g)@.last().shape == seq![hp.num_tokens, w],
        res < old(g)@.len(),
        old(g)@[res as int].shape == seq![hp.num_tokens, hp.embedding_degree],
        w == hp.wide(),
        inputs_below(old(params)@, old(g)@.len() as int),
        ascending(old(params)@),
    ensures
        final(g).wf(),
        causal(final(g)@, hp.num_tokens),
        r is Ok,
        final(g)@ == old(g)@ + hp.contract(old(g)@.len() as int, res as int),
        final(g)@.len() == old(g)@.len() + 5,
        final(g)@.last().shape == seq![hp.num_tokens, hp.embedding_degree],
        feeds(final(g)@, old(g)@.len() as int - 1, old(g)@.len() as int + 4),
        feeds(final(g)@, res as int, old(g)@.len() as int + 4),
        all_feed(final(g)@, final(params)@, old(params)@.len() as int, old(g)@.len() as int + 4),
        final(params)@ == old(params)@ + seq![
            old(g)@.len() as usize,
            (old(g)@.len() + 1) as usize,
        ],
        inputs_below(final(params)@, final(g)@.len() as int),
        ascending(final(params)@),
        input_shapes(final(g)@, final(params)@) == input_shapes(old(g)@, old(params)@) + seq![
            seq![w, hp.embedding_degree],
            seq![hp.embedding_degree],
        ],
{
    let e: usize = hp.embedding_degree;
    let ghost d = g@.len() as int;
    let act: usize = g.len() - 1;
    let lin2_params = matrix(g, w, e);
    let bias2_params = vector(g, e);
    params.push(lin2_params);
    params.push(bias2_params);
    let lin2_result = matmul(g, act, lin2_params)?;
    let lin2_bias_result = sum(g, lin2_result, bias2_params)?;
    sum(g, res, lin2_bias_result)?;
    proof {
        reveal(Hyperparameters::contract);
        let ext = hp.contract(d, res as int);
        assert(g@ =~= old(g)@ + ext);
        lemma_quiet_extension(old(g)@, ext, hp.num_tokens);
        lemma_contract_flow(*hp, old(g)@, res as int);
        let two = seq![d as usize, (d + 1) as usize];
        assert(params@ =~= old(params)@ + two);
        lemma_ascending_append(old(params)@, two, d);
        assert forall|k: int| old(params)@.len() <= k < params@.len() implies feeds(
            g@,
            #[trigger] params@[k] as int,
            d + 4,
        ) by {
            assert(params@[k] == two[k - old(params)@.len()]);
        }
        assert(input_shapes(g@, params@) =~= input_shapes(old(g)@, old(params)@) + seq![
            seq![w, e],
            seq![e],
        ]);
    }
    Ok(())
}

/// Adds the normalisation that opens a block, with its scale and bias, and
/// registers the two. Returns the id of the normalised activation.
fn build_norm(hp: &Hyperparameters, g: &mut Graph, params: &mut Vec<TensorId>) -> (r: Result<
    TensorId,
    TensorError,
>)
    requires
        old(g).wf(),
        causal(old(g)@, hp.num_tokens),
        old(g)@.len() >= 1,
        old(g)@.last().shape == seq![hp.num_tokens, hp.embedding_degree],
        inputs_below(old(params)@, old(g)@.len() as int),
        ascending(old(params)@),
    ensures
        final(g).wf(),
        causal(final(g)@, hp.num_tokens),
        r is Ok,
        r->Ok_0 == old(g)@.len() + 2,
        final(g)@ == old(g)@ + seq![
            leaf(seq![hp.embedding_degree]),
            leaf(seq![hp.embedding_degree]),
            app3(
                Op::LayerNorm,
                old(g)@.len() - 1,
                old(g)@.len() as int,
                old(g)@.len() as int + 1,
                seq![hp.num_tokens, hp.embedding_degree],
            ),
        ],
        final(g)@.last().shape == seq![hp.num_tokens, hp.embedding_degree],
        feeds(final(g)@, old(g)@.len() as int - 1, old(g)@.len() as int + 2),
        feeds(final(g)@, old(g)@.len() as int, old(g)@.len() as int + 2),
        feeds(final(g)@, old(g)@.len() as int + 1, old(g)@.len() as int + 2),
        final(params)@ == old(params)@ + seq![
            old(g)@.len() as usize,
            (old(g)@.len() + 1) as usize,
        ],
        inputs_below(final(params)@, final(g)@.len() as int),
        ascending(final(params)@),
        input_shapes(final(g)@, final(params)@) == input_shapes(old(g)@, old(params)@) + seq![
            seq![hp.embedding_degree],
            seq![hp.embedding_degree],
        ],
{
    let t: usize = hp.num_tokens;
    let e: usize = hp.embedding_degree;
    let ghost b = g@.len() as int;
    let inp: usize = g.len() - 1;
    let norm_coeff = vector(g, e);
    let norm_bias = vector(g, e);
    params.push(norm_coeff);
    params.push(norm_bias);
    let norm_inp = layer_norm(g, inp, norm_coeff, norm_bias)?;
    proof {
        let ext = seq![
            leaf(seq![e]),
            leaf(seq![e]),
            app3(Op::LayerNorm, b - 1, b, b + 1, seq![t, e]),
        ];
        assert(g@ =~= old(g)@ + ext);
        lemma_quiet_extension(old(g)@, ext, hp.num_tokens);
        lemma_feeds_via(g@, b + 2, 0, b + 2);
        lemma_feeds_via(g@, b + 2, 1, b + 2);
        lemma_feeds_via(g@, b + 2, 2, b + 2);
        assert(params@ =~= old(params)@ + seq![b as usize, (b + 1) as usize]);
        lemma_ascending_append(old(params)@, seq![b as usize, (b + 1) as usize], b);
        assert(input_shapes(g@, params@) =~= input_shapes(old(g)@, old(params)@) + seq![
            seq![e],
            seq![e],
        ]);
    }
    Ok(norm_inp)
}

/// In a block put together from its parts, the activation it reads and all
/// tensors it registers enter its result. The parts are the nodes behind the
/// opening normalisation: the heads, from id `b + 3`; the middle, from id
/// `c`; the additional stages; and the end, from id `d`. `ids1` to `ids5`
/// are the registered tensors after the normalisation and after each part.
proof fn lemma_layer_flow(
    g1: Seq<NodeView>,
    heads: Seq<NodeView>,
    mix: Seq<NodeView>,
    hid: Seq<NodeView>,
    con: Seq<NodeView>,
    ids1: Seq<usize>,
    ids2: Seq<usize>,
    ids3: Seq<usize>,
    ids4: Seq<usize>,
    ids5: Seq<usize>,
    outs: Seq<usize>,
    from: int,
    b: int,
    c: int,
    d: int,
)
    requires
        b >= 1,
        0 <= from,
        g1.len() == b + 3,
        c == (g1 + heads).len(),
        d == (g1 + heads + mix + hid).len(),
        mix.len() == 15,
        con.len() == 5,
        ids1.len() == from + 2,
        feeds(g1, b - 1, b + 2),
        all_feed(g1, ids1, from, b + 2),
        ids2.len() == ids1.len() + 3 * outs.len(),
        forall|k: int| 0 <= k < ids1.len() ==> ids2[k] == ids1[k],
        forall|j: int| 0 <= j < outs.len() ==> (#[trigger] outs[j]) < c,
        threes_feed(g1 + heads, ids2, ids1.len() as int, outs),
        forall|j: int|
            0 <= j < outs.len() ==> feeds(g1 + heads + mix, #[trigger] outs[j] as int, c + 14),
        feeds(g1 + heads + mix, b + 2, c + 14),
        ids3.len() >= ids2.len(),
        forall|k: int| 0 <= k < ids2.len() ==> ids3[k] == ids2[k],
        all_feed(g1 + heads + mix, ids3, ids2.len() as int, c + 14),
        ids4.len() >= ids3.len(),
        forall|k: int| 0 <= k < ids3.len() ==> ids4[k] == ids3[k],
        feeds(g1 + heads + mix + hid, c + 14, d - 1),
        all_feed(g1 + heads + mix + hid, ids4, ids3.len() as int, d - 1),
        ids5.len() >= ids4.len(),
        forall|k: int| 0 <= k < ids4.len() ==> ids5[k] == ids4[k],
        feeds(g1 + heads + mix + hid + con, d - 1, d + 4),
        all_feed(g1 + heads + mix + hid + con, ids5, ids4.len() as int, d + 4),
    ensures
        feeds(g1 + heads + mix + hid + con, b - 1, d + 4),
        all_feed(g1 + heads + mix + hid + con, ids5, from, d + 4),
{
    let g2 = g1 + heads;
    let g3 = g2 + mix;
    let g4 = g3 + hid;
    let g5 = g4 + con;
    let x = b + 2;
    let m = c + 14;
    let e = d - 1;
    let sink = d + 4;
    // what enters the expanded activation enters the block's result
    assert forall|t: int| feeds(g3, t, m) implies feeds(g5, t, sink) by {
        lemma_feeds_extend(g3, hid, t, m);
        lemma_feeds_on(g4, t, m, e);
        lemma_feeds_carry(g4, con, t, e, sink);
    }
    // what enters the normalised input enters the expanded activation
    assert forall|t: int| feeds(g1, t, x) implies feeds(g3, t, m) by {
        lemma_feeds_extend(g1, heads, t, x);
        lemma_feeds_extend(g2, mix, t, x);
        lemma_feeds_on(g3, t, x, m);
    }
    assert forall|k: int| from <= k < ids5.len() implies feeds(
        g5,
        #[trigger] ids5[k] as int,
        sink,
    ) by {
        if k < ids1.len() {
            assert(ids5[k] == ids1[k]);
            assert(feeds(g1, ids1[k] as int, x));
        } else if k < ids2.len() {
            let i = k - ids1.len();
            assert(ids5[k] == ids2[ids1.len() + i]);
            let out = outs[i / 3] as int;
            assert(feeds(g2, ids2[ids1.len() + i] as int, out));
            lemma_feeds_extend(g2, mix, ids2[k] as int, out);
            lemma_feeds_on(g3, ids2[k] as int, out, m);
        } else if k < ids3.len() {
            assert(ids5[k] == ids3[k]);
            assert(feeds(g3, ids3[k] as int, m));
        } else if k < ids4.len() {
            assert(ids5[k] == ids4[k]);
            lemma_feeds_carry(g4, con, ids4[k] as int, e, sink);
        }
    }
}

/// Adds one block behind the running activation that the graph ends with,
/// and registers its learnable tensors as they are allocated. The graph
/// then ends with the new running activation.
pub(crate) fn build_layer(
    hp: &Hyperparameters,
    g: &mut Graph,
    params: &mut Vec<TensorId>,
    w: usize,
    hs: usize,
) -> (r: Result<(), TensorError>)
    requires
        old(g).wf(),
        causal(old(g)@, hp.num_tokens),
        old(g)@.len() >= 1,
        old(g)@.last().shape == seq![hp.num_tokens, hp.embedding_degree],
        hp.num_heads >= 1,
        w == 4 * hp.embedding_degree,
        hs == hp.num_heads * hp.head_size,
        inputs_below(old(params)@, old(g)@.len() as int),
        ascending(old(params)@),
    ensures
        final(g).wf(),
        causal(final(g)@, hp.num_tokens),
        r is Ok,
        final(g)@ == old(g)@ + hp.layer(old(g)@.len() as int),
        final(g)@.last().shape == seq![hp.num_tokens, hp.embedding_degree],
        feeds(final(g)@, old(g)@.len() as int - 1, final(g)@.len() as int - 1),
        all_feed(final(g)@, final(params)@, old(params)@.len() as int, final(g)@.len() as int - 1),
        final(params)@ == old(params)@ + hp.layer_params(old(g)@.len() as int),
        inputs_below(final(params)@, final(g)@.len() as int),
        ascending(final(params)@),
        input_shapes(final(g)@, final(params)@) == input_shapes(old(g)@, old(params)@)
            + hp.layer_param_shapes(),
{
    let t: usize = hp.num_tokens;
    let e: usize = hp.embedding_degree;
    let ghost g0 = g@;
    let ghost ids0 = params@;
    let ghost b = g@.len() as int;
    let norm_inp = build_norm(hp, g, params)?;
    let ghost g1 = g@;
    let ghost ids1 = params@;
    let heads = build_heads(hp, g, params, norm_inp)?;
    let ghost outs = heads@;
    let ghost ids2 = params@;
    let c: usize = g.len();
    build_mix(hp, g, params, norm_inp, heads, w, hs, Ghost(b + 3))?;
    let ghost g3 = g@;
    let ghost ids3 = params@;
    build_hidden_stages(hp, g, params, w)?;
    let ghost g4 = g@;
    let ghost ids4 = params@;
    let d: usize = g.len();
    assert(g4[c + 9] == g3[c + 9]);
    build_contract(hp, g, params, c + 9, w)?;
    proof {
        let norm_ext = seq![
            leaf(seq![e]),
            leaf(seq![e]),
            app3(Op::LayerNorm, b - 1, b, b + 1, seq![t, e]),
        ];
        let heads_ext = hp.heads(b + 3, b + 2, hp.num_heads as nat);
        let mix_ext = hp.mix(c as int, b + 2, b + 3);
        let hid_ext = hp.hidden_stages(c + 15, hp.hiddens as nat);
        let con_ext = hp.contract(d as int, c + 9);
        assert(all_feed(g1, ids1, ids0.len() as int, b + 2)) by {
            assert forall|k: int| ids0.len() <= k < ids1.len() implies feeds(
                g1,
                #[trigger] ids1[k] as int,
                b + 2,
            ) by {
                assert(ids1[k] == b + (k - ids0.len()));
            }
        }
        lemma_layer_flow(
            g1,
            heads_ext,
            mix_ext,
            hid_ext,
            con_ext,
            ids1,
            ids2,
            ids3,
            ids4,
            params@,
            outs,
            ids0.len() as int,
            b,
            c as int,
            d as int,
        );
        assert(g@ == g0 + hp.layer(b)) by {
            lemma_concat5(g0, norm_ext, heads_ext, mix_ext, hid_ext, con_ext);
        }
        assert(params@ == ids0 + hp.layer_params(b)) by {
            lemma_concat5(
                ids0,
                seq![b as usize, (b + 1) as usize],
                Hyperparameters::head_params(b + 3, hp.num_heads as nat),
                Hyperparameters::mix_params(c as int),
                Hyperparameters::hidden_params(c + 15, hp.hiddens as nat),
                seq![d, (d + 1) as usize],
            );
        }
        assert(input_shapes(g@, params@) == input_shapes(g0, ids0) + hp.layer_param_shapes()) by {
            lemma_concat5(
                input_shapes(g0, ids0),
                seq![seq![e], seq![e]],
                hp.head_param_shapes(hp.num_heads as nat),
                hp.mix_param_shapes(),
                hp.hidden_param_shapes(hp.hiddens as nat),
                seq![seq![w, e], seq![e]],
            );
        }
    }
    Ok(())
}

/// Starts a graph with the two embedding tables, the two input
/// placeholders and their sum, and registers the tables.
pub(crate) fn build_prologue(hp: &Hyperparameters, g: &mut Graph, params: &mut Vec<TensorId>) -> (r:
    Result<(), TensorError>)
    requires
        old(g)@.len() == 0,
        old(g).wf(),
        causal(old(g)@, hp.num_tokens),
        old(params)@.len() == 0,
    ensures
        final(g).wf(),
        causal(final(g)@, hp.num_tokens),
        r is Ok,
        final(g)@ == hp.prologue(),
        final(g)@.len() == 5,
        feeds(final(g)@, 2, 4),
        feeds(final(g)@, 3, 4),
        final(g)@.last().shape == seq![hp.num_tokens, hp.embedding_degree],
        final(params)@ == seq![0usize, 1usize],
        inputs_below(final(params)@, final(g)@.len() as int),
        ascending(final(params)@),
        input_shapes(final(g)@, final(params)@) == seq![
            seq![hp.vocab_size, hp.embedding_degree],
            seq![hp.num_tokens, hp.embedding_degree],
        ],
{
    let t: usize = hp.num_tokens;
    let e: usize = hp.embedding_degree;
    let token_embedding = matrix(g, hp.vocab_size, e);
    let pos_embedding = matrix(g, t, e);
    let token_input = matrix(g, t, e);
    let pos_input = matrix(g, t, e);
    params.push(token_embedding);
    params.push(pos_embedding);
    sum(g, token_input, pos_input)?;
    proof {
        assert(g@ =~= hp.prologue());
        lemma_quiet_extension(Seq::empty(), hp.prologue(), hp.num_tokens);
        assert(Seq::<NodeView>::empty() + hp.prologue() =~= hp.prologue());
        lemma_feeds_via(g@, 4, 0, 4);
        lemma_feeds_via(g@, 4, 1, 4);
        assert(params@ =~= seq![0usize, 1usize]);
        assert(input_shapes(g@, params@) =~= seq![seq![hp.vocab_size, e], seq![t, e]]);
    }
    Ok(())
}

/// Ends a graph behind the running activation that it ends with: the last
/// normalisation and the projection onto the vocabulary, whose tensors are
/// registered. The graph then ends with the logits.
pub(crate) fn build_epilogue(hp: &Hyperparameters, g: &mut Graph, params: &mut Vec<TensorId>) -> (r:
    Result<(), TensorError>)
    requires
        old(g).wf(),
        causal(old(g)@, hp.num_tokens),
        old(g)@.len() >= 1,
        old(g)@.last().shape == seq![hp.num_tokens, hp.embedding_degree],
        inputs_below(old(params)@, old(g)@.len() as int),
        ascending(old(params)@),
    ensures
        final(g).wf(),
        causal(final(g)@, hp.num_tokens),
        r is Ok,
        final(g)@ == old(g)@ + hp.epilogue(old(g)@.len() as int),
        final(g)@.len() == old(g)@.len() + 7,
        feeds(final(g)@, old(g)@.len() as int - 1, old(g)@.len() as int + 6),
        all_feed(final(g)@, final(params)@, old(params)@.len() as int, old(g)@.len() as int + 6),
        final(g)@.last().shape == seq![hp.num_tokens, hp.vocab_size],
        final(params)@ == old(params)@ + seq![
            old(g)@.len() as usize,
            (old(g)@.len() + 1) as usize,
            (old(g)@.len() + 3) as usize,
            (old(g)@.len() + 4) as usize,
        ],
        inputs_below(final(params)@, final(g)@.len() as int),
        ascending(final(params)@),
        input_shapes(final(g)@, final(params)@) == input_shapes(old(g)@, old(params)@) + seq![
            seq![hp.embedding_degree],
            seq![hp.embedding_degree],
            seq![hp.embedding_degree, hp.vocab_size],
            seq![hp.vocab_size],
        ],
{
    let t: usize = hp.num_tokens;
    let e: usize = hp.embedding_degree;
    let v: usize = hp.vocab_size;
    let ghost b = g@.len() as int;
    let norm_out = build_norm(hp, g, params)?;
    let ghost g1 = g@;
    let ghost ids1 = params@;
    let to_vocab = matrix(g, e, v);
    let to_vocab_bias = vector(g, v);
    let result_lin = matmul(g, norm_out, to_vocab)?;
    sum(g, result_lin, to_vocab_bias)?;
    params.push(to_vocab);
    params.push(to_vocab_bias);
    proof {
        let ext = seq![
            leaf(seq![e, v]),
            leaf(seq![v]),
            app2(Op::MatMul, b + 2, b + 3, seq![t, v]),
            app2(Op::Add, b + 5, b + 4, seq![t, v]),
        ];
        assert(g@ =~= g1 + ext);
        lemma_quiet_extension(g1, ext, hp.num_tokens);
        assert(g@ =~= old(g)@ + hp.epilogue(b));
        lemma_feeds_via(g@, b + 6, 0, b + 6);
        lemma_feeds_via(g@, b + 6, 1, b + 6);
        lemma_feeds_via(g@, b + 5, 0, b + 6);
        lemma_feeds_via(g@, b + 5, 1, b + 6);
        lemma_feeds_via(g@, b + 2, 0, b + 6);
        lemma_feeds_via(g@, b + 2, 1, b + 6);
        lemma_feeds_via(g@, b + 2, 2, b + 6);
        assert(params@ =~= old(params)@ + seq![
            b as usize,
            (b + 1) as usize,
            (b + 3) as usize,
            (b + 4) as usize,
        ]);
        assert(params@ =~= ids1 + seq![to_vocab, to_vocab_bias]);
        lemma_ascending_append(ids1, seq![to_vocab, to_vocab_bias], g1.len() as int);
        assert(input_shapes(g@, params@) =~= input_shapes(g1, ids1) + seq![seq![e, v], seq![v]]);
        assert(input_shapes(g@, params@) =~= input_shapes(old(g)@, old(params)@) + seq![
            seq![e],
            seq![e],
            seq![e, v],
            seq![v],
        ]);
        assert forall|k: int| old(params)@.len() <= k < params@.len() implies feeds(
            g@,
            #[trigger] params@[k] as int,
            b + 6,
        ) by {
            let i = k - old(params)@.len();
            assert(params@[k] == seq![
                b as usize,
                (b + 1) as usize,
                (b + 3) as usize,
                (b + 4) as usize,
            ][i]);
        }
    }
    Ok(())
}

} // verus!
