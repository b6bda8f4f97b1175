use crate::arch::{Hyperparameters, HEAD_NODES, HIDDEN_NODES};
use crate::shape::{lemma_total_concat, shape_size, total_size};
use vstd::prelude::*;

verus! {

/// A vector holds as many elements as its length says.
pub proof fn lemma_vector_size(n: usize)
    ensures
        shape_size(seq![n]) == n,
{
    let s = seq![n];
    assert(s.drop_last() =~= Seq::<usize>::empty());
    assert(shape_size(s.drop_last()) == 1);
    assert(shape_size(s) == shape_size(s.drop_last()) * (s.last() as nat));
    assert(1 * (n as nat) == n) by (nonlinear_arith);
}

/// A matrix holds rows times columns elements.
pub proof fn lemma_matrix_size(rows: usize, cols: usize)
    ensures
        shape_size(seq![rows, cols]) == rows * cols,
{
    let s = seq![rows, cols];
    assert(s.drop_last() =~= seq![rows]);
    lemma_vector_size(rows);
    assert(shape_size(s) == shape_size(s.drop_last()) * (s.last() as nat));
}

/// One more shape adds its element count to the total.
pub proof fn lemma_total_push(shapes: Seq<Seq<usize>>, s: Seq<usize>)
    ensures
        total_size(shapes.push(s)) == total_size(shapes) + shape_size(s),
{
    assert(shapes.push(s).drop_last() =~= shapes);
}

/// The total of no shape is zero, and each shape of a short list adds its
/// element count.
pub proof fn lemma_total_of4(a: Seq<usize>, b: Seq<usize>, c: Seq<usize>, d: Seq<usize>)
    ensures
        total_size(Seq::<Seq<usize>>::empty()) == 0,
        total_size(seq![a]) == shape_size(a),
        total_size(seq![a, b]) == shape_size(a) + shape_size(b),
        total_size(seq![a, b, c]) == shape_size(a) + shape_size(b) + shape_size(c),
        total_size(seq![a, b, c, d]) == shape_size(a) + shape_size(b) + shape_size(c) + shape_size(
            d,
        ),
{
    let s0 = Seq::<Seq<usize>>::empty();
    assert(total_size(s0) == 0);
    lemma_total_push(s0, a);
    lemma_total_push(s0.push(a), b);
    lemma_total_push(s0.push(a).push(b), c);
    lemma_total_push(s0.push(a).push(b).push(c), d);
    assert(seq![a] =~= s0.push(a));
    assert(seq![a, b] =~= s0.push(a).push(b));
    assert(seq![a, b, c] =~= s0.push(a).push(b).push(c));
    assert(seq![a, b, c, d] =~= s0.push(a).push(b).push(c).push(d));
}

/// The weights of `n` heads hold three times `n` matrices of the embedding
/// width by the head size.
pub proof fn lemma_head_params(hp: Hyperparameters, n: nat)
    ensures
        hp.head_param_shapes(n).len() == 3 * n,
        total_size(hp.head_param_shapes(n)) == 3 * (n * (hp.embedding_degree * hp.head_size)),
    decreases n,
{
    let e = hp.embedding_degree;
    let s = hp.head_size;
    if n > 0 {
        lemma_head_params(hp, (n - 1) as nat);
        let three = seq![seq![e, s], seq![e, s], seq![e, s]];
        lemma_total_concat(hp.head_param_shapes((n - 1) as nat), three);
        assert(total_size(three) == 3 * (e * s)) by {
            lemma_matrix_size(e, s);
            lemma_total_of4(seq![e, s], seq![e, s], seq![e, s], seq![e, s]);
        }
        assert((n - 1) * (e * s) + e * s == n * (e * s)) by (nonlinear_arith);
    } else {
        assert(n * (e * s) == 0) by (nonlinear_arith)
            requires
                n == 0,
        ;
    }
}

/// The tensors of `n` additional feed-forward stages hold `n` square
/// matrices of the wide width and `n` vectors of that width.
pub proof fn lemma_hidden_params(hp: Hyperparameters, n: nat)
    ensures
        hp.hidden_param_shapes(n).len() == 2 * n,
        total_size(hp.hidden_param_shapes(n)) == n * (hp.wide() * hp.wide() + hp.wide()),
    decreases n,
{
    let w = hp.wide();
    if n > 0 {
        lemma_hidden_params(hp, (n - 1) as nat);
        let two = seq![seq![w, w], seq![w]];
        lemma_total_concat(hp.hidden_param_shapes((n - 1) as nat), two);
        assert(total_size(two) == w * w + w) by {
            lemma_matrix_size(w, w);
            lemma_vector_size(w);
            lemma_total_of4(seq![w, w], seq![w], seq![w], seq![w]);
        }
        assert((n - 1) * (w * w + w) + (w * w + w) == n * (w * w + w)) by (nonlinear_arith);
    } else {
        assert(n * (w * w + w) == 0) by (nonlinear_arith)
            requires
                n == 0,
        ;
    }
}

/// The six tensors of the middle of a block total the projection, the
/// expansion and four vectors.
proof fn lemma_mix_params(hp: Hyperparameters)
    ensures
        hp.mix_param_shapes().len() == 6,
        total_size(hp.mix_param_shapes()) == hp.heads_width() * hp.embedding_degree
            + hp.embedding_degree * hp.wide() + hp.wide() + 3 * hp.embedding_degree,
{
    let e = hp.embedding_degree;
    let w = hp.wide();
    let hs = hp.heads_width();
    lemma_matrix_size(hs, e);
    lemma_matrix_size(e, w);
    lemma_vector_size(e);
    lemma_vector_size(w);
    let a = seq![seq![hs, e], seq![e], seq![e], seq![e]];
    let b = seq![seq![e, w], seq![w]];
    lemma_total_of4(seq![hs, e], seq![e], seq![e], seq![e]);
    lemma_total_of4(seq![e, w], seq![w], seq![w], seq![w]);
    lemma_total_concat(a, b);
    assert(a + b =~= hp.mix_param_shapes());
}

/// One block registers ten tensors besides three per head and two per
/// additional stage, and they hold what the formula for a block says.
pub proof fn lemma_layer_params(hp: Hyperparameters)
    requires
        4 * hp.embedding_degree <= usize::MAX,
        hp.num_heads * hp.head_size <= usize::MAX,
    ensures
        hp.layer_param_shapes().len() == 10 + 3 * hp.num_heads + 2 * hp.hiddens,
        total_size(hp.layer_param_shapes()) == hp.layer_param_count(),
{
    let e = hp.embedding_degree;
    let s = hp.head_size;
    let h = hp.num_heads;
    let f = hp.hiddens;
    let w = hp.wide();
    let hs = hp.heads_width();
    let first = seq![seq![e], seq![e]];
    let heads = hp.head_param_shapes(h as nat);
    let middle = hp.mix_param_shapes();
    let hiddens = hp.hidden_param_shapes(f as nat);
    let last = seq![seq![w, e], seq![e]];
    lemma_head_params(hp, h as nat);
    lemma_hidden_params(hp, f as nat);
    lemma_mix_params(hp);
    lemma_vector_size(e);
    lemma_matrix_size(w, e);
    lemma_total_of4(seq![e], seq![e], seq![e], seq![e]);
    lemma_total_of4(seq![w, e], seq![e], seq![e], seq![e]);
    lemma_total_concat(first, heads);
    lemma_total_concat(first + heads, middle);
    lemma_total_concat(first + heads + middle, hiddens);
    lemma_total_concat(first + heads + middle + hiddens, last);
    assert(w == 4 * e);
    assert(hs == h * s);
    let ee = e * e;
    let hse = (h * s) * e;
    assert(h * (e * s) == (h * s) * e) by (nonlinear_arith);
    assert(w * w == 16 * ee) by (nonlinear_arith)
        requires
            w == 4 * e,
            ee == e * e,
    ;
    assert(e * w == 4 * ee && w * e == 4 * ee) by (nonlinear_arith)
        requires
            w == 4 * e,
            ee == e * e,
    ;
    assert(hs * e == hse);
    assert(f * (w * w + w) == f * (16 * ee + 4 * e)) by (nonlinear_arith)
        requires
            w * w == 16 * ee,
            w == 4 * e,
    ;
}

/// `n` blocks register `n` times the tensors of one.
pub proof fn lemma_layers_params(hp: Hyperparameters, n: nat)
    requires
        n > 0 ==> 4 * hp.embedding_degree <= usize::MAX && hp.num_heads * hp.head_size
            <= usize::MAX,
    ensures
        hp.layers_param_shapes(n).len() == n * (10 + 3 * hp.num_heads + 2 * hp.hiddens),
        total_size(hp.layers_param_shapes(n)) == n * hp.layer_param_count(),
    decreases n,
{
    let per = 10 + 3 * hp.num_heads + 2 * hp.hiddens;
    let c = hp.layer_param_count();
    if n > 0 {
        lemma_layers_params(hp, (n - 1) as nat);
        lemma_layer_params(hp);
        lemma_total_concat(hp.layers_param_shapes((n - 1) as nat), hp.layer_param_shapes());
        assert((n - 1) * per + per == n * per) by (nonlinear_arith);
        assert((n - 1) * c + c == n * c) by (nonlinear_arith);
    } else {
        assert(n * per == 0 && n * c == 0) by (nonlinear_arith)
            requires
                n == 0,
        ;
    }
}

/// The learnable tensors of a model are as many as the architecture says,
/// and the sum of their element counts is the analytic parameter count.
pub proof fn lemma_param_count(hp: Hyperparameters)
    requires
        hp.widths_fit(),
    ensures
        hp.param_shapes().len() == hp.param_tensors(),
        total_size(hp.param_shapes()) == hp.param_count(),
{
    let v = hp.vocab_size;
    let t = hp.num_tokens;
    let e = hp.embedding_degree;
    let first = seq![seq![v, e], seq![t, e]];
    let blocks = hp.layers_param_shapes(hp.num_layers as nat);
    let last = seq![seq![e], seq![e], seq![e, v], seq![v]];
    lemma_layers_params(hp, hp.num_layers as nat);
    lemma_matrix_size(v, e);
    lemma_matrix_size(t, e);
    lemma_matrix_size(e, v);
    lemma_vector_size(e);
    lemma_vector_size(v);
    lemma_total_of4(seq![v, e], seq![t, e], seq![t, e], seq![t, e]);
    lemma_total_of4(seq![e], seq![e], seq![e, v], seq![v]);
    lemma_total_concat(first, blocks);
    lemma_total_concat(first + blocks, last);
    assert(e * v == v * e) by (nonlinear_arith);
}

/// One more block adds the parameters of one block.
pub proof fn lemma_one_more_layer(hp: Hyperparameters, more: Hyperparameters)
    requires
        more == (Hyperparameters { num_layers: (hp.num_layers + 1) as usize, ..hp }),
        hp.num_layers < usize::MAX,
    ensures
        more.param_count() == hp.param_count() + hp.layer_param_count(),
{
    let c = hp.layer_param_count();
    assert(more.layer_param_count() == c);
    assert((hp.num_layers + 1) * c == hp.num_layers * c + c) by (nonlinear_arith);
}

/// One more head adds, in every block, its three weight matrices and its
/// share of the projection: four times the embedding width times the head
/// size.
pub proof fn lemma_one_more_head(hp: Hyperparameters, more: Hyperparameters)
    requires
        more == (Hyperparameters { num_heads: (hp.num_heads + 1) as usize, ..hp }),
        hp.num_heads < usize::MAX,
    ensures
        more.param_count() == hp.param_count() + hp.num_layers * (4 * (hp.head_size
            * hp.embedding_degree)),
{
    let e = hp.embedding_degree as int;
    let s = hp.head_size as int;
    let h = hp.num_heads as int;
    let l = hp.num_layers as int;
    let c = hp.layer_param_count();
    let se = s * e;
    assert(((h + 1) * s) * e == (h * s) * e + se) by (nonlinear_arith)
        requires
            se == s * e,
    ;
    assert(more.layer_param_count() == c + 4 * se);
    assert(l * (c + 4 * se) == l * c + l * (4 * se)) by (nonlinear_arith);
}

/// `n` heads take thirteen nodes each.
pub proof fn lemma_heads_len(hp: Hyperparameters, b: int, x: int, n: nat)
    ensures
        hp.heads(b, x, n).len() == HEAD_NODES * n,
    decreases n,
{
    if n > 0 {
        reveal(Hyperparameters::head);
        lemma_heads_len(hp, b, x, (n - 1) as nat);
    }
}

/// `n` additional feed-forward stages take five nodes each.
pub proof fn lemma_hidden_stages_len(hp: Hyperparameters, b: int, n: nat)
    ensures
        hp.hidden_stages(b, n).len() == HIDDEN_NODES * n,
    decreases n,
{
    if n > 0 {
        reveal(Hyperparameters::hidden);
        lemma_hidden_stages_len(hp, b, (n - 1) as nat);
    }
}

/// `n` blocks take `n` times the nodes of one.
pub proof fn lemma_layers_len(hp: Hyperparameters, n: nat)
    ensures
        hp.layers(n).len() == n * hp.layer_len(),
    decreases n,
{
    let per = hp.layer_len();
    if n > 0 {
        lemma_layers_len(hp, (n - 1) as nat);
        let b = 5 + hp.layers((n - 1) as nat).len() as int;
        let c = b + 3 + HEAD_NODES * hp.num_heads;
        reveal(Hyperparameters::mix);
        reveal(Hyperparameters::contract);
        lemma_heads_len(hp, b + 3, b + 2, hp.num_heads as nat);
        lemma_hidden_stages_len(hp, c + 15, hp.hiddens as nat);
        assert(hp.layer(b).len() == per);
        assert((n - 1) * per + per == n * per) by (nonlinear_arith);
    } else {
        assert(n * per == 0) by (nonlinear_arith)
            requires
                n == 0,
        ;
    }
}

/// The graph of a model has twelve nodes besides those of its blocks.
pub proof fn lemma_node_count(hp: Hyperparameters)
    ensures
        hp.topology().len() == 12 + hp.num_layers * hp.layer_len(),
{
    lemma_layers_len(hp, hp.num_layers as nat);
}

} // verus!
