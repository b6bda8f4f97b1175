use crate::arch::Hyperparameters;
use crate::blocks::{build_epilogue, build_layer, build_prologue};
use crate::causal::causal;
use crate::checkpoint::Checkpoint;
use crate::count::lemma_param_count;
use crate::dataset::{lemma_window_in_range, positions, sample_window, thread_rng, Sample};
use crate::error::TensorError;
use crate::generate::Generation;
use crate::graph::{
    ascending, input_shapes, inputs_below, well_formed, Graph, NodeView, TensorId,
};
use crate::reach::{all_feed, connected, feeds, lemma_feeds_carry};
use crate::shape::{checked_size, lemma_total_prefix, total_size};
use crate::unembed::{group_of, ids_in_range, unembed};
use vstd::prelude::*;

verus! {

/// Sum of the element counts of the nodes `ids` of `g`, or `None` when it
/// exceeds what `usize` holds.
fn checked_total(g: &Graph, ids: &Vec<TensorId>) -> (n: Option<usize>)
    requires
        inputs_below(ids@, g@.len() as int),
    ensures
        total_size(input_shapes(g@, ids@)) <= usize::MAX ==> n == Some(
            total_size(input_shapes(g@, ids@)) as usize,
        ),
        total_size(input_shapes(g@, ids@)) > usize::MAX ==> n.is_none(),
{
    let ghost shapes = input_shapes(g@, ids@);
    let mut total: usize = 0;
    let mut k: usize = 0;
    assert(shapes.take(0) =~= Seq::<Seq<usize>>::empty());
    while k < ids.len()
        invariant
            k <= ids@.len(),
            inputs_below(ids@, g@.len() as int),
            shapes == input_shapes(g@, ids@),
            total == total_size(shapes.take(k as int)),
        decreases ids@.len() - k,
    {
        proof {
            lemma_total_prefix(shapes, k + 1);
            assert(shapes.take(k + 1).drop_last() =~= shapes.take(k as int));
        }
        let node = g.get(ids[k]);
        assert(node@.shape == shapes[k as int]);
        let size = match checked_size(node.shape.as_slice()) {
            Some(size) => size,
            None => {
                return None;
            },
        };
        total = match total.checked_add(size) {
            Some(next) => next,
            None => {
                return None;
            },
        };
        k += 1;
    }
    assert(shapes.take(shapes.len() as int) =~= shapes);
    Some(total)
}

/// Number of training steps from one checkpoint to the next, where the
/// caller configures no other.
pub const CHECKPOINT_INTERVAL: usize = 50;

/// What one worker of a training step does: its sample, and how the
/// gradient rows of the token input are grouped onto the rows of the token
/// table.
pub struct Worker {
    pub sample: Sample,
    pub token_groups: Vec<Vec<usize>>,
}

/// Plan of one training step.
pub struct TrainStep {
    /// One entry per worker of the batch.
    pub workers: Vec<Worker>,
    /// The positions bound into the position input, the same for all
    /// workers.
    pub poses: Vec<usize>,
    /// How the gradient rows of the position input are grouped onto the rows
    /// of the position table.
    pub pos_groups: Vec<Vec<usize>>,
    /// Whether the model and the optimizer are saved after this step.
    pub save: bool,
}

/// Whether `groups` holds, for each of `rows` table rows, the positions of
/// `ids` that are bound to it.
pub open spec fn groups_of(groups: Seq<Vec<usize>>, ids: Seq<usize>, rows: nat) -> bool {
    &&& groups.len() == rows
    &&& forall|row: int| 0 <= row < rows ==> (#[trigger] groups[row])@ == group_of(ids, row)
}

impl TrainStep {
    /// Whether this is the plan of step `step` of a model of the sizes `hp`
    /// on `dataset`: one planned worker for each of the `batch_size`
    /// samples, the positions of the context with their grouping, and a
    /// checkpoint exactly when `interval` divides `step`.
    pub open spec fn planned(
        &self,
        hp: Hyperparameters,
        dataset: Seq<usize>,
        step: usize,
        batch_size: usize,
        interval: usize,
    ) -> bool {
        &&& self.workers@.len() == batch_size
        &&& forall|b: int|
            0 <= b < batch_size ==> (#[trigger] self.workers@[b]).planned(
                dataset,
                hp.num_tokens as nat,
                hp.vocab_size as nat,
            )
        &&& self.poses@ == Seq::new(hp.num_tokens as nat, |i: int| i as usize)
        &&& groups_of(self.pos_groups@, self.poses@, hp.num_tokens as nat)
        &&& self.save == (step % interval == 0)
    }
}

impl Worker {
    /// Whether the worker trains on a window of `context` tokens of the
    /// corpus whose tokens all name rows of a table of `vocab` rows, with
    /// the grouping that belongs to it.
    pub open spec fn planned(&self, dataset: Seq<usize>, context: nat, vocab: nat) -> bool {
        &&& self.sample.drawn_from(dataset, context)
        &&& ids_in_range(self.sample.xs@, vocab as int)
        &&& groups_of(self.token_groups@, self.sample.xs@, vocab)
    }
}

/// A graph that hangs together still does when nodes are appended that the
/// old end enters, together with registered tensors that enter the new end.
proof fn lemma_connected_on(g: Seq<NodeView>, ext: Seq<NodeView>, p: Seq<usize>, q: Seq<usize>)
    requires
        g.len() >= 1,
        ext.len() >= 1,
        connected(g, p),
        q.len() >= p.len(),
        forall|k: int| 0 <= k < p.len() ==> q[k] == p[k],
        feeds(g + ext, g.len() - 1, (g + ext).len() - 1),
        all_feed(g + ext, q, p.len() as int, (g + ext).len() - 1),
    ensures
        connected(g + ext, q),
{
    let end = g.len() - 1;
    let sink = (g + ext).len() - 1;
    lemma_feeds_carry(g, ext, 2, end, sink);
    lemma_feeds_carry(g, ext, 3, end, sink);
    assert forall|k: int| 2 <= k < q.len() implies feeds(g + ext, #[trigger] q[k] as int, sink) by {
        if k < p.len() {
            lemma_feeds_carry(g, ext, p[k] as int, end, sink);
        }
    }
}

/// A decoder-only transformer as a plan: the dataflow graph that its
/// hyperparameters call for, and which of its tensors are learnable.
pub struct GPT {
    graph: Graph,
    hp: Hyperparameters,
    params: Vec<TensorId>,
    count: usize,
    token_embedding: TensorId,
    pos_embedding: TensorId,
    token_input: TensorId,
    pos_input: TensorId,
    output: TensorId,
}

impl GPT {
    /// The sizes the model was built for.
    pub closed spec fn hyperparameters(&self) -> Hyperparameters {
        self.hp
    }

    /// The nodes of the model's graph.
    pub closed spec fn nodes(&self) -> Seq<NodeView> {
        self.graph@
    }

    /// The ids of the learnable tensors, in the order of registration.
    pub closed spec fn param_ids(&self) -> Seq<usize> {
        self.params@
    }

    /// The bookkeeping agrees with the graph: the cached parameter count is
    /// the architecture's, the tables are nodes 0 and 1, the input
    /// placeholders nodes 2 and 3, and the output is the last node.
    pub closed spec fn bookkeeping(&self) -> bool {
        &&& self.graph.wf()
        &&& self.count == self.hp.param_count()
        &&& self.token_embedding == 0
        &&& self.pos_embedding == 1
        &&& self.token_input == 2
        &&& self.pos_input == 3
        &&& self.output == self.graph@.len() - 1
    }

    /// The model is the one its hyperparameters describe: they can be built,
    /// the graph is exactly their topology, in order, causal and connected,
    /// and the registered tensors are the architecture's, in the order of
    /// their construction and with its shapes.
    pub open spec fn wf(&self) -> bool {
        let hp = self.hyperparameters();
        &&& hp.verdict() is Ok
        &&& self.nodes() == hp.topology()
        &&& well_formed(self.nodes())
        &&& causal(self.nodes(), hp.num_tokens)
        &&& connected(self.nodes(), self.param_ids())
        &&& self.param_ids() == hp.param_ids()
        &&& ascending(self.param_ids())
        &&& inputs_below(self.param_ids(), self.nodes().len() as int)
        &&& input_shapes(self.nodes(), self.param_ids()) == hp.param_shapes()
        &&& self.bookkeeping()
    }

    /// Plans the model for the given sizes. Fails with `TooLarge` when the
    /// widths of a block or the parameter count exceed the machine's
    /// integers, and with `UnexpectedShape` when a block would have no head.
    pub fn new(
        vocab_size: usize,
        embedding_degree: usize,
        num_tokens: usize,
        num_layers: usize,
        num_heads: usize,
        head_size: usize,
        hiddens: usize,
    ) -> (r: Result<GPT, TensorError>)
        ensures
            match r {
                Ok(model) => {
                    &&& model.wf()
                    &&& model.hyperparameters() == (Hyperparameters {
                        vocab_size,
                        embedding_degree,
                        num_tokens,
                        num_layers,
                        num_heads,
                        head_size,
                        hiddens,
                    })
                },
                Err(e) => (Hyperparameters {
                    vocab_size,
                    embedding_degree,
                    num_tokens,
                    num_layers,
                    num_heads,
                    head_size,
                    hiddens,
                }).verdict() == Err::<(), TensorError>(e),
            },
    {
        let hp = Hyperparameters {
            vocab_size,
            embedding_degree,
            num_tokens,
            num_layers,
            num_heads,
            head_size,
            hiddens,
        };
        let mut w: usize = 0;
        let mut hs: usize = 0;
        if num_layers > 0 {
            w = match embedding_degree.checked_mul(4) {
                Some(w) => w,
                None => {
                    return Err(TensorError::TooLarge);
                },
            };
            hs = match num_heads.checked_mul(head_size) {
                Some(hs) => hs,
                None => {
                    return Err(TensorError::TooLarge);
                },
            };
            if num_heads == 0 {
                return Err(TensorError::UnexpectedShape);
            }
        }
        let mut graph = Graph::new();
        let mut params: Vec<TensorId> = Vec::new();
        build_prologue(&hp, &mut graph, &mut params)?;
        let ghost first = seq![
            seq![hp.vocab_size, hp.embedding_degree],
            seq![hp.num_tokens, hp.embedding_degree],
        ];
        let mut i: usize = 0;
        proof {
            assert(graph@ =~= hp.prologue() + hp.layers(0));
            assert(params@ =~= seq![0usize, 1usize] + hp.layers_params(0));
            assert(input_shapes(graph@, params@) =~= first + hp.layers_param_shapes(0));
        }
        while i < num_layers
            invariant
                i <= num_layers,
                num_layers == hp.num_layers,
                hp.widths_fit(),
                hp.buildable(),
                num_layers > 0 ==> w == 4 * hp.embedding_degree && hs == hp.num_heads
                    * hp.head_size,
                graph.wf(),
                causal(graph@, hp.num_tokens),
                connected(graph@, params@),
                graph@ == hp.prologue() + hp.layers(i as nat),
                graph@.len() >= 1,
                graph@.last().shape == seq![hp.num_tokens, hp.embedding_degree],
                params@ == seq![0usize, 1usize] + hp.layers_params(i as nat),
                inputs_below(params@, graph@.len() as int),
                ascending(params@),
                input_shapes(graph@, params@) == first + hp.layers_param_shapes(i as nat),
                first == seq![
                    seq![hp.vocab_size, hp.embedding_degree],
                    seq![hp.num_tokens, hp.embedding_degree],
                ],
            decreases num_layers - i,
        {
            let ghost b = graph@.len() as int;
            let ghost g1 = graph@;
            let ghost ids1 = params@;
            assert(b == 5 + hp.layers(i as nat).len());
            build_layer(&hp, &mut graph, &mut params, w, hs)?;
            proof {
                lemma_connected_on(g1, hp.layer(b), ids1, params@);
                assert(graph@ =~= hp.prologue() + hp.layers((i + 1) as nat));
                assert(params@ =~= seq![0usize, 1usize] + hp.layers_params((i + 1) as nat));
                assert(input_shapes(graph@, params@) =~= first + hp.layers_param_shapes(
                    (i + 1) as nat,
                ));
            }
            i += 1;
        }
        let ghost g1 = graph@;
        let ghost ids1 = params@;
        build_epilogue(&hp, &mut graph, &mut params)?;
        proof {
            lemma_connected_on(g1, hp.epilogue(g1.len() as int), ids1, params@);
            assert(graph@ == hp.topology());
            assert(params@ =~= hp.param_ids());
            assert(input_shapes(graph@, params@) =~= hp.param_shapes());
            lemma_param_count(hp);
        }
        let count = match checked_total(&graph, &params) {
            Some(count) => count,
            None => {
                return Err(TensorError::TooLarge);
            },
        };
        let output: usize = graph.len() - 1;
        Ok(
            GPT {
                graph,
                hp,
                params,
                count,
                token_embedding: 0,
                pos_embedding: 1,
                token_input: 2,
                pos_input: 3,
                output,
            },
        )
    }

    /// Plans training step `step` on `dataset` with `batch_size` workers,
    /// with a checkpoint every `CHECKPOINT_INTERVAL` steps.
    pub fn train(&self, dataset: &[usize], step: usize, batch_size: usize) -> (r: Result<
        TrainStep,
        TensorError,
    >)
        requires
            batch_size > 0 ==> dataset@.len() > 0,
        ensures
            ids_in_range(dataset@, self.hyperparameters().vocab_size as int) ==> r is Ok,
            match r {
                Ok(plan) => plan.planned(
                    self.hyperparameters(),
                    dataset@,
                    step,
                    batch_size,
                    CHECKPOINT_INTERVAL,
                ),
                Err(e) => e == TensorError::InvalidIndex && !ids_in_range(
                    dataset@,
                    self.hyperparameters().vocab_size as int,
                ),
            },
    {
        self.train_every(dataset, step, batch_size, CHECKPOINT_INTERVAL)
    }

    /// Plans training step `step` on `dataset` with `batch_size` workers:
    /// each worker gets a window drawn uniformly from the corpus, with the
    /// grouping of its positions onto the token table; the positions are
    /// grouped onto the position table; and the checkpoint falls on every
    /// step that `interval` divides. A window with a token that names no
    /// row of the token table is refused, so a corpus without such a token
    /// is always planned. An empty batch draws nothing, from any corpus.
    pub fn train_every(
        &self,
        dataset: &[usize],
        step: usize,
        batch_size: usize,
        interval: usize,
    ) -> (r: Result<TrainStep, TensorError>)
        requires
            batch_size > 0 ==> dataset@.len() > 0,
            interval > 0,
        ensures
            ids_in_range(dataset@, self.hyperparameters().vocab_size as int) ==> r is Ok,
            match r {
                Ok(plan) => plan.planned(
                    self.hyperparameters(),
                    dataset@,
                    step,
                    batch_size,
                    interval,
                ),
                Err(e) => e == TensorError::InvalidIndex && !ids_in_range(
                    dataset@,
                    self.hyperparameters().vocab_size as int,
                ),
            },
    {
        let context: usize = self.hp.num_tokens;
        let vocab: usize = self.hp.vocab_size;
        let mut rng = thread_rng();
        let mut workers: Vec<Worker> = Vec::new();
        let mut b: usize = 0;
        while b < batch_size
            invariant
                b <= batch_size,
                batch_size > 0 ==> dataset@.len() > 0,
                vocab == self.hyperparameters().vocab_size,
                workers@.len() == b,
                forall|k: int|
                    0 <= k < b ==> (#[trigger] workers@[k]).planned(
                        dataset@,
                        context as nat,
                        vocab as nat,
                    ),
            decreases batch_size - b,
        {
            let sample = sample_window(dataset, context, &mut rng);
            proof {
                let start = choose|start: int|
                    0 <= start < dataset@.len() && sample.starts_at(
                        dataset@,
                        start,
                        context as nat,
                    );
                if ids_in_range(dataset@, vocab as int) {
                    lemma_window_in_range(dataset@, start, context as nat, vocab as int);
                }
            }
            let token_groups = match unembed(sample.xs.as_slice(), vocab) {
                Ok(groups) => groups,
                Err(e) => {
                    return Err(e);
                },
            };
            workers.push(Worker { sample, token_groups });
            b += 1;
        }
        let poses = positions(context);
        let pos_groups = match unembed(poses.as_slice(), context) {
            Ok(groups) => groups,
            Err(e) => {
                return Err(e);
            },
        };
        Ok(TrainStep { workers, poses, pos_groups, save: step % interval == 0 })
    }

    /// Starts the generation of `count` tokens behind `prompt`.
    pub fn infer(&self, prompt: &[usize], count: usize) -> (g: Generation)
        requires
            prompt@.len() <= self.hyperparameters().num_tokens,
        ensures
            g.wf(),
            g.history() == prompt@,
            g.remaining() == count,
            g.context_len() == self.hyperparameters().num_tokens,
    {
        Generation::new(self.hp.num_tokens, prompt, count)
    }

    /// The files that saving writes: one per learnable tensor and one for
    /// the optimizer state.
    pub fn save(&self) -> (c: Checkpoint)
        ensures
            c.covers(self.param_ids()),
    {
        Checkpoint::of(&self.params)
    }

    /// The files that loading reads: those that saving writes when the
    /// checkpoint location is `present`, none when it is not.
    pub fn load(&self, present: bool) -> (c: Option<Checkpoint>)
        ensures
            present ==> c is Some && c->Some_0.covers(self.param_ids()),
            !present ==> c is None,
    {
        if present {
            Some(Checkpoint::of(&self.params))
        } else {
            None
        }
    }

    /// The sizes the model was built for.
    pub fn hp(&self) -> (hp: Hyperparameters)
        ensures
            hp == self.hyperparameters(),
    {
        self.hp
    }

    /// Number of distinct tokens.
    pub fn vocab_size(&self) -> (n: usize)
        ensures
            n == self.hyperparameters().vocab_size,
    {
        self.hp.vocab_size
    }

    /// Number of positions attended over at once.
    pub fn num_tokens(&self) -> (n: usize)
        ensures
            n == self.hyperparameters().num_tokens,
    {
        self.hp.num_tokens
    }

    /// The graph of the model.
    pub fn graph(&self) -> (g: &Graph)
        ensures
            g@ == self.nodes(),
    {
        &self.graph
    }

    /// The ids of the learnable tensors, in the order of registration.
    pub fn params(&self) -> (ids: &Vec<TensorId>)
        ensures
            ids@ == self.param_ids(),
    {
        &self.params
    }

    /// Id of the token embedding table.
    pub fn token_embedding(&self) -> (id: TensorId)
        requires
            self.wf(),
        ensures
            id == 0,
    {
        self.token_embedding
    }

    /// Id of the position embedding table.
    pub fn pos_embedding(&self) -> (id: TensorId)
        requires
            self.wf(),
        ensures
            id == 1,
    {
        self.pos_embedding
    }

    /// Id of the placeholder that the token embeddings are bound into.
    pub fn token_input(&self) -> (id: TensorId)
        requires
            self.wf(),
        ensures
            id == 2,
    {
        self.token_input
    }

    /// Id of the placeholder that the position embeddings are bound into.
    pub fn pos_input(&self) -> (id: TensorId)
        requires
            self.wf(),
        ensures
            id == 3,
    {
        self.pos_input
    }

    /// Id of the node that holds the logits: the last node of the graph.
    pub fn output(&self) -> (id: TensorId)
        requires
            self.wf(),
        ensures
            id == self.nodes().len() - 1,
    {
        self.output
    }

    /// Number of learnable scalars: the sum of the element counts of the
    /// registered tensors, which is the architecture's parameter count.
    pub fn num_params(&self) -> (n: usize)
        requires
            self.wf(),
        ensures
            n == self.hyperparameters().param_count(),
            n == total_size(input_shapes(self.nodes(), self.param_ids())),
    {
        proof {
            lemma_param_count(self.hp);
        }
        self.count
    }
}

} // verus!
