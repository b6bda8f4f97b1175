use rand::rngs::ThreadRng;
use rand::Rng;
use crate::unembed::ids_in_range;
use vstd::arithmetic::div_mod::{
    lemma_fundamental_div_mod, lemma_fundamental_div_mod_converse, lemma_mod_bound,
};
use vstd::prelude::*;

verus! {

/// The thread-local random number generator of the `rand` crate, carried
/// through as an opaque value.
#[verifier::external_type_specification]
#[verifier::external_body]
pub struct ExThreadRng(rand::rngs::ThreadRng);

/// Calls `rand::thread_rng`, which hands out the calling thread's generator.
/// Nothing is claimed of it. The first use in a thread seeds the generator
/// from the system's entropy source and panics when that source fails, as
/// running out of memory would; no input decides that.
#[verifier::external_body]
pub(crate) fn thread_rng() -> ThreadRng {
    rand::thread_rng()
}

/// Calls `Rng::gen_range` on the half-open range from zero to `n`. The call
/// panics on an empty range, which `requires` leaves out; of the draw only
/// its range is claimed. A reseed of the generator panics when the system's
/// entropy source fails; no input decides that, so no `requires` can leave
/// it out.
#[verifier::external_body]
pub(crate) fn gen_index(rng: &mut ThreadRng, n: usize) -> (r: usize)
    requires
        n > 0,
    ensures
        r < n,
{
    rng.gen_range(0..n)
}

/// `n` consecutive tokens of the corpus from position `start` on, read
/// cyclically: behind the last token comes the first.
pub open spec fn cyclic(dataset: Seq<usize>, start: int, n: nat) -> Seq<usize> {
    Seq::new(n, |i: int| dataset[(start + i) % (dataset.len() as int)])
}

/// One training sample: a window of the corpus and the same window moved on
/// by one token, which holds the token to predict at each position.
pub struct Sample {
    pub xs: Vec<usize>,
    pub ys: Vec<usize>,
}

impl Sample {
    /// Whether the sample is the window of `context_size` tokens that starts
    /// at `start`, with its targets.
    pub open spec fn starts_at(&self, dataset: Seq<usize>, start: int, context_size: nat) -> bool {
        &&& self.xs@ == cyclic(dataset, start, context_size)
        &&& self.ys@ == cyclic(dataset, start + 1, context_size)
    }

    /// Whether the sample is a window of `context_size` tokens that starts
    /// at some position of the corpus.
    pub open spec fn drawn_from(&self, dataset: Seq<usize>, context_size: nat) -> bool {
        exists|start: int|
            0 <= start < dataset.len() && #[trigger] self.starts_at(dataset, start, context_size)
    }
}

/// The position behind `pos` in a cycle of `len` positions is the remainder
/// of the next index.
proof fn lemma_next_in_cycle(x: int, len: int, pos: int)
    requires
        len > 0,
        x >= 0,
        pos == x % len,
    ensures
        (x + 1) % len == (if pos + 1 == len {
            0
        } else {
            pos + 1
        }),
{
    lemma_fundamental_div_mod(x, len);
    let q = x / len;
    assert(x == len * q + pos);
    if pos + 1 == len {
        assert(x + 1 == (q + 1) * len + 0) by (nonlinear_arith)
            requires
                x == len * q + pos,
                pos + 1 == len,
        ;
        lemma_fundamental_div_mod_converse(x + 1, len, q + 1, 0);
    } else {
        assert(x + 1 == q * len + (pos + 1)) by (nonlinear_arith)
            requires
                x == len * q + pos,
        ;
        lemma_fundamental_div_mod_converse(x + 1, len, q, pos + 1);
    }
}

/// A window of a corpus whose tokens all name table rows holds only tokens
/// that name table rows.
pub proof fn lemma_window_in_range(dataset: Seq<usize>, start: int, n: nat, rows: int)
    requires
        dataset.len() > 0,
        start >= 0,
        ids_in_range(dataset, rows),
    ensures
        ids_in_range(cyclic(dataset, start, n), rows),
{
    assert forall|p: int| 0 <= p < n implies cyclic(dataset, start, n)[p] < rows by {
        lemma_mod_bound(start + p, dataset.len() as int);
    }
}

/// The sample whose window starts at position `start` of the corpus, taken
/// modulo the corpus length.
pub fn window_at(dataset: &[usize], start: usize, context_size: usize) -> (sample: Sample)
    requires
        dataset@.len() > 0,
    ensures
        sample.starts_at(dataset@, start as int, context_size as nat),
{
    let len: usize = dataset.len();
    let mut xs: Vec<usize> = Vec::new();
    let mut ys: Vec<usize> = Vec::new();
    let mut pos: usize = start % len;
    let mut i: usize = 0;
    while i < context_size
        invariant
            i <= context_size,
            len == dataset@.len(),
            len > 0,
            pos == (start + i) % (len as int),
            xs@ == cyclic(dataset@, start as int, i as nat),
            ys@ == cyclic(dataset@, start + 1, i as nat),
        decreases context_size - i,
    {
        let next: usize = if pos + 1 == len {
            0
        } else {
            pos + 1
        };
        proof {
            lemma_next_in_cycle(start + i, len as int, pos as int);
        }
        xs.push(dataset[pos]);
        ys.push(dataset[next]);
        proof {
            assert(xs@ =~= cyclic(dataset@, start as int, (i + 1) as nat));
            assert(ys@ =~= cyclic(dataset@, start + 1, (i + 1) as nat));
        }
        pos = next;
        i += 1;
    }
    Sample { xs, ys }
}

/// Draws one sample from a start position chosen uniformly over the corpus.
pub fn sample_window(dataset: &[usize], context_size: usize, rng: &mut ThreadRng) -> (sample:
    Sample)
    requires
        dataset@.len() > 0,
    ensures
        sample.drawn_from(dataset@, context_size as nat),
{
    let start: usize = gen_index(rng, dataset.len());
    let sample = window_at(dataset, start, context_size);
    assert(sample.starts_at(dataset@, start as int, context_size as nat));
    sample
}

/// Draws `batch_size` samples, each from a start position chosen uniformly
/// over the corpus. An empty batch draws nothing, from any corpus.
pub fn sample_dataset(
    dataset: &[usize],
    batch_size: usize,
    context_size: usize,
    rng: &mut ThreadRng,
) -> (samples: Vec<Sample>)
    requires
        batch_size > 0 ==> dataset@.len() > 0,
    ensures
        samples@.len() == batch_size,
        forall|b: int|
            0 <= b < batch_size ==> (#[trigger] samples@[b]).drawn_from(
                dataset@,
                context_size as nat,
            ),
{
    let mut samples: Vec<Sample> = Vec::new();
    let mut b: usize = 0;
    while b < batch_size
        invariant
            b <= batch_size,
            batch_size > 0 ==> dataset@.len() > 0,
            samples@.len() == b,
            forall|k: int|
                0 <= k < b ==> (#[trigger] samples@[k]).drawn_from(dataset@, context_size as nat),
        decreases batch_size - b,
    {
        samples.push(sample_window(dataset, context_size, rng));
        b += 1;
    }
    samples
}

/// The positions of a context: zero up to, and without, `n`.
pub fn positions(n: usize) -> (poses: Vec<usize>)
    ensures
        poses@ == Seq::new(n as nat, |i: int| i as usize),
{
    let mut poses: Vec<usize> = Vec::new();
    let mut i: usize = 0;
    while i < n
        invariant
            i <= n,
            poses@ == Seq::new(i as nat, |k: int| k as usize),
        decreases n - i,
    {
        poses.push(i);
        assert(poses@ =~= Seq::new((i + 1) as nat, |k: int| k as usize));
        i += 1;
    }
    poses
}

} // verus!
