use crate::error::TensorError;
use crate::window::{advance_cursor, write_token, zeros, ContextWindow};
use vstd::prelude::*;

verus! {

/// The window of `len` slots that belongs to a history of tokens: the whole
/// history padded with zeros while it fits, its last `len` tokens afterwards.
pub open spec fn window_of(history: Seq<usize>, len: nat) -> Seq<usize> {
    if history.len() <= len {
        history + zeros((len - history.len()) as nat)
    } else {
        history.skip(history.len() - len)
    }
}

/// The cursor that belongs to a history: its length, capped by the window.
pub open spec fn cursor_of(history: Seq<usize>, len: nat) -> nat {
    if history.len() <= len {
        history.len()
    } else {
        len
    }
}

/// Writing a token into the window of a history gives the window of the
/// history with that token appended, and moves the cursor accordingly.
pub proof fn lemma_write_tracks_history(history: Seq<usize>, len: nat, token: usize)
    requires
        len > 0,
    ensures
        write_token(window_of(history, len), cursor_of(history, len) as int, token) == window_of(
            history.push(token),
            len,
        ),
        advance_cursor(len as int, cursor_of(history, len) as int) == cursor_of(
            history.push(token),
            len,
        ),
{
    assert(write_token(window_of(history, len), cursor_of(history, len) as int, token)
        =~= window_of(history.push(token), len));
}

/// The window of a history always has its fixed length, its cursor lies
/// within it, the slots before the cursor hold the most recent tokens in
/// order, and the slots from the cursor on hold zeros.
pub proof fn lemma_window_holds_latest(history: Seq<usize>, len: nat)
    ensures
        window_of(history, len).len() == len,
        cursor_of(history, len) <= len,
        cursor_of(history, len) <= history.len(),
        window_of(history, len).take(cursor_of(history, len) as int) == history.skip(
            history.len() - cursor_of(history, len),
        ),
        forall|i: int| cursor_of(history, len) <= i < len ==> window_of(history, len)[i] == 0,
{
    assert(window_of(history, len).take(cursor_of(history, len) as int) =~= history.skip(
        history.len() - cursor_of(history, len),
    ));
}

/// The window after the tokens `tokens` were written, one by one, into the
/// window `w` with cursor `cnt`.
pub open spec fn written(w: Seq<usize>, cnt: int, tokens: Seq<usize>) -> Seq<usize>
    decreases tokens.len(),
{
    if tokens.len() == 0 {
        w
    } else {
        write_token(
            written(w, cnt, tokens.drop_last()),
            moved(w.len() as int, cnt, tokens.drop_last().len()),
            tokens.last(),
        )
    }
}

/// The cursor after `n` tokens were written into a window of `len` slots
/// whose cursor was `cnt`.
pub open spec fn moved(len: int, cnt: int, n: nat) -> int
    decreases n,
{
    if n == 0 {
        cnt
    } else {
        advance_cursor(len, moved(len, cnt, (n - 1) as nat))
    }
}

/// After any sequence of writes, the window is the one that belongs to the
/// whole history: it keeps its length, its cursor stays within it, and it
/// holds the most recent tokens in order.
pub proof fn lemma_written_tracks_history(history: Seq<usize>, len: nat, tokens: Seq<usize>)
    requires
        len > 0,
    ensures
        written(window_of(history, len), cursor_of(history, len) as int, tokens) == window_of(
            history + tokens,
            len,
        ),
        moved(len as int, cursor_of(history, len) as int, tokens.len()) == cursor_of(
            history + tokens,
            len,
        ),
    decreases tokens.len(),
{
    if tokens.len() == 0 {
        assert(history + tokens =~= history);
    } else {
        let before = tokens.drop_last();
        lemma_written_tracks_history(history, len, before);
        lemma_write_tracks_history(history + before, len, tokens.last());
        assert((history + before).push(tokens.last()) =~= history + tokens);
        assert(window_of(history, len).len() == len);
    }
}

/// What the caller of a generation has to do next.
pub enum Step {
    /// Bind `context` into the token input, evaluate the graph without
    /// dropout, and select the next token from row `row` of the logits.
    Evaluate { context: Vec<usize>, row: usize },
    /// All requested tokens were generated.
    Finished,
}

/// State of one autoregressive generation: the tokens so far, the sliding
/// window over them, and how many tokens are still to come.
pub struct Generation {
    window: ContextWindow,
    output: Vec<usize>,
    remaining: usize,
}

impl Generation {
    /// The prompt followed by the tokens generated so far.
    pub closed spec fn history(&self) -> Seq<usize> {
        self.output@
    }

    /// Number of tokens still to generate.
    pub closed spec fn remaining(&self) -> nat {
        self.remaining as nat
    }

    /// Number of slots of the window.
    pub closed spec fn context_len(&self) -> nat {
        self.window@.tokens.len()
    }

    /// The window is the one that belongs to the history.
    pub closed spec fn wf(&self) -> bool {
        &&& self.window.wf()
        &&& self.window@.tokens == window_of(self.output@, self.window@.tokens.len())
        &&& self.window@.cursor == cursor_of(self.output@, self.window@.tokens.len())
    }

    /// Starts a generation of `count` tokens behind `prompt`, over a window
    /// of `num_tokens` slots.
    pub fn new(num_tokens: usize, prompt: &[usize], count: usize) -> (g: Generation)
        requires
            prompt@.len() <= num_tokens,
        ensures
            g.wf(),
            g.history() == prompt@,
            g.remaining() == count,
            g.context_len() == num_tokens,
    {
        let window = ContextWindow::new(num_tokens, prompt);
        let mut output: Vec<usize> = Vec::new();
        let mut i: usize = 0;
        while i < prompt.len()
            invariant
                i <= prompt@.len(),
                output@ == prompt@.take(i as int),
            decreases prompt@.len() - i,
        {
            output.push(prompt[i]);
            assert(prompt@.take(i + 1) =~= prompt@.take(i as int).push(prompt@[i as int]));
            i += 1;
        }
        assert(prompt@.take(prompt@.len() as int) =~= prompt@);
        Generation { window, output, remaining: count }
    }

    /// What to do next: nothing more when no token remains; otherwise
    /// evaluate the graph on the window and read the logits at the last
    /// token's position. With tokens to come and no token in the window
    /// there is no such position, which is an `InvalidIndex`.
    pub fn step(&self) -> (r: Result<Step, TensorError>)
        requires
            self.wf(),
        ensures
            match r {
                Ok(Step::Finished) => self.remaining() == 0,
                Ok(Step::Evaluate { context, row }) => {
                    &&& self.remaining() > 0
                    &&& self.history().len() > 0
                    &&& context@ == window_of(self.history(), self.context_len())
                    &&& row == cursor_of(self.history(), self.context_len()) - 1
                },
                Err(e) => {
                    &&& e == TensorError::InvalidIndex
                    &&& self.remaining() > 0
                    &&& cursor_of(self.history(), self.context_len()) == 0
                },
            },
    {
        if self.remaining == 0 {
            return Ok(Step::Finished);
        }
        let cnt: usize = self.window.cnt();
        if cnt == 0 {
            return Err(TensorError::InvalidIndex);
        }
        Ok(Step::Evaluate { context: self.window.to_vec(), row: cnt - 1 })
    }

    /// Takes in the token that was selected: it is appended to the history
    /// and written into the window, which slides first when it is full.
    pub fn accept(&mut self, token: usize)
        requires
            old(self).wf(),
            old(self).remaining() > 0,
            cursor_of(old(self).history(), old(self).context_len()) > 0,
        ensures
            final(self).wf(),
            final(self).history() == old(self).history().push(token),
            final(self).remaining() == old(self).remaining() - 1,
            final(self).context_len() == old(self).context_len(),
    {
        proof {
            lemma_write_tracks_history(self.output@, self.window@.tokens.len(), token);
        }
        self.window.push(token);
        self.output.push(token);
        self.remaining = self.remaining - 1;
    }

    /// The prompt followed by the tokens generated so far.
    pub fn output(&self) -> (tokens: &Vec<usize>)
        ensures
            tokens@ == self.history(),
    {
        &self.output
    }

    /// Ends the generation and hands out the prompt followed by the
    /// generated tokens.
    pub fn into_output(self) -> (tokens: Vec<usize>)
        ensures
            tokens@ == self.history(),
    {
        self.output
    }
}

} // verus!
