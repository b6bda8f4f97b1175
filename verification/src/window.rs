use vstd::prelude::*;

verus! {

/// Physical slot of logical position `i` in a ring of `len` slots whose
/// logical position zero sits at slot `start`.
pub open spec fn slot_of(start: int, i: int, len: int) -> int {
    if start + i < len {
        start + i
    } else {
        start + i - len
    }
}

/// A window of `len` zeros.
pub open spec fn zeros(len: nat) -> Seq<usize> {
    Seq::new(len, |i: int| 0usize)
}

/// One write into a window `w` whose cursor is `cnt`: a full window first
/// drops its oldest token and is padded with a zero at the end, which moves
/// the cursor one back; the token then lands at the cursor.
pub open spec fn write_token(w: Seq<usize>, cnt: int, token: usize) -> Seq<usize> {
    if cnt == w.len() {
        w.skip(1).push(0usize).update(cnt - 1, token)
    } else {
        w.update(cnt, token)
    }
}

/// The cursor after one write into a window of `len` slots.
pub open spec fn advance_cursor(len: int, cnt: int) -> int {
    if cnt == len {
        cnt
    } else {
        cnt + 1
    }
}

/// Fixed-length window over the most recent tokens, kept as a ring so that a
/// shift moves no data.
pub struct ContextWindow {
    slots: Vec<usize>,
    start: usize,
    cnt: usize,
}

/// Mathematical model of a window: its tokens in logical order, oldest
/// position first, and the position of the next write.
pub struct WindowView {
    pub tokens: Seq<usize>,
    pub cursor: nat,
}

impl View for ContextWindow {
    type V = WindowView;

    closed spec fn view(&self) -> WindowView {
        WindowView {
            tokens: Seq::new(
                self.slots@.len(),
                |i: int| self.slots@[slot_of(self.start as int, i, self.slots@.len() as int)],
            ),
            cursor: self.cnt as nat,
        }
    }
}

impl ContextWindow {
    /// The ring is consistent: the origin is a slot, the cursor is within the
    /// window, and the origin has not moved while the window is not full.
    pub closed spec fn wf(&self) -> bool {
        &&& self.cnt <= self.slots@.len()
        &&& (self.start < self.slots@.len() || self.start == 0)
        &&& (self.cnt < self.slots@.len() ==> self.start == 0)
    }

    /// A window of `len` slots that starts with `prompt` and is padded with
    /// zeros, the cursor just behind the prompt.
    pub fn new(len: usize, prompt: &[usize]) -> (w: ContextWindow)
        requires
            prompt@.len() <= len,
        ensures
            w.wf(),
            w@.tokens == prompt@ + zeros((len - prompt@.len()) as nat),
            w@.cursor == prompt@.len(),
    {
        let mut slots: Vec<usize> = Vec::new();
        let mut i: usize = 0;
        while i < len
            invariant
                i <= len,
                prompt@.len() <= len,
                slots@.len() == i,
                forall|j: int| 0 <= j < i && j < prompt@.len() ==> slots@[j] == prompt@[j],
                forall|j: int| 0 <= j < i && j >= prompt@.len() ==> slots@[j] == 0,
            decreases len - i,
        {
            if i < prompt.len() {
                slots.push(prompt[i]);
            } else {
                slots.push(0);
            }
            i += 1;
        }
        let w = ContextWindow { slots, start: 0, cnt: prompt.len() };
        assert(w@.tokens =~= prompt@ + zeros((len - prompt@.len()) as nat));
        w
    }

    /// Number of slots.
    pub fn len(&self) -> (n: usize)
        ensures
            n == self@.tokens.len(),
    {
        self.slots.len()
    }

    /// Position of the next write.
    pub fn cnt(&self) -> (c: usize)
        requires
            self.wf(),
        ensures
            c == self@.cursor,
            c <= self@.tokens.len(),
    {
        self.cnt
    }

    /// The window in logical order.
    pub fn to_vec(&self) -> (v: Vec<usize>)
        requires
            self.wf(),
        ensures
            v@ == self@.tokens,
    {
        let n: usize = self.slots.len();
        let mut v: Vec<usize> = Vec::new();
        let mut i: usize = 0;
        while i < n
            invariant
                self.wf(),
                n == self.slots@.len(),
                i <= n,
                v@.len() == i,
                forall|j: int| 0 <= j < i ==> v@[j] == self@.tokens[j],
            decreases n - i,
        {
            let p: usize = if i < n - self.start {
                self.start + i
            } else {
                i - (n - self.start)
            };
            v.push(self.slots[p]);
            i += 1;
        }
        assert(v@ =~= self@.tokens);
        v
    }

    /// Writes `token` at the cursor, sliding the window first when it is
    /// full.
    pub fn push(&mut self, token: usize)
        requires
            old(self).wf(),
            old(self)@.tokens.len() > 0,
        ensures
            final(self).wf(),
            final(self)@.tokens == write_token(
                old(self)@.tokens,
                old(self)@.cursor as int,
                token,
            ),
            final(self)@.cursor == advance_cursor(
                old(self)@.tokens.len() as int,
                old(self)@.cursor as int,
            ),
    {
        let n: usize = self.slots.len();
        if self.cnt == n {
            let at: usize = self.start;
            self.slots.set(at, token);
            self.start = if at + 1 == n {
                0
            } else {
                at + 1
            };
        } else {
            let at: usize = self.cnt;
            self.slots.set(at, token);
            self.cnt = at + 1;
        }
        assert(self@.tokens =~= write_token(old(self)@.tokens, old(self)@.cursor as int, token));
    }
}

} // verus!
