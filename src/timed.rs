use vstd::prelude::*;

use crate::typewriter::Outcome;

verus! {

/// Milliseconds per revealed character (about 125 characters a second).
pub const REVEAL_MS_PER_CHAR: u64 = 8;

/// Poll timeout, in milliseconds, after each frame.
pub const FRAME_POLL_MS: u64 = 16;

/// Further poll timeout, in milliseconds, once the whole text is shown.
pub const TIMED_HOLD_POLL_MS: u64 = 100;

/// How many characters of `total` are shown `elapsed_ms` after the start.
pub open spec fn shown_after(elapsed_ms: u64, total: usize) -> usize {
    let k = elapsed_ms / REVEAL_MS_PER_CHAR;
    if k < total {
        k as usize
    } else {
        total
    }
}

/// How many characters of `total` are shown `elapsed_ms` after the start.
pub fn shown_at(elapsed_ms: u64, total: usize) -> (r: usize)
    ensures
        r == shown_after(elapsed_ms, total),
{
    let k = elapsed_ms / REVEAL_MS_PER_CHAR;
    if k < total as u64 {
        k as usize
    } else {
        total
    }
}

/// The first `shown` characters of `text` (all of it when `shown` is larger).
pub fn visible_prefix(text: &str, shown: usize) -> (r: &str)
    ensures
        r@ == text@.take(if shown < text@.len() {
            shown as int
        } else {
            text@.len() as int
        }),
{
    let n = text.unicode_len();
    let k = if shown < n {
        shown
    } else {
        n
    };
    text.substring_char(0, k)
}

/// Elapsed-time-driven reveal: each frame shows a prefix whose length follows
/// from the time since the start, and a dismissal ends it.
pub struct TimedReveal {
    /// Number of characters in the text.
    pub total: usize,
    /// Characters shown in the latest frame.
    pub shown: usize,
}

impl TimedReveal {
    pub open spec fn wf(&self) -> bool {
        self.shown <= self.total
    }

    pub fn new(text: &str) -> (r: TimedReveal)
        ensures
            r.wf(),
            r.total == text@.len(),
            r.shown == 0,
    {
        TimedReveal { total: text.unicode_len(), shown: 0 }
    }

    /// Computes the frame drawn `elapsed_ms` after the start: returns how many
    /// characters it shows.
    pub fn frame(&mut self, elapsed_ms: u64) -> (r: usize)
        requires
            old(self).wf(),
        ensures
            final(self).wf(),
            final(self).total == old(self).total,
            r == shown_after(elapsed_ms, old(self).total),
            final(self).shown == r,
    {
        self.shown = shown_at(elapsed_ms, self.total);
        self.shown
    }

    /// Whether the latest frame shows the whole text, so that a longer poll
    /// follows the frame poll.
    pub fn holding(&self) -> (r: bool)
        ensures
            r == (self.shown >= self.total),
    {
        self.shown >= self.total
    }

    /// How the reveal ends when dismissed after the latest frame.
    pub fn dismissed_outcome(&self) -> (r: Outcome)
        ensures
            r == (if self.shown >= self.total {
                Outcome::Completed
            } else {
                Outcome::Cancelled
            }),
    {
        if self.shown >= self.total {
            Outcome::Completed
        } else {
            Outcome::Cancelled
        }
    }
}

/// The number of characters shown never decreases as time goes on, and the
/// whole text is shown from `total * REVEAL_MS_PER_CHAR` milliseconds on.
pub proof fn lemma_shown_monotonic_and_saturates(t1: u64, t2: u64, total: usize)
    ensures
        t1 <= t2 ==> shown_after(t1, total) <= shown_after(t2, total),
        t1 >= total * REVEAL_MS_PER_CHAR ==> shown_after(t1, total) == total,
{
    if t1 <= t2 {
        assert(t1 / 8 <= t2 / 8) by (nonlinear_arith)
            requires
                t1 <= t2,
        ;
    }
    if t1 >= total * REVEAL_MS_PER_CHAR {
        assert(t1 / 8 >= total) by (nonlinear_arith)
            requires
                t1 >= total * 8,
        ;
    }
}

} // verus!
