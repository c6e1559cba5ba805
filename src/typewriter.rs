use vstd::prelude::*;

use crate::text::chars_of;

verus! {

/// Colour given to a printed character.
#[derive(Clone, Copy, Debug, PartialEq, Eq, Structural)]
pub enum Accent {
    Magenta,
    Blue,
    Plain,
}

/// One thing the character-paced reveal draws.
#[derive(Clone, Copy, Debug, PartialEq, Eq, Structural)]
pub enum Emission {
    /// Move the draw cursor; used for a line break, which prints nothing.
    MoveTo { col: u16, row: u16 },
    /// Print one character in the given accent.
    Print { ch: char, accent: Accent },
}

/// How a presentation ended.
#[derive(Clone, Copy, Debug, PartialEq, Eq, Structural)]
pub enum Outcome {
    /// Everything was revealed and then dismissed.
    Completed,
    /// Dismissed before everything was revealed.
    Cancelled,
}

/// Where a character-paced reveal stands.
#[derive(Clone, Copy, Debug, PartialEq, Eq, Structural)]
pub enum Phase {
    Revealing,
    Holding,
    Finished(Outcome),
}

/// Poll timeout, in milliseconds, while the fully revealed text is held.
pub const HOLD_POLL_MS: u64 = 100;

pub const MIN_DELAY_MS: u64 = 1;

pub const MAX_DELAY_MS: u64 = 1000;

/// The accent of a printed character at logical position `(col, row)`.
pub open spec fn accent_for(col: u16, row: u16) -> Accent {
    if (col as int + row as int) % 7 == 0 {
        Accent::Magenta
    } else if col as int % 5 == 0 {
        Accent::Blue
    } else {
        Accent::Plain
    }
}

pub open spec fn saturating_inc(x: u16) -> u16 {
    if x < u16::MAX {
        (x + 1) as u16
    } else {
        x
    }
}

/// The logical position after `c` is handled at `pos`: a line break starts the
/// next row, any other character moves one column on.
pub open spec fn advance(pos: (u16, u16), c: char) -> (u16, u16) {
    if c == '\n' {
        (0, saturating_inc(pos.1))
    } else {
        (saturating_inc(pos.0), pos.1)
    }
}

/// The logical position after all of `s` is handled, starting at the origin.
pub open spec fn position_after(s: Seq<char>) -> (u16, u16)
    decreases s.len(),
{
    if s.len() == 0 {
        (0, 0)
    } else {
        advance(position_after(s.drop_last()), s.last())
    }
}

/// What is drawn for `c` when it is handled at `pos`.
pub open spec fn emission_for(pos: (u16, u16), c: char) -> Emission {
    if c == '\n' {
        Emission::MoveTo { col: 0, row: saturating_inc(pos.1) }
    } else {
        Emission::Print { ch: c, accent: accent_for(pos.0, pos.1) }
    }
}

/// Everything the character-paced reveal of `s` draws, in order: the
/// emission of each character at the position its prefix reaches.
pub open spec fn reveal_script(s: Seq<char>) -> Seq<Emission> {
    Seq::new(s.len(), |i: int| emission_for(position_after(s.take(i)), s[i]))
}

/// The accent of a printed character at logical position `(col, row)`.
pub fn accent_at(col: u16, row: u16) -> (r: Accent)
    ensures
        r == accent_for(col, row),
{
    if (col as u32 + row as u32) % 7 == 0 {
        Accent::Magenta
    } else if col % 5 == 0 {
        Accent::Blue
    } else {
        Accent::Plain
    }
}

/// Character-paced reveal: each character is drawn, then a poll waits
/// `delay_ms` for a dismissal.
pub struct Typewriter {
    pub text: Vec<char>,
    /// Index of the next character to draw.
    pub next: usize,
    pub col: u16,
    pub row: u16,
    pub delay_ms: u64,
    pub phase: Phase,
    /// What has been drawn so far.
    pub drawn: Ghost<Seq<Emission>>,
}

impl Typewriter {
    pub open spec fn wf(&self) -> bool {
        &&& self.next <= self.text@.len()
        &&& (self.col, self.row) == position_after(self.text@.take(self.next as int))
        &&& MIN_DELAY_MS <= self.delay_ms <= MAX_DELAY_MS
        &&& self.phase == Phase::Holding ==> self.next == self.text@.len()
        &&& self.drawn@ == reveal_script(self.text@).take(self.next as int)
    }

    /// A reveal of `text` at the origin, with `delay_ms` per character. An
    /// empty text goes straight to holding.
    pub fn new(text: &str, delay_ms: u64) -> (r: Typewriter)
        requires
            MIN_DELAY_MS <= delay_ms <= MAX_DELAY_MS,
        ensures
            r.wf(),
            r.text@ == text@,
            r.next == 0,
            r.delay_ms == delay_ms,
            r.drawn@ == Seq::<Emission>::empty(),
            r.phase == (if text@.len() == 0 {
                Phase::Holding
            } else {
                Phase::Revealing
            }),
    {
        let chars = chars_of(text);
        let phase = if chars.len() == 0 {
            Phase::Holding
        } else {
            Phase::Revealing
        };
        let r = Typewriter {
            text: chars,
            next: 0,
            col: 0,
            row: 0,
            delay_ms,
            phase,
            drawn: Ghost(Seq::empty()),
        };
        assert(r.text@.take(0) =~= Seq::<char>::empty());
        assert(reveal_script(r.text@).take(0) =~= Seq::<Emission>::empty());
        r
    }

    /// Draws the next character while revealing: returns what to draw and
    /// moves the logical position on. Returns `None`, changing nothing, when
    /// not revealing or when every character has been drawn.
    pub fn emit(&mut self) -> (r: Option<Emission>)
        requires
            old(self).wf(),
        ensures
            final(self).wf(),
            final(self).text == old(self).text,
            final(self).delay_ms == old(self).delay_ms,
            final(self).phase == old(self).phase,
            if old(self).phase == Phase::Revealing && old(self).next < old(self).text@.len() {
                &&& r == Some(
                    emission_for(
                        (old(self).col, old(self).row),
                        old(self).text@[old(self).next as int],
                    ),
                )
                &&& final(self).next == old(self).next + 1
                &&& final(self).drawn@ == old(self).drawn@.push(r->Some_0)
            } else {
                r is None && *final(self) == *old(self)
            },
    {
        if self.phase != Phase::Revealing || self.next >= self.text.len() {
            return None;
        }
        let c = self.text[self.next];
        let ghost before = self.text@.take(self.next as int);
        let e = if c == '\n' {
            self.col = 0;
            self.row = self.row.saturating_add(1);
            Emission::MoveTo { col: 0, row: self.row }
        } else {
            let accent = accent_at(self.col, self.row);
            self.col = self.col.saturating_add(1);
            Emission::Print { ch: c, accent }
        };
        self.next = self.next + 1;
        assert(self.text@.take(self.next as int).drop_last() =~= before);
        self.drawn = Ghost(self.drawn@.push(e));
        assert(reveal_script(self.text@).take(self.next as int) =~= reveal_script(self.text@).take(
            self.next - 1,
        ).push(e));
        Some(e)
    }

    /// How long the next poll may wait, in milliseconds.
    pub fn poll_timeout(&self) -> (r: u64)
        ensures
            r == (if self.phase == Phase::Revealing {
                self.delay_ms
            } else {
                HOLD_POLL_MS
            }),
    {
        if self.phase == Phase::Revealing {
            self.delay_ms
        } else {
            HOLD_POLL_MS
        }
    }

    /// Takes the result of a poll. While revealing, a dismissal cancels and
    /// otherwise, once every character is drawn, the reveal starts holding;
    /// while holding, a dismissal completes.
    pub fn observe(&mut self, dismissed: bool)
        requires
            old(self).wf(),
        ensures
            final(self).wf(),
            final(self).text == old(self).text,
            final(self).next == old(self).next,
            final(self).col == old(self).col,
            final(self).row == old(self).row,
            final(self).delay_ms == old(self).delay_ms,
            final(self).drawn == old(self).drawn,
            final(self).phase == (match old(self).phase {
                Phase::Revealing => if dismissed {
                    Phase::Finished(Outcome::Cancelled)
                } else if old(self).next == old(self).text@.len() {
                    Phase::Holding
                } else {
                    Phase::Revealing
                },
                Phase::Holding => if dismissed {
                    Phase::Finished(Outcome::Completed)
                } else {
                    Phase::Holding
                },
                Phase::Finished(o) => Phase::Finished(o),
            }),
    {
        match self.phase {
            Phase::Revealing => {
                if dismissed {
                    self.phase = Phase::Finished(Outcome::Cancelled);
                } else if self.next == self.text.len() {
                    self.phase = Phase::Holding;
                }
            },
            Phase::Holding => {
                if dismissed {
                    self.phase = Phase::Finished(Outcome::Completed);
                }
            },
            Phase::Finished(_) => {},
        }
    }

    /// The outcome, once the reveal has finished.
    pub fn outcome(&self) -> (r: Option<Outcome>)
        ensures
            r == (match self.phase {
                Phase::Finished(o) => Some(o),
                _ => None,
            }),
    {
        match self.phase {
            Phase::Finished(o) => Some(o),
            _ => None,
        }
    }
}

} // verus!

verus! {

/// The accent of a printed character depends on its logical position alone:
/// two texts, whatever their characters and however they are paced, print in
/// the same accent wherever they reach the same position.
pub proof fn lemma_accent_depends_on_position_only(s1: Seq<char>, i: int, s2: Seq<char>, j: int)
    requires
        0 <= i < s1.len(),
        0 <= j < s2.len(),
        s1[i] != '\n',
        s2[j] != '\n',
        position_after(s1.take(i)) == position_after(s2.take(j)),
    ensures
        emission_for(position_after(s1.take(i)), s1[i]) matches Emission::Print { ch: _, accent: a1 }
            && emission_for(position_after(s2.take(j)), s2[j]) matches Emission::Print {
            ch: _,
            accent: a2,
        } && a1 == a2 && a1 == accent_for(position_after(s1.take(i)).0, position_after(s1.take(i)).1),
{
}

} // verus!

verus! {

/// A character-paced reveal draws the script of its text and nothing else:
/// two reveals of one text that have handled equally many characters have
/// drawn the same emissions, in the same order and accents, and stand at the
/// same position, whatever their delays and however their polls were timed.
pub proof fn lemma_reveal_follows_script(a: Typewriter, b: Typewriter)
    requires
        a.wf(),
        b.wf(),
        a.text@ == b.text@,
        a.next == b.next,
    ensures
        a.drawn@ == reveal_script(a.text@).take(a.next as int),
        a.drawn@ == b.drawn@,
        (a.col, a.row) == (b.col, b.row),
{
}

} // verus!
