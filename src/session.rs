use vstd::prelude::*;

verus! {

/// A command to the terminal device that changes or uses the session.
#[derive(Clone, Copy, Debug, PartialEq, Eq, Structural)]
pub enum TermCommand {
    EnterAlternateScreen,
    EnableRawMode,
    HideCursor,
    /// Clear the visible area and move the draw cursor to the origin.
    ClearAll,
    ShowCursor,
    DisableRawMode,
    LeaveAlternateScreen,
}

/// The three session flags of the terminal. A flag is set once the command
/// that acquires it was performed, and cleared once the command that
/// releases it was.
#[derive(Clone, Copy, Debug, PartialEq, Eq, Structural)]
pub struct TerminalGuard {
    pub raw_mode: bool,
    pub alt_screen: bool,
    pub cursor_hidden: bool,
}

/// The session flags after `cmd` was performed successfully.
pub open spec fn after(g: TerminalGuard, cmd: TermCommand) -> TerminalGuard {
    match cmd {
        TermCommand::EnterAlternateScreen => TerminalGuard { alt_screen: true, ..g },
        TermCommand::EnableRawMode => TerminalGuard { raw_mode: true, ..g },
        TermCommand::HideCursor => TerminalGuard { cursor_hidden: true, ..g },
        TermCommand::ClearAll => g,
        TermCommand::ShowCursor => TerminalGuard { cursor_hidden: false, ..g },
        TermCommand::DisableRawMode => TerminalGuard { raw_mode: false, ..g },
        TermCommand::LeaveAlternateScreen => TerminalGuard { alt_screen: false, ..g },
    }
}

/// No flag set: nothing is owed to the terminal.
pub open spec fn released() -> TerminalGuard {
    TerminalGuard { raw_mode: false, alt_screen: false, cursor_hidden: false }
}

/// The commands that acquire a session, in order.
pub open spec fn enter_sequence(hide_cursor: bool) -> Seq<TermCommand> {
    seq![TermCommand::EnterAlternateScreen, TermCommand::EnableRawMode] + if hide_cursor {
        seq![TermCommand::HideCursor]
    } else {
        Seq::empty()
    }
}

/// The releases owed by `g`, in the order show cursor, disable raw mode,
/// leave the alternate screen.
pub open spec fn owed_releases(g: TerminalGuard) -> Seq<TermCommand> {
    (if g.cursor_hidden {
        seq![TermCommand::ShowCursor]
    } else {
        Seq::empty()
    }) + (if g.raw_mode {
        seq![TermCommand::DisableRawMode]
    } else {
        Seq::empty()
    }) + (if g.alt_screen {
        seq![TermCommand::LeaveAlternateScreen]
    } else {
        Seq::empty()
    })
}

/// Whether the `i`-th command was reported performed.
pub open spec fn done(performed: Seq<bool>, i: int) -> bool {
    0 <= i < performed.len() && performed[i]
}

/// `g` after the first `n` of `cmds`, each applied only where it was
/// performed.
pub open spec fn apply_done(
    g: TerminalGuard,
    cmds: Seq<TermCommand>,
    performed: Seq<bool>,
    n: int,
) -> TerminalGuard
    decreases n,
{
    if n <= 0 {
        g
    } else {
        let h = apply_done(g, cmds, performed, n - 1);
        if done(performed, n - 1) {
            after(h, cmds[n - 1])
        } else {
            h
        }
    }
}

/// The index of the first command from `i` on, below `n`, that was not
/// performed; `n` when all were.
pub open spec fn first_undone(performed: Seq<bool>, i: int, n: int) -> int
    decreases n - i,
{
    if i >= n {
        n
    } else if done(performed, i) {
        first_undone(performed, i + 1, n)
    } else {
        i
    }
}

/// Session flags after `finish`, given which owed releases were performed.
pub open spec fn finish_state(g: TerminalGuard, performed: Seq<bool>) -> TerminalGuard {
    let owed = owed_releases(g);
    apply_done(g, owed, performed, first_undone(performed, 0, owed.len() as int))
}

/// What `finish` returns, given which owed releases were performed: the
/// first release that failed, if any.
pub open spec fn finish_result(g: TerminalGuard, performed: Seq<bool>) -> Result<(), TermCommand> {
    let owed = owed_releases(g);
    let k = first_undone(performed, 0, owed.len() as int);
    if k < owed.len() {
        Err(owed[k])
    } else {
        Ok(())
    }
}

/// Session flags after a best-effort teardown, given which owed releases
/// were performed.
pub open spec fn teardown_state(g: TerminalGuard, performed: Seq<bool>) -> TerminalGuard {
    let owed = owed_releases(g);
    apply_done(g, owed, performed, owed.len() as int)
}

impl TerminalGuard {
    /// A guard that owes nothing: no flag set.
    pub fn new() -> (r: TerminalGuard)
        ensures
            r == released(),
    {
        TerminalGuard { raw_mode: false, alt_screen: false, cursor_hidden: false }
    }

    /// The commands that acquire a session, in order: the alternate screen,
    /// raw mode, and the hidden cursor where `hide_cursor` asks for it.
    pub fn enter_commands(hide_cursor: bool) -> (r: Vec<TermCommand>)
        ensures
            r@ == enter_sequence(hide_cursor),
    {
        let mut r: Vec<TermCommand> = Vec::new();
        r.push(TermCommand::EnterAlternateScreen);
        r.push(TermCommand::EnableRawMode);
        if hide_cursor {
            r.push(TermCommand::HideCursor);
        }
        assert(r@ =~= enter_sequence(hide_cursor));
        r
    }

    /// Records that `cmd` was performed successfully.
    pub fn record(&mut self, cmd: TermCommand)
        ensures
            *final(self) == after(*old(self), cmd),
    {
        match cmd {
            TermCommand::EnterAlternateScreen => self.alt_screen = true,
            TermCommand::EnableRawMode => self.raw_mode = true,
            TermCommand::HideCursor => self.cursor_hidden = true,
            TermCommand::ClearAll => {},
            TermCommand::ShowCursor => self.cursor_hidden = false,
            TermCommand::DisableRawMode => self.raw_mode = false,
            TermCommand::LeaveAlternateScreen => self.alt_screen = false,
        }
    }

    /// The command that shows the cursor, only while it is hidden.
    pub fn show_cursor(&self) -> (r: Option<TermCommand>)
        ensures
            r == (if self.cursor_hidden {
                Some(TermCommand::ShowCursor)
            } else {
                None
            }),
    {
        if self.cursor_hidden {
            Some(TermCommand::ShowCursor)
        } else {
            None
        }
    }

    /// The command that disables raw mode, only while it is enabled.
    pub fn disable_raw_mode(&self) -> (r: Option<TermCommand>)
        ensures
            r == (if self.raw_mode {
                Some(TermCommand::DisableRawMode)
            } else {
                None
            }),
    {
        if self.raw_mode {
            Some(TermCommand::DisableRawMode)
        } else {
            None
        }
    }

    /// The command that leaves the alternate screen, only while in it.
    pub fn leave_alt_screen(&self) -> (r: Option<TermCommand>)
        ensures
            r == (if self.alt_screen {
                Some(TermCommand::LeaveAlternateScreen)
            } else {
                None
            }),
    {
        if self.alt_screen {
            Some(TermCommand::LeaveAlternateScreen)
        } else {
            None
        }
    }

    /// The releases owed, in the order they must be performed.
    pub fn release_commands(&self) -> (r: Vec<TermCommand>)
        ensures
            r@ == owed_releases(*self),
    {
        let mut r: Vec<TermCommand> = Vec::new();
        if let Some(c) = self.show_cursor() {
            r.push(c);
        }
        if let Some(c) = self.disable_raw_mode() {
            r.push(c);
        }
        if let Some(c) = self.leave_alt_screen() {
            r.push(c);
        }
        assert(r@ =~= owed_releases(*self));
        r
    }

    /// Takes the outcome of performing `release_commands()` in order,
    /// stopping at the first failure: `performed[i]` tells whether the `i`-th
    /// succeeded, and a missing entry counts as not performed. Clears the
    /// flags of the releases before the first failure, and returns that
    /// failed release as the error.
    pub fn finish(&mut self, performed: &Vec<bool>) -> (r: Result<(), TermCommand>)
        ensures
            *final(self) == finish_state(*old(self), performed@),
            r == finish_result(*old(self), performed@),
    {
        let owed = self.release_commands();
        let ghost g = *self;
        let n = owed.len();
        let mut i: usize = 0;
        while i < n
            invariant
                g == *old(self),
                owed@ == owed_releases(g),
                n == owed@.len(),
                i <= n,
                first_undone(performed@, 0, n as int) == first_undone(performed@, i as int, n as int),
                *self == apply_done(g, owed@, performed@, i as int),
            decreases n - i,
        {
            if i >= performed.len() || !performed[i] {
                assert(!done(performed@, i as int));
                assert(first_undone(performed@, i as int, n as int) == i);
                return Err(owed[i]);
            }
            self.record(owed[i]);
            i = i + 1;
        }
        Ok(())
    }

    /// Takes the outcome of attempting every one of `release_commands()` in
    /// order, whatever came before: clears the flag of each release that
    /// succeeded and keeps those of the others. Never fails.
    pub fn teardown(&mut self, performed: &Vec<bool>)
        ensures
            *final(self) == teardown_state(*old(self), performed@),
    {
        let owed = self.release_commands();
        let ghost g = *self;
        let n = owed.len();
        let mut i: usize = 0;
        while i < n
            invariant
                g == *old(self),
                owed@ == owed_releases(g),
                n == owed@.len(),
                i <= n,
                *self == apply_done(g, owed@, performed@, i as int),
            decreases n - i,
        {
            if i < performed.len() && performed[i] {
                self.record(owed[i]);
            }
            i = i + 1;
        }
    }
}

/// Teardown restores every session flag: once all owed releases succeed,
/// whether through `finish` or through a best-effort teardown after a failure
/// elsewhere, no flag is left set.
pub proof fn lemma_teardown_restores_all(g: TerminalGuard, performed: Seq<bool>)
    requires
        forall|i: int| 0 <= i < owed_releases(g).len() ==> done(performed, i),
    ensures
        teardown_state(g, performed) == released(),
        finish_state(g, performed) == released(),
        finish_result(g, performed) == Ok::<(), TermCommand>(()),
{
    reveal_with_fuel(apply_done, 4);
    reveal_with_fuel(first_undone, 4);
    let owed = owed_releases(g);
    assert(owed.len() <= 3);
    assert(first_undone(performed, 0, owed.len() as int) == owed.len());
}

/// Teardown is idempotent: a guard that owes nothing asks for no command,
/// and `finish` or a teardown on it succeeds and changes nothing. After a
/// `finish` that succeeded, that is the case.
pub proof fn lemma_teardown_idempotent(g: TerminalGuard, first: Seq<bool>, again: Seq<bool>)
    ensures
        finish_result(g, first) is Ok ==> finish_state(g, first) == released(),
        owed_releases(released()).len() == 0,
        finish_state(released(), again) == released(),
        finish_result(released(), again) == Ok::<(), TermCommand>(()),
        teardown_state(released(), again) == released(),
{
    reveal_with_fuel(apply_done, 4);
    reveal_with_fuel(first_undone, 4);
    let owed = owed_releases(g);
    assert(owed_releases(released()) =~= Seq::<TermCommand>::empty());
    if finish_result(g, first) is Ok {
        assert(first_undone(first, 0, owed.len() as int) >= owed.len());
        assert(forall|i: int| 0 <= i < owed.len() ==> done(first, i)) by {
            assert forall|i: int| 0 <= i < owed.len() implies done(first, i) by {
                if !done(first, i) {
                    assert(first_undone(first, 0, owed.len() as int) <= i);
                }
            }
        }
        lemma_teardown_restores_all(g, first);
    }
}

} // verus!
