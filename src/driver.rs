use vstd::prelude::*;

use crate::session::{enter_sequence, TermCommand, TerminalGuard};

verus! {

/// How a text is revealed.
#[derive(Clone, Copy, Debug, PartialEq, Eq, Structural)]
pub enum Mode {
    /// One character at a time, `delay_ms` apart.
    CharacterPaced { delay_ms: u64 },
    /// A prefix that grows with the time since the start, redrawn each frame.
    TimeDriven,
}

/// The commands that open a presentation in `mode`, in order: the session
/// with the cursor hidden, then a clear for the character-paced reveal only
/// (the time-driven reveal redraws whole frames itself).
pub open spec fn setup_sequence(mode: Mode) -> Seq<TermCommand> {
    enter_sequence(true) + match mode {
        Mode::CharacterPaced { .. } => seq![TermCommand::ClearAll],
        Mode::TimeDriven => Seq::empty(),
    }
}

/// The commands that open a presentation in `mode`, in order.
pub fn setup_commands(mode: Mode) -> (r: Vec<TermCommand>)
    ensures
        r@ == setup_sequence(mode),
{
    let mut r = TerminalGuard::enter_commands(true);
    if let Mode::CharacterPaced { .. } = mode {
        r.push(TermCommand::ClearAll);
    }
    assert(r@ =~= setup_sequence(mode));
    r
}

} // verus!
