use vstd::prelude::*;

verus! {

/// The key of a key event, as far as dismissal is concerned.
#[derive(Clone, Copy, Debug, PartialEq, Eq, Structural)]
pub enum Key {
    Esc,
    Enter,
    Char(char),
    /// Any other key.
    Other,
}

/// A key event: the key, whether the control modifier was held, and whether
/// the key went down (not a release or a repeat).
#[derive(Clone, Copy, Debug, PartialEq, Eq, Structural)]
pub struct KeyInput {
    pub key: Key,
    pub ctrl: bool,
    pub press: bool,
}

/// An input event from the terminal.
#[derive(Clone, Copy, Debug, PartialEq, Eq, Structural)]
pub enum InputEvent {
    Key(KeyInput),
    Resize { cols: u16, rows: u16 },
    /// Any other event (mouse, focus, paste).
    Other,
}

/// A press of Escape, Enter, `q`, or `c` with control: the keys that end a
/// presentation.
pub open spec fn is_dismiss_key(k: KeyInput) -> bool {
    k.press && match k.key {
        Key::Esc | Key::Enter => true,
        Key::Char(c) => c == 'q' || (c == 'c' && k.ctrl),
        Key::Other => false,
    }
}

/// Whether what a poll saw (`None`: no event within the window) dismisses.
pub open spec fn is_dismissal(event: Option<InputEvent>) -> bool {
    match event {
        Some(InputEvent::Key(k)) => is_dismiss_key(k),
        _ => false,
    }
}

/// Whether `key` ends a presentation.
pub fn is_exit_key(key: &KeyInput) -> (r: bool)
    ensures
        r == is_dismiss_key(*key),
{
    if !key.press {
        return false;
    }
    match key.key {
        Key::Esc | Key::Enter => true,
        Key::Char(c) => c == 'q' || (c == 'c' && key.ctrl),
        Key::Other => false,
    }
}

/// Whether what a poll saw dismisses: only a dismissing key does; no event, a
/// resize or any other event does not.
pub fn dismisses(event: &Option<InputEvent>) -> (r: bool)
    ensures
        r == is_dismissal(*event),
{
    match event {
        Some(InputEvent::Key(k)) => is_exit_key(k),
        _ => false,
    }
}

} // verus!
