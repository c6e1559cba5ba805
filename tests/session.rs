use unveilox::driver::{setup_commands, Mode};
use unveilox::session::{TermCommand, TerminalGuard};

fn entered(hide_cursor: bool) -> TerminalGuard {
    let mut guard = TerminalGuard::new();
    for cmd in TerminalGuard::enter_commands(hide_cursor) {
        guard.record(cmd);
    }
    guard
}

fn all_released(g: &TerminalGuard) -> bool {
    !g.raw_mode && !g.alt_screen && !g.cursor_hidden
}

#[test]
fn enter_acquires_in_order() {
    assert_eq!(
        TerminalGuard::enter_commands(true),
        vec![
            TermCommand::EnterAlternateScreen,
            TermCommand::EnableRawMode,
            TermCommand::HideCursor
        ]
    );
    assert_eq!(
        TerminalGuard::enter_commands(false),
        vec![TermCommand::EnterAlternateScreen, TermCommand::EnableRawMode]
    );
    let g = entered(true);
    assert!(g.raw_mode && g.alt_screen && g.cursor_hidden);
    assert!(!entered(false).cursor_hidden);
}

#[test]
fn releases_come_in_order() {
    let g = entered(true);
    assert_eq!(
        g.release_commands(),
        vec![
            TermCommand::ShowCursor,
            TermCommand::DisableRawMode,
            TermCommand::LeaveAlternateScreen
        ]
    );
    assert_eq!(
        entered(false).release_commands(),
        vec![TermCommand::DisableRawMode, TermCommand::LeaveAlternateScreen]
    );
}

#[test]
fn single_releases_are_idempotent() {
    let mut g = entered(true);
    assert_eq!(g.show_cursor(), Some(TermCommand::ShowCursor));
    g.record(TermCommand::ShowCursor);
    assert_eq!(g.show_cursor(), None);
    assert_eq!(g.disable_raw_mode(), Some(TermCommand::DisableRawMode));
    g.record(TermCommand::DisableRawMode);
    assert_eq!(g.disable_raw_mode(), None);
    assert_eq!(g.leave_alt_screen(), Some(TermCommand::LeaveAlternateScreen));
    g.record(TermCommand::LeaveAlternateScreen);
    assert_eq!(g.leave_alt_screen(), None);
    g.record(TermCommand::ClearAll);
    assert!(all_released(&g));
}

#[test]
fn finish_twice_is_harmless() {
    let mut g = entered(true);
    assert_eq!(g.finish(&vec![true, true, true]), Ok(()));
    assert!(all_released(&g));
    assert!(g.release_commands().is_empty());
    assert_eq!(g.finish(&vec![]), Ok(()));
    assert!(all_released(&g));
    g.teardown(&vec![]);
    assert!(all_released(&g));
}

#[test]
fn finish_stops_at_first_failure() {
    let mut g = entered(true);
    assert_eq!(g.finish(&vec![true, false]), Err(TermCommand::DisableRawMode));
    assert!(!g.cursor_hidden);
    assert!(g.raw_mode);
    assert!(g.alt_screen);
    assert_eq!(
        g.release_commands(),
        vec![TermCommand::DisableRawMode, TermCommand::LeaveAlternateScreen]
    );
}

#[test]
fn teardown_after_mid_reveal_error_restores_all() {
    // The reveal failed part-way: nothing was released yet, and the guard
    // tears down on its way out.
    let mut g = entered(true);
    let owed = g.release_commands();
    let performed: Vec<bool> = owed.iter().map(|_| true).collect();
    g.teardown(&performed);
    assert!(all_released(&g));
}

#[test]
fn teardown_continues_past_a_failed_release() {
    let mut g = entered(true);
    g.teardown(&vec![false, true, true]);
    assert!(g.cursor_hidden);
    assert!(!g.raw_mode);
    assert!(!g.alt_screen);
    g.teardown(&vec![true]);
    assert!(all_released(&g));
}

#[test]
fn failed_finish_then_teardown_restores_all() {
    let mut g = entered(false);
    assert_eq!(g.finish(&vec![false]), Err(TermCommand::DisableRawMode));
    g.teardown(&vec![true, true]);
    assert!(all_released(&g));
}

#[test]
fn only_character_paced_setup_clears() {
    assert_eq!(
        setup_commands(Mode::CharacterPaced { delay_ms: 25 }),
        vec![
            TermCommand::EnterAlternateScreen,
            TermCommand::EnableRawMode,
            TermCommand::HideCursor,
            TermCommand::ClearAll
        ]
    );
    assert_eq!(
        setup_commands(Mode::TimeDriven),
        vec![
            TermCommand::EnterAlternateScreen,
            TermCommand::EnableRawMode,
            TermCommand::HideCursor
        ]
    );
}
