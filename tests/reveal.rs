use unveilox::input::{dismisses, is_exit_key, InputEvent, Key, KeyInput};
use unveilox::timed::{shown_at, visible_prefix, TimedReveal};
use unveilox::typewriter::{accent_at, Accent, Emission, Outcome, Phase, Typewriter};

fn print(ch: char, accent: Accent) -> Option<Emission> {
    Some(Emission::Print { ch, accent })
}

#[test]
fn dismiss_on_first_poll_cancels_after_one_character() {
    let mut tw = Typewriter::new("AB\nCD", 1);
    assert_eq!(tw.emit(), print('A', Accent::Magenta));
    assert_eq!(tw.poll_timeout(), 1);
    tw.observe(true);
    assert_eq!(tw.outcome(), Some(Outcome::Cancelled));
    assert_eq!((tw.col, tw.row), (1, 0));
    assert_eq!(tw.emit(), None);
}

#[test]
fn full_reveal_completes_only_after_dismiss_in_hold() {
    let mut tw = Typewriter::new("AB\nCD", 1);
    let mut drawn = Vec::new();
    while tw.phase == Phase::Revealing {
        if let Some(e) = tw.emit() {
            drawn.push(e);
        }
        tw.observe(false);
    }
    assert_eq!(
        drawn,
        vec![
            Emission::Print { ch: 'A', accent: Accent::Magenta },
            Emission::Print { ch: 'B', accent: Accent::Plain },
            Emission::MoveTo { col: 0, row: 1 },
            Emission::Print { ch: 'C', accent: Accent::Blue },
            Emission::Print { ch: 'D', accent: Accent::Plain },
        ]
    );
    assert_eq!(tw.phase, Phase::Holding);
    assert_eq!(tw.poll_timeout(), 100);
    tw.observe(false);
    assert_eq!(tw.outcome(), None);
    tw.observe(true);
    assert_eq!(tw.outcome(), Some(Outcome::Completed));
}

#[test]
fn empty_text_goes_straight_to_hold() {
    let mut tw = Typewriter::new("", 5);
    assert_eq!(tw.phase, Phase::Holding);
    assert_eq!(tw.emit(), None);
    tw.observe(true);
    assert_eq!(tw.outcome(), Some(Outcome::Completed));
}

#[test]
fn accent_follows_position_rule() {
    assert_eq!(accent_at(0, 0), Accent::Magenta);
    assert_eq!(accent_at(3, 4), Accent::Magenta);
    assert_eq!(accent_at(5, 1), Accent::Blue);
    assert_eq!(accent_at(10, 0), Accent::Blue);
    assert_eq!(accent_at(7, 0), Accent::Magenta);
    assert_eq!(accent_at(2, 0), Accent::Plain);
}

#[test]
fn accent_is_the_same_on_a_rerun() {
    let run = |text: &str| {
        let mut tw = Typewriter::new(text, 3);
        let mut out = Vec::new();
        while let Some(e) = tw.emit() {
            out.push(e);
        }
        out
    };
    assert_eq!(run("hello\nworld"), run("hello\nworld"));
    let a = run("xyz");
    let b = run("abc");
    for (ea, eb) in a.iter().zip(b.iter()) {
        match (ea, eb) {
            (Emission::Print { accent: x, .. }, Emission::Print { accent: y, .. }) => {
                assert_eq!(x, y)
            }
            _ => panic!("expected printed characters"),
        }
    }
}

#[test]
fn shown_grows_with_time_and_saturates() {
    assert_eq!(shown_at(0, 10), 0);
    assert_eq!(shown_at(7, 10), 0);
    assert_eq!(shown_at(16, 10), 2);
    assert_eq!(shown_at(80, 10), 10);
    assert_eq!(shown_at(u64::MAX, 10), 10);
    let mut last = 0;
    for t in 0..200u64 {
        let s = shown_at(t, 10);
        assert!(s >= last);
        last = s;
    }
    assert_eq!(shown_at(5, 0), 0);
}

#[test]
fn timed_reveal_holds_once_complete() {
    let mut tr = TimedReveal::new("héllo");
    assert_eq!(tr.total, 5);
    assert_eq!(tr.frame(16), 2);
    assert!(!tr.holding());
    assert_eq!(tr.dismissed_outcome(), Outcome::Cancelled);
    assert_eq!(tr.frame(40), 5);
    assert!(tr.holding());
    assert_eq!(tr.dismissed_outcome(), Outcome::Completed);
}

#[test]
fn visible_prefix_counts_characters() {
    assert_eq!(visible_prefix("héllo", 2), "hé");
    assert_eq!(visible_prefix("héllo", 0), "");
    assert_eq!(visible_prefix("héllo", 99), "héllo");
}

#[test]
fn dismiss_keys_are_classified() {
    let key = |key, ctrl| KeyInput { key, ctrl, press: true };
    assert!(is_exit_key(&key(Key::Esc, false)));
    assert!(is_exit_key(&key(Key::Enter, false)));
    assert!(is_exit_key(&key(Key::Char('q'), false)));
    assert!(is_exit_key(&key(Key::Char('c'), true)));
    assert!(!is_exit_key(&key(Key::Char('c'), false)));
    assert!(!is_exit_key(&key(Key::Char('Q'), false)));
    assert!(!is_exit_key(&key(Key::Other, true)));
    assert!(!is_exit_key(&KeyInput { key: Key::Char('q'), ctrl: false, press: false }));
    assert!(!dismisses(&None));
    assert!(!dismisses(&Some(InputEvent::Resize { cols: 80, rows: 24 })));
    assert!(!dismisses(&Some(InputEvent::Other)));
    assert!(dismisses(&Some(InputEvent::Key(key(Key::Esc, false)))));
}

#[test]
fn runs_with_different_delays_draw_the_same() {
    let run = |delay: u64, dismiss_at: usize| {
        let mut tw = Typewriter::new("one\ntwo three\nfour", delay);
        let mut out = Vec::new();
        let mut step = 0;
        while tw.phase == Phase::Revealing {
            if let Some(e) = tw.emit() {
                out.push(e);
            }
            tw.observe(step == dismiss_at);
            step += 1;
        }
        (out, tw.col, tw.row)
    };
    assert_eq!(run(1, 6), run(1000, 6));
    assert_eq!(run(3, usize::MAX), run(250, usize::MAX));
    let (full, _, row) = run(7, usize::MAX);
    assert_eq!(full.len(), 18);
    assert_eq!(row, 2);
}
