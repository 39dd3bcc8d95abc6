use linkclihost::controls::{
    action_for_key, headless_step, listing, reason_for, shutdown_reason, ui_mode, ui_step, Action,
    Key, UiStep, HEADLESS_TICK_MS, TICK_MS,
};
use std::sync::atomic::AtomicBool;

#[test]
fn keys_map_to_actions() {
    assert_eq!(action_for_key(Key::Char('q')), Some(Action::Quit));
    assert_eq!(action_for_key(Key::Char('Q')), Some(Action::Quit));
    assert_eq!(action_for_key(Key::Esc), Some(Action::Quit));
    assert_eq!(action_for_key(Key::Char(' ')), Some(Action::TogglePlay));
    assert_eq!(action_for_key(Key::Char('p')), Some(Action::NextPreset));
    assert_eq!(action_for_key(Key::Char('M')), Some(Action::ToggleMute));
    assert_eq!(action_for_key(Key::Char('+')), Some(Action::TempoUp));
    assert_eq!(action_for_key(Key::Char('=')), Some(Action::TempoUp));
    assert_eq!(action_for_key(Key::Char('-')), Some(Action::TempoDown));
    assert_eq!(action_for_key(Key::Char('x')), None);
    assert_eq!(action_for_key(Key::Other), None);
}

#[test]
fn session_end_reasons() {
    assert_eq!(reason_for(true), "sigint");
    assert_eq!(reason_for(false), "normal");
    assert_eq!(shutdown_reason(&AtomicBool::new(true)), "sigint");
    assert_eq!(shutdown_reason(&AtomicBool::new(false)), "normal");
}

#[test]
fn device_listings() {
    assert_eq!(listing("MIDI output ports", &Vec::new()), vec!["no MIDI output ports found".to_string()]);
    assert_eq!(
        listing("audio output devices", &vec!["default".to_string(), "pulse".to_string()]),
        vec![
            "audio output devices:".to_string(),
            "  [0] default".to_string(),
            "  [1] pulse".to_string()
        ]
    );
}

#[test]
fn dashboard_redraws_every_tick_and_polls_between() {
    assert_eq!(TICK_MS, 33);
    assert_eq!(ui_step(false, 0, 0), UiStep::Draw { next_tick_ms: 33 });
    assert_eq!(ui_step(false, 10, 33), UiStep::Poll { wait_ms: 23 });
    assert_eq!(ui_step(false, 40, 33), UiStep::Draw { next_tick_ms: 73 });
    assert_eq!(ui_step(true, 10, 33), UiStep::Stop);
    assert_eq!(ui_step(true, 40, 33), UiStep::Stop);
}

#[test]
fn headless_prints_once_a_second() {
    assert_eq!(HEADLESS_TICK_MS, 1000);
    assert_eq!(headless_step(false, 0, 0), UiStep::Draw { next_tick_ms: 1000 });
    assert_eq!(headless_step(false, 250, 1000), UiStep::Poll { wait_ms: 750 });
    assert_eq!(headless_step(false, 1003, 1000), UiStep::Draw { next_tick_ms: 2003 });
    assert_eq!(headless_step(true, 0, 0), UiStep::Stop);
}

#[test]
fn non_terminal_stdout_falls_back_to_headless() {
    assert_eq!(ui_mode(false, true), (false, false));
    assert_eq!(ui_mode(true, true), (true, false));
    assert_eq!(ui_mode(false, false), (true, true));
    assert_eq!(ui_mode(true, false), (true, false));
}
