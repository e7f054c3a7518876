use hydration_reminder::{
    to_string_mins_secs, Config, Duration, FSConfig, HydrationReminder, ReminderState, Screen,
    DEFAULT_INTERVAL_SECS,
};

#[test]
fn reminder_scenario() {
    let interval = Duration::from_secs(5);
    let mut state = ReminderState::new(0);
    assert!(!state.poll(3_000, interval));
    assert!(state.poll(6_000, interval));
    assert_eq!(state.reminding_since, 6_000);
    state.acknowledge(6_000);
    assert!(!state.reminding);
    assert_eq!(state.last_acknowledged, 6_000);
    assert!(!state.poll(10_000, interval));
}

#[test]
fn first_poll_does_not_remind() {
    let mut state = ReminderState::new(42);
    assert!(!state.poll(42, Duration::from_secs(5)));
    assert!(!state.armed);
}

#[test]
fn elapsed_equal_to_interval_stays_idle() {
    let mut state = ReminderState::new(1_000);
    assert!(!state.poll(6_000, Duration::from_secs(5)));
    assert!(state.poll(6_001, Duration::from_secs(5)));
}

#[test]
fn zero_interval_reminds_right_after_acknowledge() {
    let mut state = ReminderState::new(0);
    state.acknowledge(100);
    assert!(!state.poll(100, Duration::from_secs(0)));
    assert!(state.poll(101, Duration::from_secs(0)));
}

#[test]
fn reminding_start_is_marked_once() {
    let interval = Duration::from_secs(1);
    let mut state = ReminderState::new(0);
    assert!(state.poll(2_000, interval));
    assert_eq!(state.reminding_since, 2_000);
    assert!(state.poll(3_500, interval));
    assert!(state.poll(9_000, interval));
    assert_eq!(state.reminding_since, 2_000);
    state.acknowledge(9_000);
    assert!(state.armed);
    assert!(state.poll(10_500, interval));
    assert_eq!(state.reminding_since, 10_500);
}

#[test]
fn acknowledge_while_idle_restarts_countdown() {
    let interval = Duration::from_secs(5);
    let mut state = ReminderState::new(0);
    assert!(!state.poll(4_000, interval));
    state.acknowledge(4_000);
    assert!(!state.poll(8_000, interval));
    assert!(state.poll(9_500, interval));
}

#[test]
fn flash_phase_alternates_each_second() {
    let mut state = ReminderState::new(0);
    assert!(state.poll(2_000, Duration::from_secs(1)));
    assert!(state.flash_phase(2_000));
    assert!(state.flash_phase(2_999));
    assert!(!state.flash_phase(3_000));
    assert!(state.flash_phase(4_200));
}

#[test]
fn mins_secs_text() {
    assert_eq!(to_string_mins_secs(&Duration::from_secs(0)), "00");
    assert_eq!(to_string_mins_secs(&Duration::from_secs(5)), "05");
    assert_eq!(to_string_mins_secs(&Duration::from_secs(59)), "59");
    assert_eq!(to_string_mins_secs(&Duration::from_secs(65)), "01:05");
    assert_eq!(to_string_mins_secs(&Duration::from_secs(600)), "10:00");
    assert_eq!(to_string_mins_secs(&Duration::from_secs(6_007)), "100:07");
}

#[test]
fn config_from_valid_text() {
    let config = Config::from(FSConfig::new("20m30s".to_string()));
    assert_eq!(config.reminder_interval, Duration::from_secs(1230));
    assert!(!config.time_parsing_failed);
    assert!(!config.is_default);
}

#[test]
fn config_from_invalid_text_falls_back() {
    let config = Config::from(FSConfig::new("20".to_string()));
    assert_eq!(config.reminder_interval, Duration::from_secs(DEFAULT_INTERVAL_SECS));
    assert!(config.time_parsing_failed);
    assert!(!config.is_default);
    let blank = Config::from_text("   ", Duration::from_secs(5));
    assert_eq!(blank.reminder_interval, Duration::from_secs(5));
    assert!(blank.time_parsing_failed);
}

#[test]
fn config_defaults() {
    let config = Config::default();
    assert_eq!(config.reminder_interval, Duration::from_secs(1200));
    assert!(config.is_default);
    assert!(!config.time_parsing_failed);
    assert_eq!(FSConfig::default().reminder_interval, "20m");
    assert_eq!(Config::from(FSConfig::default()).reminder_interval, Duration::from_secs(1200));
}

#[test]
fn frames_follow_the_state() {
    let config = Config::from_text("5s", Duration::from_secs(1200));
    let mut app = HydrationReminder::new(config, 0);
    let frame = app.update(3_000, false);
    assert_eq!(frame.repaint_after_secs, 5);
    match frame.screen {
        Screen::Idle { text } => assert_eq!(text, "Nice"),
        other => panic!("expected idle, got {:?}", other),
    }
    let frame = app.update(3_000, true);
    assert_eq!(frame.repaint_after_secs, 1);
    match frame.screen {
        Screen::Idle { text } => assert_eq!(text, "03"),
        other => panic!("expected idle, got {:?}", other),
    }
    let frame = app.update(6_000, false);
    assert_eq!(frame.repaint_after_secs, 1);
    match frame.screen {
        Screen::Reminding { first_colour, text } => {
            assert!(first_colour);
            assert_eq!(text, "Hydrate \u{1f4a7}");
        }
        other => panic!("expected reminding, got {:?}", other),
    }
    let frame = app.update(73_500, true);
    match frame.screen {
        Screen::Reminding { first_colour, text } => {
            assert!(!first_colour);
            assert_eq!(text, "01:07");
        }
        other => panic!("expected reminding, got {:?}", other),
    }
    app.hydrate(80_000);
    assert!(matches!(app.update(81_000, false).screen, Screen::Idle { .. }));
}

#[test]
fn refused_interval_is_shown_first() {
    let config = Config::from_text("10x", Duration::from_secs(5));
    let mut app = HydrationReminder::new(config, 1_000);
    let frame = app.update(9_000, false);
    assert!(matches!(frame.screen, Screen::Warning));
    assert_eq!(frame.repaint_after_secs, 5);
    assert!(!app.state.reminding);
    let frame = app.update(11_000, false);
    assert!(matches!(frame.screen, Screen::Reminding { .. }));
}
