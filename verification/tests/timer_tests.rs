use timer_app::{Message, TimerApp};

#[test]
fn new_state_has_the_documented_defaults() {
    let app = TimerApp::new();
    assert_eq!(app.counter, 0);
    assert_eq!(app.delay, 3600);
    assert_eq!(app.delay_text, "3600");
    assert_eq!(app.text, "Break time! \u{1f986}");
    assert_eq!(app.log_message, "");
}

#[test]
fn default_matches_new() {
    let a = TimerApp::default();
    let b = TimerApp::new();
    assert_eq!(a.counter, b.counter);
    assert_eq!(a.delay, b.delay);
    assert_eq!(a.delay_text, b.delay_text);
    assert_eq!(a.text, b.text);
    assert_eq!(a.log_message, b.log_message);
}

#[test]
fn one_hour_of_ticks_fires_exactly_one_notification() {
    let mut app = TimerApp::new();
    let mut fired = 0;
    let mut fired_at = 0;
    for _ in 0..3600 {
        if app.update(Message::Increment) {
            fired += 1;
            fired_at = app.counter;
        }
    }
    assert_eq!(app.counter, 3600);
    assert_eq!(fired, 1);
    assert_eq!(fired_at, 3600);
}

#[test]
fn invalid_delay_text_falls_back_and_logs() {
    let mut app = TimerApp::new();
    let notify = app.update(Message::UpdateDelay(String::from("abc")));
    assert!(!notify);
    assert_eq!(app.delay_text, "");
    assert_eq!(app.delay, 0);
    assert_eq!(app.log_message, "invalid digit found in string");
}

#[test]
fn valid_delay_text_is_stored_and_clears_the_log() {
    let mut app = TimerApp::new();
    app.update(Message::UpdateDelay(String::from("abc")));
    assert_ne!(app.log_message, "");
    app.update(Message::UpdateDelay(String::from("10")));
    assert_eq!(app.delay, 10);
    assert_eq!(app.delay_text, "10");
    assert_eq!(app.log_message, "");
}

#[test]
fn negative_delay_is_stored_and_ticks_use_the_fallback_interval() {
    let mut app = TimerApp::new();
    let notify = app.update(Message::UpdateDelay(String::from("-5")));
    assert!(!notify);
    assert_eq!(app.delay, -5);
    assert_eq!(app.delay_text, "-5");
    assert_eq!(app.log_message, "");
    let mut fired = 0;
    for _ in 0..599 {
        if app.update(Message::Increment) {
            fired += 1;
        }
    }
    assert_eq!(fired, 0);
    assert!(app.update(Message::Increment));
    assert_eq!(app.counter, 600);
}

#[test]
fn zero_delay_ticks_use_the_fallback_interval() {
    let mut app = TimerApp::new();
    app.update(Message::UpdateDelay(String::from("0")));
    assert_eq!(app.delay, 0);
    assert_eq!(app.delay_text, "0");
    assert_eq!(app.log_message, "");
    let mut fired = 0;
    for _ in 0..600 {
        if app.update(Message::Increment) {
            fired += 1;
        }
    }
    assert_eq!(fired, 1);
}

#[test]
fn setting_the_notification_text_twice_equals_setting_it_once() {
    let mut once = TimerApp::new();
    once.update(Message::UpdateText(String::from("stretch")));
    let mut twice = TimerApp::new();
    twice.update(Message::UpdateText(String::from("stretch")));
    twice.update(Message::UpdateText(String::from("stretch")));
    assert_eq!(once.counter, twice.counter);
    assert_eq!(once.delay, twice.delay);
    assert_eq!(once.delay_text, twice.delay_text);
    assert_eq!(once.text, twice.text);
    assert_eq!(once.log_message, twice.log_message);
    assert_eq!(once.text, "stretch");
}

#[test]
fn set_log_message_overwrites_only_the_log() {
    let mut app = TimerApp::new();
    let notify = app.update(Message::SetLogMessage(String::from("hello")));
    assert!(!notify);
    assert_eq!(app.log_message, "hello");
    assert_eq!(app.counter, 0);
    assert_eq!(app.delay, 3600);
    assert_eq!(app.delay_text, "3600");
}

#[test]
fn unhandled_events_change_nothing() {
    let mut app = TimerApp::new();
    app.update(Message::SetLogMessage(String::from("before")));
    let notify = app.update(Message::EventHappened);
    assert!(!notify);
    assert_eq!(app.counter, 0);
    assert_eq!(app.delay, 3600);
    assert_eq!(app.delay_text, "3600");
    assert_eq!(app.log_message, "before");
}

#[test]
fn next_break_counts_down_from_the_delay() {
    let mut app = TimerApp::new();
    app.update(Message::UpdateDelay(String::from("10")));
    for _ in 0..3 {
        app.update(Message::Increment);
    }
    assert_eq!(app.next_break_in(), Some(7));
}

#[test]
fn next_break_is_undefined_without_a_positive_delay() {
    let mut app = TimerApp::new();
    app.update(Message::UpdateDelay(String::from("0")));
    assert_eq!(app.next_break_in(), None);
    app.update(Message::UpdateDelay(String::from("-5")));
    assert_eq!(app.next_break_in(), None);
}
