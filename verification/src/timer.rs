//! The reactive core: the single application state, the closed set of
//! messages that update it, and the policy that decides when a break
//! notification fires.
//!
//! `update` is the only place the state changes. It never shows the
//! notification itself: it reports through its result whether the trigger
//! policy fired, and the surrounding run loop performs the display.

use crate::parse::{error_text, is_int_literal, int_value, parse_i32, parse_result};
use vstd::arithmetic::div_mod::{
    lemma_fundamental_div_mod, lemma_fundamental_div_mod_converse_mod, lemma_mod_pos_bound,
};
use vstd::prelude::*;
use vstd::string::*;

verus! {

/// The authoritative application state.
pub struct TimerApp {
    /// Seconds elapsed since start; only ever incremented.
    pub counter: i32,
    /// Reminder interval in seconds; the last successfully parsed value, or
    /// 0 after a failed parse. May legitimately be zero or negative.
    pub delay: i32,
    /// The raw text of the delay input field.
    pub delay_text: String,
    /// The notification title text.
    pub text: String,
    /// The last diagnostic shown to the user; empty when there is none.
    pub log_message: String,
}

/// The closed set of events that can change the state.
#[derive(Debug, Clone)]
pub enum Message {
    /// One second has elapsed (or the increment button was pressed).
    Increment,
    /// The delay input field changed.
    UpdateDelay(String),
    /// The notification-text input field changed.
    UpdateText(String),
    /// Some platform input event occurred that calls for no state change.
    EventHappened,
    /// Overwrite the diagnostic message.
    SetLogMessage(String),
}

/// The mathematical model of a `TimerApp` value.
#[verifier::ext_equal]
pub ghost struct StateView {
    pub counter: int,
    pub delay: int,
    pub delay_text: Seq<char>,
    pub text: Seq<char>,
    pub log_message: Seq<char>,
}

impl View for TimerApp {
    type V = StateView;

    open spec fn view(&self) -> StateView {
        StateView {
            counter: self.counter as int,
            delay: self.delay as int,
            delay_text: self.delay_text@,
            text: self.text@,
            log_message: self.log_message@,
        }
    }
}

/// The interval the trigger arithmetic uses: the stored delay when it is
/// positive, otherwise the 600-second fallback. The stored delay itself is
/// never changed by this substitution.
pub open spec fn effective_delay(delay: int) -> int {
    if delay > 0 {
        delay
    } else {
        600
    }
}

/// Whether one more elapsed second fires the notification: the incremented
/// counter is an exact multiple of the effective delay.
pub open spec fn tick_notifies(s: StateView) -> bool {
    (s.counter + 1) % effective_delay(s.delay) == 0
}

/// The state after one elapsed second.
pub open spec fn spec_tick(s: StateView) -> StateView {
    StateView { counter: s.counter + 1, ..s }
}

/// The state after the delay field changed to `t`: on a successful parse the
/// value is stored and the diagnostic cleared; on a failed parse the field
/// is cleared, the delay falls back to 0 and the diagnostic holds the
/// parse-error description.
pub open spec fn spec_update_delay(s: StateView, t: Seq<char>) -> StateView {
    match parse_result(t) {
        Ok(v) => StateView {
            delay: v,
            delay_text: t,
            log_message: Seq::<char>::empty(),
            ..s
        },
        Err(e) => StateView {
            delay: 0,
            delay_text: Seq::<char>::empty(),
            log_message: error_text(e),
            ..s
        },
    }
}

/// The state after the notification-text field changed to `t`.
pub open spec fn spec_update_text(s: StateView, t: Seq<char>) -> StateView {
    StateView { text: t, ..s }
}

/// The state after the diagnostic message was overwritten with `t`.
pub open spec fn spec_set_log(s: StateView, t: Seq<char>) -> StateView {
    StateView { log_message: t, ..s }
}

impl TimerApp {
    /// The counter counts elapsed seconds and so is never negative.
    pub open spec fn wf(&self) -> bool {
        self.counter >= 0
    }

    /// The initial state: nothing elapsed, a one-hour reminder interval, and
    /// the default break-reminder text.
    pub fn new() -> (r: TimerApp)
        ensures
            r.wf(),
            r@.counter == 0,
            r@.delay == 3600,
            r@.delay_text == "3600"@,
            r@.text == "Break time! \u{1f986}"@,
            r@.log_message == Seq::<char>::empty(),
    {
        TimerApp {
            counter: 0,
            delay: 3600,
            delay_text: String::from_str("3600"),
            text: String::from_str("Break time! \u{1f986}"),
            log_message: String::new(),
        }
    }

    /// Apply one message to the state. Returns whether the notification
    /// trigger fired, which happens only on `Increment`, exactly when the
    /// incremented counter is a multiple of the effective delay.
    pub fn update(&mut self, message: Message) -> (notify: bool)
        requires
            old(self).wf(),
            message is Increment ==> old(self).counter < i32::MAX,
        ensures
            final(self).wf(),
            message is Increment ==> final(self)@ == spec_tick(old(self)@) && notify
                == tick_notifies(old(self)@),
            message matches Message::UpdateDelay(t) ==> final(self)@ == spec_update_delay(
                old(self)@,
                t@,
            ) && !notify,
            message matches Message::UpdateText(t) ==> final(self)@ == spec_update_text(
                old(self)@,
                t@,
            ) && !notify,
            message matches Message::SetLogMessage(t) ==> final(self)@ == spec_set_log(
                old(self)@,
                t@,
            ) && !notify,
            message is EventHappened ==> final(self)@ == old(self)@ && !notify,
    {
        match message {
            Message::Increment => {
                self.counter = self.counter + 1;
                let eff: i32 = if self.delay > 0 {
                    self.delay
                } else {
                    600
                };
                let notify = self.counter % eff == 0;
                proof {
                    assert(self@ =~= spec_tick(old(self)@));
                }
                notify
            },
            Message::UpdateDelay(t) => {
                self.delay_text = t;
                match parse_i32(self.delay_text.as_str()) {
                    Ok(v) => {
                        self.delay = v;
                        self.log_message = String::new();
                    },
                    Err(e) => {
                        self.delay_text = String::new();
                        self.delay = 0;
                        self.log_message = e.description();
                    },
                }
                proof {
                    assert(self@ =~= spec_update_delay(old(self)@, t@));
                }
                false
            },
            Message::UpdateText(t) => {
                self.text = t;
                proof {
                    assert(self@ =~= spec_update_text(old(self)@, t@));
                }
                false
            },
            Message::SetLogMessage(t) => {
                self.log_message = t;
                proof {
                    assert(self@ =~= spec_set_log(old(self)@, t@));
                }
                false
            },
            Message::EventHappened => { false },
        }
    }

    /// Seconds until the next break, for display: defined only when the
    /// stored delay is positive, since a zero or negative delay leaves the
    /// countdown arithmetic undefined.
    pub fn next_break_in(&self) -> (r: Option<i32>)
        requires
            self.wf(),
        ensures
            self@.delay > 0 ==> r == Some((self@.delay - self@.counter % self@.delay) as i32),
            self@.delay <= 0 ==> r is None,
    {
        if self.delay > 0 {
            Some(self.delay - self.counter % self.delay)
        } else {
            None
        }
    }
}

/// How many notification triggers occur over `n` consecutive elapsed
/// seconds starting from state `s`.
pub open spec fn count_tick_notifications(s: StateView, n: nat) -> nat
    decreases n,
{
    if n == 0 {
        0
    } else {
        (if tick_notifies(s) {
            1nat
        } else {
            0nat
        }) + count_tick_notifications(spec_tick(s), (n - 1) as nat)
    }
}

proof fn lemma_count_window(s: StateView, n: nat)
    requires
        s.delay > 0,
        s.counter >= 0,
        n + s.counter % s.delay <= s.delay,
    ensures
        count_tick_notifications(s, n) == if n + s.counter % s.delay == s.delay {
            1nat
        } else {
            0nat
        },
    decreases n,
{
    let d = s.delay;
    let r = s.counter % d;
    lemma_mod_pos_bound(s.counter, d);
    if n > 0 {
        lemma_fundamental_div_mod(s.counter, d);
        let q = s.counter / d;
        if r + 1 < d {
            assert(s.counter + 1 == q * d + (r + 1)) by (nonlinear_arith)
                requires
                    s.counter == d * q + r,
            ;
            lemma_fundamental_div_mod_converse_mod(s.counter + 1, d, q, r + 1);
            assert(!tick_notifies(s));
        } else {
            assert(r + 1 == d);
            assert(s.counter + 1 == (q + 1) * d + 0) by (nonlinear_arith)
                requires
                    s.counter == d * q + r,
                    r + 1 == d,
            ;
            lemma_fundamental_div_mod_converse_mod(s.counter + 1, d, q + 1, 0);
            assert(tick_notifies(s));
        }
        lemma_count_window(spec_tick(s), (n - 1) as nat);
    }
}

/// Law: from any state where the counter sits on a multiple of a positive
/// delay, the next `delay` consecutive elapsed seconds fire exactly one
/// notification.
pub proof fn lemma_one_notification_per_period(s: StateView)
    requires
        s.delay > 0,
        s.counter >= 0,
        s.counter % s.delay == 0,
    ensures
        count_tick_notifications(s, s.delay as nat) == 1,
{
    lemma_count_window(s, s.delay as nat);
}

/// Law: with a non-positive delay the trigger arithmetic uses the
/// 600-second fallback, independent of the exact stored value.
pub proof fn lemma_nonpositive_delay_uses_fallback(s1: StateView, s2: StateView)
    requires
        s1.delay <= 0,
        s2.delay <= 0,
        s1.counter == s2.counter,
    ensures
        tick_notifies(s1) == tick_notifies(s2),
        tick_notifies(s1) == ((s1.counter + 1) % 600 == 0),
{
}

/// Law: setting the notification text twice to the same value leaves the
/// state exactly as setting it once does.
pub proof fn lemma_update_text_idempotent(s: StateView, t: Seq<char>)
    ensures
        spec_update_text(spec_update_text(s, t), t) == spec_update_text(s, t),
{
    assert(spec_update_text(spec_update_text(s, t), t) =~= spec_update_text(s, t));
}

/// Law: a delay edit whose text is a valid integer in range stores the
/// parsed value, keeps the text, clears the diagnostic, and touches nothing
/// else.
pub proof fn lemma_delay_update_valid(s: StateView, t: Seq<char>)
    requires
        is_int_literal(t),
        i32::MIN <= int_value(t) <= i32::MAX,
    ensures
        spec_update_delay(s, t) == (StateView {
            delay: int_value(t),
            delay_text: t,
            log_message: Seq::<char>::empty(),
            ..s
        }),
{
    assert(spec_update_delay(s, t) =~= (StateView {
        delay: int_value(t),
        delay_text: t,
        log_message: Seq::<char>::empty(),
        ..s
    }));
}

/// Law: a delay edit whose text is not a valid integer in range clears the
/// field, falls back to a stored delay of 0, and leaves a non-empty
/// parse-error diagnostic.
pub proof fn lemma_delay_update_invalid(s: StateView, t: Seq<char>)
    requires
        !(is_int_literal(t) && i32::MIN <= int_value(t) <= i32::MAX),
    ensures
        spec_update_delay(s, t).delay == 0,
        spec_update_delay(s, t).delay_text == Seq::<char>::empty(),
        spec_update_delay(s, t).log_message.len() > 0,
        spec_update_delay(s, t).counter == s.counter,
        spec_update_delay(s, t).text == s.text,
{
    reveal_strlit("cannot parse integer from empty string");
    reveal_strlit("invalid digit found in string");
    reveal_strlit("number too large to fit in target type");
    reveal_strlit("number too small to fit in target type");
}

impl core::default::Default for TimerApp {
    /// The same state `new` builds.
    fn default() -> (r: TimerApp)
        ensures
            r.wf(),
            r@.counter == 0,
            r@.delay == 3600,
            r@.delay_text == "3600"@,
            r@.text == "Break time! \u{1f986}"@,
            r@.log_message == Seq::<char>::empty(),
    {
        TimerApp::new()
    }
}

} // verus!
