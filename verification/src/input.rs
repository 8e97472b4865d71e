//! Mapping from raw platform input events to messages.
//!
//! The subscription policy: a pointer button press becomes a diagnostic
//! message naming the button; every other event kind becomes the no-op
//! message, so the stream stays well-typed without changing state.

use crate::parse::{decimal_digits, u16_to_decimal};
use crate::timer::Message;
use vstd::prelude::*;
use vstd::string::*;

verus! {

/// A pointer button, as the platform reports it.
#[derive(Clone, Copy, Debug, PartialEq, Eq, Structural)]
pub enum MouseButton {
    Left,
    Right,
    Middle,
    Back,
    Forward,
    /// A button known to the platform only by its numeric code.
    Other(u16),
}

/// A raw platform input event, reduced to what the message policy reads:
/// either a pointer button press or any other kind of event.
#[derive(Clone, Copy, Debug, PartialEq, Eq, Structural)]
pub enum InputEvent {
    ButtonPressed(MouseButton),
    Other,
}

/// The name of a button as it appears in the diagnostic message.
pub open spec fn button_label(b: MouseButton) -> Seq<char> {
    match b {
        MouseButton::Left => "Left"@,
        MouseButton::Right => "Right"@,
        MouseButton::Middle => "Middle"@,
        MouseButton::Back => "Back"@,
        MouseButton::Forward => "Forward"@,
        MouseButton::Other(n) => "Other("@ + decimal_digits(n as int) + ")"@,
    }
}

/// The diagnostic line logged when button `b` is pressed.
pub open spec fn button_press_log(b: MouseButton) -> Seq<char> {
    "Button "@ + button_label(b) + " pressed"@
}

/// Render the name of a button.
pub fn button_name(b: MouseButton) -> (r: String)
    ensures
        r@ == button_label(b),
{
    match b {
        MouseButton::Left => String::from_str("Left"),
        MouseButton::Right => String::from_str("Right"),
        MouseButton::Middle => String::from_str("Middle"),
        MouseButton::Back => String::from_str("Back"),
        MouseButton::Forward => String::from_str("Forward"),
        MouseButton::Other(n) => {
            let mut s = String::from_str("Other(");
            s.append(u16_to_decimal(n).as_str());
            s.append(")");
            proof {
                assert(s@ =~= button_label(b));
            }
            s
        },
    }
}

/// The message produced for one raw platform input event: a pointer button
/// press asks for its diagnostic line to be logged; every other event yields
/// the message that changes nothing.
pub fn message_for_event(e: InputEvent) -> (m: Message)
    ensures
        e matches InputEvent::ButtonPressed(b) ==> m matches Message::SetLogMessage(t) && t@
            == button_press_log(b),
        e is Other ==> m is EventHappened,
{
    match e {
        InputEvent::ButtonPressed(b) => {
            let mut s = String::from_str("Button ");
            s.append(button_name(b).as_str());
            s.append(" pressed");
            proof {
                assert(s@ =~= button_press_log(b));
            }
            Message::SetLogMessage(s)
        },
        InputEvent::Other => Message::EventHappened,
    }
}

} // verus!
