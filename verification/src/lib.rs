//! Core of a break-reminder timer: a single application state, a closed set
//! of messages that update it, the policy that decides when a reminder
//! notification fires, and the mapping from raw input events to messages.

pub mod input;
pub mod parse;
pub mod timer;

pub use parse::ParseIntError;
pub use timer::Message;
pub use timer::TimerApp;
