//! What the driver asks of the hardware, and what the hardware answers.
//!
//! The driver never touches a pin or the bus. It names one action at a time;
//! whoever embeds it performs the action and hands back the matching event.

use crate::wire::Frame;
use vstd::prelude::*;

verus! {

/// The level of a digital line.
#[derive(Clone, Copy, Debug, PartialEq, Eq, Structural)]
pub enum Level {
    Low,
    High,
}

/// One thing to do with the hardware.
#[derive(Clone, Copy, Debug, PartialEq, Eq, Structural)]
pub enum Action {
    /// Drive the wake-up line to this level.
    Wake(Level),
    /// Drive the reset line to this level.
    Reset(Level),
    /// Drive the chip-select line to this level.
    ChipSelect(Level),
    /// Wait this many milliseconds.
    Delay(u32),
    /// Sample the ready line.
    SampleReady,
    /// Exchange these two bytes on the bus.
    Transfer(Frame),
    /// Start a timer of this many milliseconds.
    StartTimer(u32),
    /// Ask whether the timer has run out.
    CheckTimer,
}

/// What came of an action.
#[derive(Clone, Copy, Debug, PartialEq, Eq, Structural)]
pub enum Event {
    /// A line was driven, a delay has passed or a timer was started.
    Done,
    /// The ready line was sampled: its level, or nothing where the pin could
    /// not be read.
    Ready(Option<bool>),
    /// The bus exchange ended: the two bytes received, or nothing where the
    /// bus failed.
    Transferred(Option<Frame>),
    /// The timer was asked: whether it has run out, or nothing where it
    /// could not be asked.
    Expired(Option<bool>),
}

/// What a state machine of the driver says after each call.
#[derive(Debug, PartialEq, Eq, Structural)]
pub enum Step<T> {
    /// Nothing is in progress.
    Idle,
    /// Perform this action and report its event.
    Do(Action),
    /// The operation has ended with this result.
    Done(T),
}

impl Action {
    /// Whether `event` is the kind of answer that this action gets.
    pub open spec fn answered_by(self, event: Event) -> bool {
        match self {
            Action::SampleReady => event is Ready,
            Action::Transfer(_) => event is Transferred,
            Action::CheckTimer => event is Expired,
            _ => event is Done,
        }
    }
}

} // verus!
