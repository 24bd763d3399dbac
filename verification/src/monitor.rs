//! The watch loop's decisions: when to refresh and when to stop.
use vstd::prelude::*;

verus! {

/// What the watch loop waited for.
#[derive(Clone, Copy, PartialEq, Eq, Debug, Structural)]
pub enum WatchEvent {
    /// The quiet period after a change signal ended (only awaited while a
    /// refresh is pending).
    Quiet,
    /// SIGINT or SIGTERM arrived.
    Signal,
    /// A bus message arrived; whether it is a relevant UDisks2 signal.
    Message(bool),
    /// The bus reported an error for a message.
    MessageError,
    /// The bus message stream ended.
    StreamEnd,
}

/// What the watch loop does next.
#[derive(Clone, Copy, PartialEq, Eq, Debug, Structural)]
pub enum WatchAction {
    /// Read the devices and print a line.
    Refresh,
    /// Keep waiting.
    Wait,
    /// Stop watching.
    Stop,
}

/// The quiet period after a change signal before refreshing, in
/// milliseconds.
pub const DEBOUNCE_MS: u64 = 150;

/// The watch loop's transition: `pending` says a change was seen and a
/// refresh is due once the bus has been quiet for [`DEBOUNCE_MS`]. While a
/// refresh is pending, further messages are ignored.
pub open spec fn watch_step_spec(pending: bool, event: WatchEvent) -> (bool, WatchAction) {
    match event {
        WatchEvent::Signal => (pending, WatchAction::Stop),
        WatchEvent::StreamEnd => (pending, WatchAction::Stop),
        WatchEvent::Quiet => if pending {
            (false, WatchAction::Refresh)
        } else {
            (false, WatchAction::Wait)
        },
        WatchEvent::Message(relevant) => if !pending && relevant {
            (true, WatchAction::Wait)
        } else {
            (pending, WatchAction::Wait)
        },
        WatchEvent::MessageError => (pending, WatchAction::Wait),
    }
}

/// The next pending state and action of the watch loop.
pub fn watch_step(pending: bool, event: WatchEvent) -> (r: (bool, WatchAction))
    ensures
        r == watch_step_spec(pending, event),
{
    match event {
        WatchEvent::Signal => (pending, WatchAction::Stop),
        WatchEvent::StreamEnd => (pending, WatchAction::Stop),
        WatchEvent::Quiet => if pending {
            (false, WatchAction::Refresh)
        } else {
            (false, WatchAction::Wait)
        },
        WatchEvent::Message(relevant) => if !pending && relevant {
            (true, WatchAction::Wait)
        } else {
            (pending, WatchAction::Wait)
        },
        WatchEvent::MessageError => (pending, WatchAction::Wait),
    }
}

} // verus!
