//! The relay of candle updates: the store notifies when an aggregate was
//! refreshed, and the relay passes that on to whoever listens.

use crate::text::join2;
use vstd::prelude::*;
use vstd::string::*;

verus! {

/// Channel of the store on which refreshes are announced.
pub const UPDATE_CHANNEL: &'static str = "candle_updates";

/// Event that is emitted for every update.
pub const UPDATE_EVENT: &'static str = "candle-update";

/// Seconds that the relay waits for a notification before it looks
/// whether it is to go on.
pub const LISTEN_TIMEOUT_SECONDS: u64 = 5;

/// What the store announces.
#[derive(Debug)]
pub struct CandleUpdateNotification {
    pub symbol: String,
    pub timeframe: String,
    pub timestamp: String,
}

/// What happened while the relay listened.
#[derive(Debug)]
pub enum ListenEvent {
    /// A notification came whose payload could be read.
    Update(CandleUpdateNotification),
    /// A notification came whose payload could not be read.
    Unreadable,
    /// The connection to the store was lost.
    ConnectionLost,
    /// Nothing came in time.
    TimedOut,
}

/// What the relay does next.
#[derive(Debug)]
pub enum RelayAction {
    /// Emit the update, under the name of its resolution and under the
    /// general name, then listen on.
    Emit { specific: String, general: String, update: CandleUpdateNotification },
    /// Connect to the store and listen again.
    Reconnect,
    /// Listen on.
    Listen,
    /// End.
    Stop,
}

/// The name of the event for updates at a resolution.
pub open spec fn event_name(timeframe: Seq<char>) -> Seq<char> {
    "bitcoin-candles-updated-"@ + timeframe
}

/// What a relay does with an event: a relay that is running emits an
/// update, connects again when the connection was lost and else listens
/// on; a relay that was stopped ends.
pub fn relay_step(running: bool, event: ListenEvent) -> (action: RelayAction)
    ensures
        !running ==> action is Stop,
        running ==> match event {
            ListenEvent::Update(update) => action matches RelayAction::Emit {
                specific,
                general,
                update: passed,
            } && specific@ == event_name(update.timeframe@) && general@ == UPDATE_EVENT@ && passed
                == update,
            ListenEvent::ConnectionLost => action is Reconnect,
            _ => action is Listen,
        },
{
    if !running {
        return RelayAction::Stop;
    }
    match event {
        ListenEvent::Update(update) => RelayAction::Emit {
            specific: join2("bitcoin-candles-updated-", update.timeframe.as_str()),
            general: String::from_str(UPDATE_EVENT),
            update,
        },
        ListenEvent::ConnectionLost => RelayAction::Reconnect,
        ListenEvent::Unreadable => RelayAction::Listen,
        ListenEvent::TimedOut => RelayAction::Listen,
    }
}

} // verus!
