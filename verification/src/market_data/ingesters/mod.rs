//! Feed adapters: what each upstream feed is asked, and how what it sends
//! becomes a tick.

pub mod kraken;
pub mod oanda;

use vstd::prelude::*;

verus! {

/// Why an adapter gave no tick.
#[derive(Debug, Clone, Copy, PartialEq, Eq, Structural)]
pub enum FeedError {
    /// The feed closed the connection.
    Closed,
    /// There is no connection, or the stream has ended.
    NoConnection,
    /// A price update carries a time that cannot be read.
    InvalidTime,
    /// A price update carries no bid that can be read.
    InvalidBid,
    /// A price update carries no ask that can be read.
    InvalidAsk,
}

impl FeedError {
    /// The error in words.
    pub open spec fn text(self) -> Seq<char> {
        match self {
            FeedError::Closed => "WebSocket closed"@,
            FeedError::NoConnection => "No stream available"@,
            FeedError::InvalidTime => "Failed to parse price time"@,
            FeedError::InvalidBid => "Failed to parse bid price"@,
            FeedError::InvalidAsk => "Failed to parse ask price"@,
        }
    }

    /// The error in words.
    pub fn message(&self) -> (r: &'static str)
        ensures
            r@ == self.text(),
    {
        match self {
            FeedError::Closed => "WebSocket closed",
            FeedError::NoConnection => "No stream available",
            FeedError::InvalidTime => "Failed to parse price time",
            FeedError::InvalidBid => "Failed to parse bid price",
            FeedError::InvalidAsk => "Failed to parse ask price",
        }
    }
}

} // verus!
