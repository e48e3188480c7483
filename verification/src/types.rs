//! Shared vocabulary types: account tags, order sides, self-trade policy,
//! and the market descriptor.

use vstd::prelude::*;

verus! {

/// Discriminates the kinds of backing accounts a market is made of.
#[derive(Clone, Copy, Debug, PartialEq, Eq, Structural)]
pub enum AccountTag {
    Initialized,
    Market,
    EventQueue,
    Bids,
    Asks,
}

/// The side of the book an order rests on or takes from.
#[derive(Clone, Copy, Debug, PartialEq, Eq, Structural)]
pub enum Side {
    Bid,
    Ask,
}

/// The byte encoding a side in serialized event records: `Bid` is 0, `Ask` is 1.
pub open spec fn side_to_byte(side: Side) -> u8 {
    match side {
        Side::Bid => 0,
        Side::Ask => 1,
    }
}

/// The side encoded by a record byte, if the byte is a valid encoding.
pub open spec fn side_of_byte(b: u8) -> Option<Side> {
    if b == 0 {
        Some(Side::Bid)
    } else if b == 1 {
        Some(Side::Ask)
    } else {
        None
    }
}

/// The other side of the book.
pub open spec fn side_opposite(side: Side) -> Side {
    match side {
        Side::Bid => Side::Ask,
        Side::Ask => Side::Bid,
    }
}

impl Side {
    /// The other side of the book; swapping twice gives the side back.
    pub fn opposite(&self) -> (r: Self)
        ensures
            r == side_opposite(*self),
    {
        match self {
            Side::Bid => Side::Ask,
            Side::Ask => Side::Bid,
        }
    }

    /// Encodes the side as its record byte.
    pub fn to_byte(&self) -> (r: u8)
        ensures
            r == side_to_byte(*self),
    {
        match self {
            Side::Bid => 0,
            Side::Ask => 1,
        }
    }

    /// Decodes a record byte back into a side; any byte other than 0 or 1 is
    /// a malformed encoding.
    pub fn from_byte(b: u8) -> (r: Option<Self>)
        ensures
            r == side_of_byte(b),
    {
        if b == 0 {
            Some(Side::Bid)
        } else if b == 1 {
            Some(Side::Ask)
        } else {
            None
        }
    }
}

/// How the matching logic handles an order crossing the same owner's own
/// resting order. Carried here as shared vocabulary; interpreted outside
/// this core.
#[derive(Clone, Copy, Debug, PartialEq, Eq, Structural)]
pub enum SelfTradeBehavior {
    DecrementTake,
    CancelProvide,
    AbortTransaction,
}

/// Describes a market: which backing accounts hold its queue and books, and
/// the fixed per-order callback-info length. Account addresses are carried as
/// plain 32-byte keys.
pub struct MarketState {
    pub tag: AccountTag,
    /// The program allowed to consume the event queue across the privileged
    /// call boundary.
    pub caller_authority: [u8; 32],
    pub event_queue: [u8; 32],
    pub bids: [u8; 32],
    pub asks: [u8; 32],
    pub callback_info_len: u64,
}

/// Swapping a side twice gives the same side back: `opposite` is an involution.
pub proof fn lemma_opposite_involution(side: Side)
    ensures
        side_opposite(side_opposite(side)) == side,
{
}

/// A side byte round-trips through the codec: encoding then decoding a side
/// gives it back, and decoding succeeds exactly on the bytes 0 and 1.
pub proof fn lemma_side_byte_roundtrip(side: Side, b: u8)
    ensures
        side_of_byte(side_to_byte(side)) == Some(side),
        side_of_byte(b) is Some <==> b <= 1,
        b <= 1 ==> side_to_byte(side_of_byte(b)->Some_0) == b,
{
}

} // verus!
