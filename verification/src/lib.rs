//! Event-recording core of a limit-order-book matching engine: a fixed-capacity
//! circular log of serialized Fill/Out events, a price-time order-identifier
//! generator, the binary codec for the two event kinds, and a single-slot
//! register used to hand a summary value back across a call boundary.

pub mod error;
pub mod events;
pub mod queue;
pub mod register;
pub mod types;

pub use error::AoError;
pub use events::Event;
pub use queue::{EventQueue, EventQueueHeader, EVENT_QUEUE_HEADER_LEN, ORDER_SUMMARY_SIZE};
pub use register::Register;
pub use types::{AccountTag, MarketState, SelfTradeBehavior, Side};
