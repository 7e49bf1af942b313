//! Decision logic of a synchronous bridge over an asynchronous
//! publish/subscribe gateway client.
//!
//! The host-facing wrapper owns the runtime, the shared gateway client and the
//! host callbacks; every choice it makes (whether an operation may proceed,
//! what a callback pump does with the next stream event, what a pull cursor
//! returns) is taken by the state machines of this crate.
pub mod error;
pub mod lifecycle;
pub mod pump;
pub mod cursor;
