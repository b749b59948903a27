//! A time-weighted staking reward engine with a delayed-withdrawal queue.
//!
//! Users lock a fungible governance token; each locked position is recorded as
//! a weight on a non-fungible position record. A global accumulator converts
//! elapsed time and stake size into claimable reward, and a mandatory
//! cooling-off period gates the withdrawal of principal.
//!
//! The engine is a pure state machine: every operation takes the current call
//! time (and, where access control matters, the caller) as plain values and
//! either commits a complete new state or returns an error and leaves the
//! state untouched. The host that embeds it performs the actual token
//! transfers that the operations account for.

pub mod errors;
pub mod laws;
pub mod model;
pub mod registry;
pub mod roles;
pub mod staking;
