//! A multi-tenant request broker: clients register for a small numeric
//! identity, each owns one stored record, and posts file and bucket requests
//! into it for a worker to pick up.
//!
//! - `instruction`: the wire codec of instructions and requests.
//! - `bitset`, `state`: the identity registry and the stored record layouts.
//! - `name`: the resource name check.
//! - `processor`: the operations on stored registry and record bytes.

pub mod bitset;
pub mod error;
pub mod instruction;
pub mod name;
pub mod processor;
pub mod state;
