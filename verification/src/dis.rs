//! The full-size side of the gateway: the in-memory form of the packets that
//! the compressed records stand for.
//!
//! Floating-point fields are carried as their IEEE 754 bit patterns, which is
//! how they travel on the wire; nothing in this crate does arithmetic on them.

pub mod acknowledge;
pub mod action_response;
pub mod entity_state;
pub mod enumerations;
pub mod model;
pub mod transmitter;
