//! Bit-level codec engine for the compressed DIS (C-DIS) wire encoding, and
//! the gateway that sends records as differences against what it sent before.
//!
//! The crate is layered leaves first:
//!
//! - [`bits`]: the mathematical model of bit strings that every contract is
//!   stated over;
//! - [`bit_buffer`]: the fixed-capacity bit buffer, addressed by an explicit
//!   cursor;
//! - [`varint`] and [`types`]: the variable-width integer codec and its
//!   families as field types;
//! - [`scaled`]: the saturation of scaled quantities to the field that
//!   carries them;
//! - [`writing`], [`parsing`] and [`fields_present`]: what it means for a
//!   record to have a wire form, to be read back from it, and to announce its
//!   optional fields in a bitmap;
//! - [`records`], [`entity_state`], [`detonation`] and [`pdu`]: the records,
//!   the two packet bodies with a layout, and whole packets;
//! - [`wire`]: runs of packets as octets;
//! - [`gateway`]: the encoder and the decoder with their tables of earlier
//!   records;
//! - [`dis`]: the in-memory form of the full-size packets;
//! - [`convert`]: the integer fields of full-size records as fields of
//!   compressed records, and back.
//!
//! Every executable function carries a contract that is proved by Verus. The
//! items whose contracts are taken on trust are the ones that call into the
//! `bitvec` crate, in [`bit_buffer`], and into the `bytes` crate, in
//! [`gateway`].

pub mod bit_buffer;
pub mod bits;
pub mod constants;
pub mod convert;
pub mod detonation;
pub mod dis;
pub mod entity_state;
pub mod error;
pub mod fields_present;
pub mod gateway;
pub mod parsing;
pub mod pdu;
pub mod records;
pub mod scaled;
pub mod types;
pub mod varint;
pub mod wire;
pub mod writing;
