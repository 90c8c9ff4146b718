//! The error taxonomy of the codec and the gateway.

use vstd::prelude::*;

verus! {

/// Everything that can go wrong while packing, unpacking or restoring records.
#[derive(Clone, Copy, Debug, PartialEq, Eq, Structural)]
pub enum CdisError {
    /// The cursor plus the field width runs past the end of the buffer.
    OutOfBounds,
    /// A field width outside `1..=64`.
    InvalidWidth,
    /// A value that does not fit the width of the field it is written to.
    ValueOutOfRange,
    /// A discriminator outside its closed set of values.
    UnknownDiscriminant,
    /// A packet whose header claims more bits than were received.
    TruncatedPacket,
    /// A packet whose body does not end where its header says it does.
    LengthMismatch,
    /// A packet type that has no body layout in this codec.
    UnsupportedPdu,
    /// An optional field was omitted and no earlier packet supplies it.
    MissingHistory,
}

impl CdisError {
    /// The text of [`CdisError::describe`].
    pub open spec fn spec_describe(&self) -> Seq<char> {
        match self {
            CdisError::OutOfBounds => "field runs past the end of the bit buffer"@,
            CdisError::InvalidWidth => "field width must be between 1 and 64 bits"@,
            CdisError::ValueOutOfRange => "value does not fit the field width"@,
            CdisError::UnknownDiscriminant => "discriminator outside its declared set"@,
            CdisError::TruncatedPacket => "packet is shorter than its header claims"@,
            CdisError::LengthMismatch => "packet body does not end where its header says"@,
            CdisError::UnsupportedPdu => "packet type has no body layout"@,
            CdisError::MissingHistory => "omitted field has no earlier value to restore"@,
        }
    }

    /// A short human-readable description of the error.
    pub fn describe(&self) -> (text: &'static str)
        ensures
            text@ == self.spec_describe(),
    {
        match self {
            CdisError::OutOfBounds => "field runs past the end of the bit buffer",
            CdisError::InvalidWidth => "field width must be between 1 and 64 bits",
            CdisError::ValueOutOfRange => "value does not fit the field width",
            CdisError::UnknownDiscriminant => "discriminator outside its declared set",
            CdisError::TruncatedPacket => "packet is shorter than its header claims",
            CdisError::LengthMismatch => "packet body does not end where its header says",
            CdisError::UnsupportedPdu => "packet type has no body layout",
            CdisError::MissingHistory => "omitted field has no earlier value to restore",
        }
    }
}

} // verus!
