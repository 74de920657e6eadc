//! What a driver operation can fail with.

use vstd::prelude::*;

verus! {

/// Why an operation on a peripheral was refused or did not complete.
///
/// The drivers themselves only ever refuse an argument, and they do so
/// before anything is scheduled for the bus. The transport-level variants
/// are produced by [`crate::bus::Bus::abort`] when the host reports that a
/// scheduled transaction failed.
#[derive(Debug, Clone, Copy, PartialEq, Eq, Structural)]
pub enum CommunicationError {
    /// The transport signalled a failure on the wire, such as a missing
    /// acknowledge or contention.
    BusError,
    /// The pin index is not below the device's pin count.
    InvalidPin(u8),
    /// The brightness level is above 15.
    InvalidBrightness(u8),
    /// Another argument is outside the range the hardware can take.
    InvalidParameter,
    /// The bitmap does not have the dimensions the operation needs.
    BitmapFormatError,
    /// A read failed, or returned a block of the wrong length, and the
    /// transport cannot say why.
    ReadError,
    /// A write failed and the transport cannot say why.
    WriteError,
}

impl CommunicationError {
    /// The text of [`Self::description`] for each variant.
    pub open spec fn description_text(self) -> Seq<char> {
        match self {
            CommunicationError::BusError => "the bus transport signalled a failure"@,
            CommunicationError::InvalidPin(_) => "the pin index is outside the device's range"@,
            CommunicationError::InvalidBrightness(_) => "the brightness level is above 15"@,
            CommunicationError::InvalidParameter => "a parameter is out of range"@,
            CommunicationError::BitmapFormatError => "the bitmap has the wrong dimensions"@,
            CommunicationError::ReadError => "reading from the device failed"@,
            CommunicationError::WriteError => "writing to the device failed"@,
        }
    }

    /// A short sentence that names the failure.
    pub fn description(&self) -> (text: &'static str)
        ensures
            text@ == self.description_text(),
    {
        match self {
            CommunicationError::BusError => "the bus transport signalled a failure",
            CommunicationError::InvalidPin(_) => "the pin index is outside the device's range",
            CommunicationError::InvalidBrightness(_) => "the brightness level is above 15",
            CommunicationError::InvalidParameter => "a parameter is out of range",
            CommunicationError::BitmapFormatError => "the bitmap has the wrong dimensions",
            CommunicationError::ReadError => "reading from the device failed",
            CommunicationError::WriteError => "writing to the device failed",
        }
    }
}

} // verus!
