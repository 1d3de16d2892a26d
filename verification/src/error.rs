//! The error type of the flashing core.

use vstd::prelude::*;

verus! {

#[verifier::external_type_specification]
#[verifier::external_body]
pub struct ExUsbError(nusb::Error);

/// Errors raised by the flashing core.
#[derive(Debug)]
pub enum ZappError {
    /// The firmware image was built for a bootloader other than the connected one.
    IncompatibleFirmware { firmware_desc: String, device_desc: String },
    /// The USB stack refused an operation.
    Usb(nusb::Error),
}

} // verus!
