//! Firmware images, as the flashing logic sees them.

use vstd::prelude::*;
use vstd::string::StringExecFns;

use crate::ids;
use crate::text::{decimal, decimal_string};

verus! {

/// One DFU image: its bytes and the normal-mode USB ids of the keyboard it was built for.
pub struct DfuImage {
    pub data: Vec<u8>,
    pub vid: u16,
    pub pid: u16,
}

/// A loaded firmware file.
pub enum Firmware {
    /// A raw binary for a DFU bootloader, built for the keyboard with these ids.
    DfuBinary { data: Vec<u8>, vid: u16, pid: u16 },
    /// Two images for an Ignition bootloader, one per supported MCU.
    IgnitionDual { primary: DfuImage, alternate: DfuImage },
    /// An Intel HEX image for the HalfKay bootloader.
    IntelHex { data: Vec<u8> },
}

/// A one-line description of a firmware: the keyboard(s) it targets and its size.
pub open spec fn spec_firmware_description(fw: Firmware) -> Seq<char> {
    match fw {
        Firmware::DfuBinary { data, pid, .. } => ids::spec_target_name_for_pid(pid) + " ("@
            + decimal(data@.len()) + " bytes)"@,
        Firmware::IgnitionDual { primary, alternate } => ids::spec_target_name_for_pid(primary.pid)
            + " + "@ + ids::spec_target_name_for_pid(alternate.pid) + " ("@ + decimal(primary.data@.len())
            + " + "@ + decimal(alternate.data@.len()) + " bytes)"@,
        Firmware::IntelHex { data } => "Ergodox EZ ("@ + decimal(data@.len()) + " bytes)"@,
    }
}

/// A one-line description of a firmware: the keyboard(s) it targets and its size.
pub fn firmware_description(fw: &Firmware) -> (r: String)
    ensures
        r@ == spec_firmware_description(*fw),
{
    match fw {
        Firmware::DfuBinary { data, pid, .. } => {
            let mut s = String::from_str(ids::target_name_for_pid(*pid));
            s.append(" (");
            let n = decimal_string(data.len());
            s.append(n.as_str());
            s.append(" bytes)");
            s
        },
        Firmware::IgnitionDual { primary, alternate } => {
            let mut s = String::from_str(ids::target_name_for_pid(primary.pid));
            s.append(" + ");
            s.append(ids::target_name_for_pid(alternate.pid));
            s.append(" (");
            let a = decimal_string(primary.data.len());
            s.append(a.as_str());
            s.append(" + ");
            let b = decimal_string(alternate.data.len());
            s.append(b.as_str());
            s.append(" bytes)");
            s
        },
        Firmware::IntelHex { data } => {
            let mut s = String::from_str("Ergodox EZ (");
            let n = decimal_string(data.len());
            s.append(n.as_str());
            s.append(" bytes)");
            s
        },
    }
}

} // verus!
