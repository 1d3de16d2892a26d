//! A device waiting in bootloader mode.

use vstd::prelude::*;

use crate::ids::BootloaderKind;

verus! {

/// A device in bootloader mode: the protocol it speaks and its USB ids.
#[derive(Debug, Clone, Copy, PartialEq, Eq, Structural)]
pub struct BootloaderDevice {
    pub kind: BootloaderKind,
    pub vid: u16,
    pub pid: u16,
}

} // verus!
