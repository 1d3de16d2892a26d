//! Deciding whether and how a firmware image is flashed onto a bootloader device.

use vstd::prelude::*;
use vstd::string::StringExecFns;

use crate::device::BootloaderDevice;
use crate::error::ZappError;
use crate::firmware::Firmware;
use crate::ids::{self, BootloaderKind, Keyboard};

verus! {

/// Progress updates emitted during flashing.
#[derive(Debug, Clone, Copy, PartialEq, Eq, Structural)]
pub enum FlashProgress {
    Erasing { bytes_erased: usize, total_bytes: usize },
    Writing { bytes_written: usize, total_bytes: usize },
    Resetting,
    Complete,
}

/// The transfer protocol used to write firmware onto a bootloader device.
#[derive(Debug, Clone, Copy, PartialEq, Eq, Structural)]
pub enum FlashMethod {
    /// DFU download; `ignition` selects the Ignition variant of the protocol.
    Dfu { ignition: bool },
    /// The HalfKay protocol of the Ergodox EZ.
    Halfkay,
}

/// Whether a bootloader is one of the Ignition bootloaders.
pub open spec fn is_ignition(kind: BootloaderKind) -> bool {
    kind == BootloaderKind::IgnitionStm32 || kind == BootloaderKind::IgnitionGd32
}

/// Why `firmware` must not be written to `device`, as a description of the
/// firmware; `None` where the two are compatible.
///
/// Dual images need an Ignition bootloader; generic STM32 DFU firmware must not
/// go onto an Ignition bootloader (it is linked for another base address); a
/// Moonlander image must match the bootloader of its revision (rev B uses
/// Ignition, rev A the STM32 ROM bootloader); Intel HEX needs HalfKay, and a
/// DFU binary needs a DFU bootloader, never HalfKay.
pub open spec fn incompatibility(device: BootloaderDevice, firmware: Firmware) -> Option<Seq<char>> {
    let ignition = is_ignition(device.kind);
    match firmware {
        Firmware::IgnitionDual { .. } => {
            if !ignition {
                Some("Ignition dual-image firmware"@)
            } else {
                None
            }
        },
        Firmware::DfuBinary { vid, pid, .. } => {
            if ignition && vid == ids::STM32_VID && pid == ids::STM32_DFU_PID {
                Some("STM32 DFU firmware"@)
            } else if ids::spec_identify_keyboard(vid, pid) == Some(Keyboard::Moonlander) {
                let revb = pid == ids::MOONLANDER_REVB_PID;
                if revb && !ignition {
                    Some("Moonlander rev B (Ignition) firmware"@)
                } else if !revb && ignition {
                    Some("Moonlander rev A (STM32 DFU) firmware"@)
                } else if device.kind == BootloaderKind::Halfkay {
                    Some("DFU firmware"@)
                } else {
                    None
                }
            } else if device.kind == BootloaderKind::Halfkay {
                Some("DFU firmware"@)
            } else {
                None
            }
        },
        Firmware::IntelHex { .. } => {
            if device.kind != BootloaderKind::Halfkay {
                Some("Intel HEX firmware (HALFKAY)"@)
            } else {
                None
            }
        },
    }
}

/// The result of checking `firmware` against `device`: `Ok` where they are
/// compatible, else the incompatibility error naming the firmware and the device.
pub open spec fn compatibility_result(device: BootloaderDevice, firmware: Firmware, r: Result<(), ZappError>) -> bool {
    match r {
        Ok(()) => incompatibility(device, firmware) is None,
        Err(ZappError::IncompatibleFirmware { firmware_desc, device_desc }) => {
            &&& incompatibility(device, firmware) == Some(firmware_desc@)
            &&& device_desc@ == ids::spec_friendly_name(device.vid, device.pid)
        },
        Err(ZappError::Usb(_)) => false,
    }
}

fn incompatible(device: &BootloaderDevice, firmware_desc: &str) -> (r: ZappError)
    ensures
        r matches ZappError::IncompatibleFirmware { firmware_desc: f, device_desc: d }
            && f@ == firmware_desc@ && d@ == ids::spec_friendly_name(device.vid, device.pid),
{
    ZappError::IncompatibleFirmware {
        firmware_desc: String::from_str(firmware_desc),
        device_desc: String::from_str(ids::friendly_name(device.vid, device.pid)),
    }
}

/// Validate that the firmware is compatible with the target bootloader device.
///
/// Prevents flashing firmware built for one bootloader protocol onto a device
/// using a different protocol (e.g. STM32 DFU firmware onto an Ignition device),
/// which would brick the keyboard due to mismatched base addresses.
pub fn validate_firmware_compatibility(device: &BootloaderDevice, firmware: &Firmware) -> (r: Result<(), ZappError>)
    ensures
        compatibility_result(*device, *firmware, r),
{
    let is_ignition = match device.kind {
        BootloaderKind::IgnitionStm32 | BootloaderKind::IgnitionGd32 => true,
        _ => false,
    };

    match firmware {
        Firmware::IgnitionDual { .. } => {
            // Dual-image firmware is only valid for Ignition bootloaders.
            if !is_ignition {
                return Err(incompatible(device, "Ignition dual-image firmware"));
            }
        },
        Firmware::DfuBinary { vid, pid, .. } => {
            if is_ignition && *vid == ids::STM32_VID && *pid == ids::STM32_DFU_PID {
                // Generic STM32 DFU firmware linked for 0x0800_0000, while
                // Ignition starts at 0x0800_2000.
                return Err(incompatible(device, "STM32 DFU firmware"));
            }
            // Moonlander cross-revision mismatch, by the normal-mode ids.
            let fw_keyboard = ids::identify_keyboard(*vid, *pid);
            if let Some(Keyboard::Moonlander) = fw_keyboard {
                let fw_is_revb = ids::is_moonlander_revb(*pid);
                if fw_is_revb && !is_ignition {
                    return Err(incompatible(device, "Moonlander rev B (Ignition) firmware"));
                }
                if !fw_is_revb && is_ignition {
                    return Err(incompatible(device, "Moonlander rev A (STM32 DFU) firmware"));
                }
            }
            // A DFU image cannot be written through the HalfKay protocol.
            if device.kind == BootloaderKind::Halfkay {
                return Err(incompatible(device, "DFU firmware"));
            }
        },
        Firmware::IntelHex { .. } => {
            // Intel HEX is only valid for HALFKAY devices.
            if device.kind != BootloaderKind::Halfkay {
                return Err(incompatible(device, "Intel HEX firmware (HALFKAY)"));
            }
        },
    }
    Ok(())
}

/// The protocol that flashes a bootloader of the given kind.
pub open spec fn method_for(kind: BootloaderKind) -> FlashMethod {
    match kind {
        BootloaderKind::Stm32Dfu => FlashMethod::Dfu { ignition: false },
        BootloaderKind::IgnitionStm32 | BootloaderKind::IgnitionGd32 => FlashMethod::Dfu { ignition: true },
        BootloaderKind::Halfkay => FlashMethod::Halfkay,
    }
}

/// Decide how to flash `device` with `firmware`: refuse incompatible
/// firmware, else choose the transfer protocol of the device's bootloader.
pub fn flash_device(device: &BootloaderDevice, firmware: &Firmware) -> (r: Result<FlashMethod, ZappError>)
    ensures
        match r {
            Ok(m) => incompatibility(*device, *firmware) is None && m == method_for(device.kind),
            Err(e) => compatibility_result(*device, *firmware, Err(e)),
        },
{
    validate_firmware_compatibility(device, firmware)?;
    match device.kind {
        BootloaderKind::Stm32Dfu => Ok(FlashMethod::Dfu { ignition: false }),
        BootloaderKind::IgnitionStm32 | BootloaderKind::IgnitionGd32 => Ok(FlashMethod::Dfu { ignition: true }),
        BootloaderKind::Halfkay => Ok(FlashMethod::Halfkay),
    }
}

/// Firmware that is accepted fits the bootloader it goes onto: dual images
/// only onto Ignition, Intel HEX only onto HalfKay, DFU binaries never onto
/// HalfKay, generic STM32 DFU firmware
/// never onto Ignition, and a Moonlander image only onto the bootloader of its
/// board revision.
pub proof fn law_accepted_firmware_fits_bootloader(device: BootloaderDevice, firmware: Firmware)
    requires
        incompatibility(device, firmware) is None,
    ensures
        firmware is IgnitionDual ==> is_ignition(device.kind),
        firmware is IntelHex ==> device.kind == BootloaderKind::Halfkay,
        firmware matches Firmware::DfuBinary { vid, pid, .. } ==> {
            &&& device.kind != BootloaderKind::Halfkay
            &&& (vid == ids::STM32_VID && pid == ids::STM32_DFU_PID) ==> !is_ignition(device.kind)
            &&& ids::spec_identify_keyboard(vid, pid) == Some(Keyboard::Moonlander)
                ==> (is_ignition(device.kind) <==> pid == ids::MOONLANDER_REVB_PID)
        },
{
}

/// An accepted image is written with the protocol its format calls for:
/// Intel HEX through HalfKay, dual images through Ignition DFU, DFU binaries
/// through DFU.
pub proof fn law_flash_method_fits_image(device: BootloaderDevice, firmware: Firmware)
    requires
        incompatibility(device, firmware) is None,
    ensures
        firmware is IntelHex ==> method_for(device.kind) == FlashMethod::Halfkay,
        firmware is IgnitionDual ==> method_for(device.kind) == (FlashMethod::Dfu { ignition: true }),
        firmware is DfuBinary ==> method_for(device.kind) is Dfu,
{
}

/// The two Ignition bootloaders, on STM32 and on GD32 parts, take exactly
/// the same firmware, and refuse what they refuse with the same description.
pub proof fn law_ignition_variants_alike(vid: u16, pid: u16, firmware: Firmware)
    ensures
        incompatibility(BootloaderDevice { kind: BootloaderKind::IgnitionStm32, vid, pid }, firmware)
            == incompatibility(BootloaderDevice { kind: BootloaderKind::IgnitionGd32, vid, pid }, firmware),
{
}

/// A Moonlander image is accepted on the bootloader of its board revision:
/// rev B firmware on either Ignition bootloader, rev A firmware on the STM32
/// ROM bootloader. Any other DFU image, unless it is generic STM32 firmware,
/// is accepted on every DFU bootloader.
pub proof fn law_dfu_firmware_accepted_on_its_bootloader(device: BootloaderDevice, data: Vec<u8>, vid: u16, pid: u16)
    ensures
        (device.kind == BootloaderKind::IgnitionStm32 || device.kind == BootloaderKind::IgnitionGd32)
            ==> incompatibility(device, Firmware::DfuBinary { data, vid: ids::ZSA_VID, pid: ids::MOONLANDER_REVB_PID }) is None,
        device.kind == BootloaderKind::Stm32Dfu
            ==> incompatibility(device, Firmware::DfuBinary { data, vid: ids::ZSA_VID, pid: ids::MOONLANDER_PID }) is None,
        (device.kind != BootloaderKind::Halfkay && ids::spec_identify_keyboard(vid, pid) != Some(Keyboard::Moonlander)
            && !(vid == ids::STM32_VID && pid == ids::STM32_DFU_PID))
            ==> incompatibility(device, Firmware::DfuBinary { data, vid, pid }) is None,
{
}

/// Whether a progress update can be shown: a byte count with a non-zero
/// total whose percentage fits the machine's word.
pub open spec fn progress_displayable(p: FlashProgress) -> bool {
    match p {
        FlashProgress::Erasing { bytes_erased, total_bytes } => total_bytes > 0 && bytes_erased * 100 <= usize::MAX,
        FlashProgress::Writing { bytes_written, total_bytes } => total_bytes > 0 && bytes_written * 100 <= usize::MAX,
        _ => true,
    }
}

/// The position of the progress bar, in percent, for a progress update;
/// `None` once flashing is complete.
pub open spec fn spec_progress_percent(p: FlashProgress) -> Option<int> {
    match p {
        FlashProgress::Erasing { bytes_erased, total_bytes } => Some((bytes_erased * 100) / total_bytes as int),
        FlashProgress::Writing { bytes_written, total_bytes } => Some((bytes_written * 100) / total_bytes as int),
        FlashProgress::Resetting => Some(100),
        FlashProgress::Complete => None,
    }
}

/// The position of the progress bar, in percent, for a progress update.
pub fn progress_percent(p: &FlashProgress) -> (r: Option<u64>)
    requires
        progress_displayable(*p),
    ensures
        match r {
            Some(x) => spec_progress_percent(*p) == Some(x as int),
            None => spec_progress_percent(*p) is None,
        },
{
    match p {
        FlashProgress::Erasing { bytes_erased, total_bytes } => Some(((*bytes_erased * 100) / *total_bytes) as u64),
        FlashProgress::Writing { bytes_written, total_bytes } => Some(((*bytes_written * 100) / *total_bytes) as u64),
        FlashProgress::Resetting => Some(100),
        FlashProgress::Complete => None,
    }
}

/// The message shown beside the progress bar for a progress update.
pub open spec fn spec_progress_message(p: FlashProgress) -> Seq<char> {
    match p {
        FlashProgress::Erasing { .. } => "Erasing..."@,
        FlashProgress::Writing { .. } => "Writing..."@,
        FlashProgress::Resetting => "Resetting..."@,
        FlashProgress::Complete => "Done!"@,
    }
}

/// The message shown beside the progress bar for a progress update.
pub fn progress_message(p: &FlashProgress) -> (r: &'static str)
    ensures
        r@ == spec_progress_message(*p),
{
    match p {
        FlashProgress::Erasing { .. } => "Erasing...",
        FlashProgress::Writing { .. } => "Writing...",
        FlashProgress::Resetting => "Resetting...",
        FlashProgress::Complete => "Done!",
    }
}

/// The bar never goes past its end: a displayable update of a byte count
/// that does not exceed its total shows at most 100 percent.
pub proof fn law_progress_within_bar(p: FlashProgress)
    requires
        progress_displayable(p),
        p matches FlashProgress::Erasing { bytes_erased, total_bytes } ==> bytes_erased <= total_bytes,
        p matches FlashProgress::Writing { bytes_written, total_bytes } ==> bytes_written <= total_bytes,
    ensures
        spec_progress_percent(p) matches Some(x) ==> 0 <= x <= 100,
{
    match p {
        FlashProgress::Erasing { bytes_erased, total_bytes } => {
            assert((bytes_erased * 100) / total_bytes as int <= 100) by (nonlinear_arith)
                requires bytes_erased <= total_bytes, total_bytes > 0;
        },
        FlashProgress::Writing { bytes_written, total_bytes } => {
            assert((bytes_written * 100) / total_bytes as int <= 100) by (nonlinear_arith)
                requires bytes_written <= total_bytes, total_bytes > 0;
        },
        _ => {},
    }
}

} // verus!
