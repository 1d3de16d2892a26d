//! USB identities of ZSA keyboards and of the bootloaders they are flashed through.

use vstd::prelude::*;

verus! {

/// Vendor id of ZSA keyboards and of their Ignition bootloader.
pub const ZSA_VID: u16 = 0x3297;
/// Vendor id of STMicroelectronics, whose ROM bootloader speaks DFU.
pub const STM32_VID: u16 = 0x0483;
/// Product id of the STM32 ROM DFU bootloader.
pub const STM32_DFU_PID: u16 = 0xDF11;
/// Vendor id of the HalfKay bootloader of the Ergodox EZ (Teensy).
pub const HALFKAY_VID: u16 = 0x16C0;
/// Product id of the HalfKay bootloader.
pub const HALFKAY_PID: u16 = 0x0478;
/// Product id of the Ignition bootloader on STM32 parts (under `ZSA_VID`).
pub const IGNITION_STM32_PID: u16 = 0x0791;
/// Product id of the Ignition bootloader on GD32 parts (under `ZSA_VID`).
pub const IGNITION_GD32_PID: u16 = 0x0792;
/// Normal-mode product id of the Moonlander (rev A, STM32 DFU bootloader).
pub const MOONLANDER_PID: u16 = 0x1969;
/// Normal-mode product id of the Moonlander rev B (Ignition bootloader).
pub const MOONLANDER_REVB_PID: u16 = 0x1972;
/// Normal-mode product id of the Voyager.
pub const VOYAGER_PID: u16 = 0x1977;
/// Normal-mode product ids of the Ergodox EZ.
pub const ERGODOX_PID_FIRST: u16 = 0x4974;
pub const ERGODOX_PID_LAST: u16 = 0x4976;
/// Normal-mode product ids of the Planck EZ.
pub const PLANCK_PID_FIRST: u16 = 0xC6CE;
pub const PLANCK_PID_LAST: u16 = 0xC6CF;

/// A ZSA keyboard model.
#[derive(Debug, Clone, Copy, PartialEq, Eq, Structural)]
pub enum Keyboard {
    ErgodoxEz,
    PlanckEz,
    Moonlander,
    Voyager,
}

/// The bootloader protocol a device in flashing mode speaks.
#[derive(Debug, Clone, Copy, PartialEq, Eq, Structural)]
pub enum BootloaderKind {
    Stm32Dfu,
    IgnitionStm32,
    IgnitionGd32,
    Halfkay,
}

/// The keyboard that a device in normal mode is, if it is a ZSA keyboard.
pub open spec fn spec_identify_keyboard(vid: u16, pid: u16) -> Option<Keyboard> {
    if vid != ZSA_VID {
        None
    } else if ERGODOX_PID_FIRST <= pid <= ERGODOX_PID_LAST {
        Some(Keyboard::ErgodoxEz)
    } else if PLANCK_PID_FIRST <= pid <= PLANCK_PID_LAST {
        Some(Keyboard::PlanckEz)
    } else if pid == MOONLANDER_PID || pid == MOONLANDER_REVB_PID {
        Some(Keyboard::Moonlander)
    } else if pid == VOYAGER_PID {
        Some(Keyboard::Voyager)
    } else {
        None
    }
}

/// The bootloader that a device is, if it is one ZSA keyboards are flashed through.
pub open spec fn spec_identify_bootloader(vid: u16, pid: u16) -> Option<BootloaderKind> {
    if vid == STM32_VID && pid == STM32_DFU_PID {
        Some(BootloaderKind::Stm32Dfu)
    } else if vid == ZSA_VID && pid == IGNITION_STM32_PID {
        Some(BootloaderKind::IgnitionStm32)
    } else if vid == ZSA_VID && pid == IGNITION_GD32_PID {
        Some(BootloaderKind::IgnitionGd32)
    } else if vid == HALFKAY_VID && pid == HALFKAY_PID {
        Some(BootloaderKind::Halfkay)
    } else {
        None
    }
}

/// The keyboard behind a bootloader, where the bootloader alone tells it:
/// HalfKay only serves the Ergodox EZ, while the STM32 ROM bootloader and
/// Ignition are each shared by several models.
pub open spec fn spec_keyboard_for_bootloader(vid: u16, pid: u16) -> Option<Keyboard> {
    match spec_identify_bootloader(vid, pid) {
        Some(BootloaderKind::Halfkay) => Some(Keyboard::ErgodoxEz),
        _ => None,
    }
}

/// Identify a ZSA keyboard in normal mode by its USB ids.
pub fn identify_keyboard(vid: u16, pid: u16) -> (r: Option<Keyboard>)
    ensures
        r == spec_identify_keyboard(vid, pid),
{
    if vid != ZSA_VID {
        None
    } else if ERGODOX_PID_FIRST <= pid && pid <= ERGODOX_PID_LAST {
        Some(Keyboard::ErgodoxEz)
    } else if PLANCK_PID_FIRST <= pid && pid <= PLANCK_PID_LAST {
        Some(Keyboard::PlanckEz)
    } else if pid == MOONLANDER_PID || pid == MOONLANDER_REVB_PID {
        Some(Keyboard::Moonlander)
    } else if pid == VOYAGER_PID {
        Some(Keyboard::Voyager)
    } else {
        None
    }
}

/// Identify a bootloader by its USB ids.
pub fn identify_bootloader(vid: u16, pid: u16) -> (r: Option<BootloaderKind>)
    ensures
        r == spec_identify_bootloader(vid, pid),
{
    if vid == STM32_VID && pid == STM32_DFU_PID {
        Some(BootloaderKind::Stm32Dfu)
    } else if vid == ZSA_VID && pid == IGNITION_STM32_PID {
        Some(BootloaderKind::IgnitionStm32)
    } else if vid == ZSA_VID && pid == IGNITION_GD32_PID {
        Some(BootloaderKind::IgnitionGd32)
    } else if vid == HALFKAY_VID && pid == HALFKAY_PID {
        Some(BootloaderKind::Halfkay)
    } else {
        None
    }
}

/// The keyboard a bootloader belongs to, where the bootloader's ids tell it.
pub fn keyboard_for_bootloader(vid: u16, pid: u16) -> (r: Option<Keyboard>)
    ensures
        r == spec_keyboard_for_bootloader(vid, pid),
{
    match identify_bootloader(vid, pid) {
        Some(BootloaderKind::Halfkay) => Some(Keyboard::ErgodoxEz),
        _ => None,
    }
}

/// Whether a normal-mode product id is that of a Moonlander rev B.
pub fn is_moonlander_revb(pid: u16) -> (r: bool)
    ensures
        r == (pid == MOONLANDER_REVB_PID),
{
    pid == MOONLANDER_REVB_PID
}

/// A readable name of a USB device, keyboard or bootloader.
pub open spec fn spec_friendly_name(vid: u16, pid: u16) -> Seq<char> {
    match spec_identify_keyboard(vid, pid) {
        Some(Keyboard::ErgodoxEz) => "Ergodox EZ"@,
        Some(Keyboard::PlanckEz) => "Planck EZ"@,
        Some(Keyboard::Moonlander) => "Moonlander"@,
        Some(Keyboard::Voyager) => "Voyager"@,
        None => match spec_identify_bootloader(vid, pid) {
            Some(BootloaderKind::Stm32Dfu) => "STM32 DFU bootloader"@,
            Some(BootloaderKind::IgnitionStm32) => "Ignition bootloader (STM32)"@,
            Some(BootloaderKind::IgnitionGd32) => "Ignition bootloader (GD32)"@,
            Some(BootloaderKind::Halfkay) => "HalfKay bootloader"@,
            None => "unknown device"@,
        },
    }
}

/// A readable name of a USB device, keyboard or bootloader.
pub fn friendly_name(vid: u16, pid: u16) -> (r: &'static str)
    ensures
        r@ == spec_friendly_name(vid, pid),
{
    match identify_keyboard(vid, pid) {
        Some(Keyboard::ErgodoxEz) => "Ergodox EZ",
        Some(Keyboard::PlanckEz) => "Planck EZ",
        Some(Keyboard::Moonlander) => "Moonlander",
        Some(Keyboard::Voyager) => "Voyager",
        None => match identify_bootloader(vid, pid) {
            Some(BootloaderKind::Stm32Dfu) => "STM32 DFU bootloader",
            Some(BootloaderKind::IgnitionStm32) => "Ignition bootloader (STM32)",
            Some(BootloaderKind::IgnitionGd32) => "Ignition bootloader (GD32)",
            Some(BootloaderKind::Halfkay) => "HalfKay bootloader",
            None => "unknown device",
        },
    }
}

/// The name of the keyboard a firmware image targets, by the normal-mode
/// product id it was built for.
pub open spec fn spec_target_name_for_pid(pid: u16) -> Seq<char> {
    if pid == MOONLANDER_REVB_PID {
        "Moonlander rev B"@
    } else {
        match spec_identify_keyboard(ZSA_VID, pid) {
            Some(Keyboard::ErgodoxEz) => "Ergodox EZ"@,
            Some(Keyboard::PlanckEz) => "Planck EZ"@,
            Some(Keyboard::Moonlander) => "Moonlander"@,
            Some(Keyboard::Voyager) => "Voyager"@,
            None => "unknown keyboard"@,
        }
    }
}

/// The name of the keyboard a firmware image targets.
pub fn target_name_for_pid(pid: u16) -> (r: &'static str)
    ensures
        r@ == spec_target_name_for_pid(pid),
{
    if pid == MOONLANDER_REVB_PID {
        "Moonlander rev B"
    } else {
        match identify_keyboard(ZSA_VID, pid) {
            Some(Keyboard::ErgodoxEz) => "Ergodox EZ",
            Some(Keyboard::PlanckEz) => "Planck EZ",
            Some(Keyboard::Moonlander) => "Moonlander",
            Some(Keyboard::Voyager) => "Voyager",
            None => "unknown keyboard",
        }
    }
}

} // verus!
