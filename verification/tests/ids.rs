use zapp::ids::{
    friendly_name, identify_bootloader, identify_keyboard, is_moonlander_revb,
    keyboard_for_bootloader, target_name_for_pid, BootloaderKind, Keyboard, HALFKAY_PID,
    HALFKAY_VID, IGNITION_GD32_PID, IGNITION_STM32_PID, MOONLANDER_PID, MOONLANDER_REVB_PID,
    STM32_DFU_PID, STM32_VID, VOYAGER_PID, ZSA_VID,
};

#[test]
fn keyboards_by_ids() {
    assert_eq!(identify_keyboard(ZSA_VID, MOONLANDER_PID), Some(Keyboard::Moonlander));
    assert_eq!(identify_keyboard(ZSA_VID, MOONLANDER_REVB_PID), Some(Keyboard::Moonlander));
    assert_eq!(identify_keyboard(ZSA_VID, VOYAGER_PID), Some(Keyboard::Voyager));
    assert_eq!(identify_keyboard(ZSA_VID, 0x4975), Some(Keyboard::ErgodoxEz));
    assert_eq!(identify_keyboard(ZSA_VID, 0xC6CF), Some(Keyboard::PlanckEz));
    assert_eq!(identify_keyboard(0x1234, MOONLANDER_PID), None);
}

#[test]
fn bootloaders_by_ids() {
    assert_eq!(identify_bootloader(STM32_VID, STM32_DFU_PID), Some(BootloaderKind::Stm32Dfu));
    assert_eq!(identify_bootloader(ZSA_VID, IGNITION_STM32_PID), Some(BootloaderKind::IgnitionStm32));
    assert_eq!(identify_bootloader(ZSA_VID, IGNITION_GD32_PID), Some(BootloaderKind::IgnitionGd32));
    assert_eq!(identify_bootloader(HALFKAY_VID, HALFKAY_PID), Some(BootloaderKind::Halfkay));
    assert_eq!(identify_bootloader(ZSA_VID, VOYAGER_PID), None);
    assert_eq!(keyboard_for_bootloader(HALFKAY_VID, HALFKAY_PID), Some(Keyboard::ErgodoxEz));
    assert_eq!(keyboard_for_bootloader(STM32_VID, STM32_DFU_PID), None);
    assert_eq!(keyboard_for_bootloader(ZSA_VID, IGNITION_STM32_PID), None);
    assert_eq!(keyboard_for_bootloader(ZSA_VID, IGNITION_GD32_PID), None);
}

#[test]
fn names() {
    assert!(is_moonlander_revb(MOONLANDER_REVB_PID));
    assert!(!is_moonlander_revb(MOONLANDER_PID));
    assert_eq!(friendly_name(ZSA_VID, VOYAGER_PID), "Voyager");
    assert_eq!(friendly_name(HALFKAY_VID, HALFKAY_PID), "HalfKay bootloader");
    assert_eq!(friendly_name(1, 2), "unknown device");
    assert_eq!(target_name_for_pid(MOONLANDER_REVB_PID), "Moonlander rev B");
    assert_eq!(target_name_for_pid(MOONLANDER_PID), "Moonlander");
    assert_eq!(target_name_for_pid(1), "unknown keyboard");
}
