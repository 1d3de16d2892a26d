use zapp::device::BootloaderDevice;
use zapp::error::ZappError;
use zapp::firmware::{firmware_description, DfuImage, Firmware};
use zapp::flash::{
    flash_device, progress_message, progress_percent, validate_firmware_compatibility, FlashMethod,
    FlashProgress,
};
use zapp::ids::{
    BootloaderKind, HALFKAY_PID, HALFKAY_VID, IGNITION_GD32_PID, IGNITION_STM32_PID,
    MOONLANDER_PID, MOONLANDER_REVB_PID, STM32_DFU_PID, STM32_VID, VOYAGER_PID, ZSA_VID,
};

fn stm32() -> BootloaderDevice {
    BootloaderDevice { kind: BootloaderKind::Stm32Dfu, vid: STM32_VID, pid: STM32_DFU_PID }
}

fn ignition() -> BootloaderDevice {
    BootloaderDevice { kind: BootloaderKind::IgnitionStm32, vid: ZSA_VID, pid: IGNITION_STM32_PID }
}

fn ignition_gd32() -> BootloaderDevice {
    BootloaderDevice { kind: BootloaderKind::IgnitionGd32, vid: ZSA_VID, pid: IGNITION_GD32_PID }
}

fn halfkay() -> BootloaderDevice {
    BootloaderDevice { kind: BootloaderKind::Halfkay, vid: HALFKAY_VID, pid: HALFKAY_PID }
}

fn dfu(vid: u16, pid: u16) -> Firmware {
    Firmware::DfuBinary { data: vec![0; 4], vid, pid }
}

fn dual() -> Firmware {
    Firmware::IgnitionDual {
        primary: DfuImage { data: vec![1; 3], vid: ZSA_VID, pid: VOYAGER_PID },
        alternate: DfuImage { data: vec![2; 5], vid: ZSA_VID, pid: VOYAGER_PID },
    }
}

fn hex() -> Firmware {
    Firmware::IntelHex { data: vec![0; 12] }
}

fn refusal(device: &BootloaderDevice, fw: &Firmware) -> (String, String) {
    match validate_firmware_compatibility(device, fw) {
        Err(ZappError::IncompatibleFirmware { firmware_desc, device_desc }) => (firmware_desc, device_desc),
        Err(other) => panic!("unexpected error {:?}", other),
        Ok(()) => panic!("expected a refusal"),
    }
}

#[test]
fn dual_image_needs_ignition() {
    assert_eq!(
        refusal(&stm32(), &dual()),
        ("Ignition dual-image firmware".to_string(), "STM32 DFU bootloader".to_string())
    );
    assert!(validate_firmware_compatibility(&ignition(), &dual()).is_ok());
    assert!(validate_firmware_compatibility(&ignition_gd32(), &dual()).is_ok());
}

#[test]
fn stm32_firmware_refused_on_ignition() {
    assert_eq!(
        refusal(&ignition(), &dfu(STM32_VID, STM32_DFU_PID)),
        ("STM32 DFU firmware".to_string(), "Ignition bootloader (STM32)".to_string())
    );
    assert!(validate_firmware_compatibility(&stm32(), &dfu(STM32_VID, STM32_DFU_PID)).is_ok());
}

#[test]
fn moonlander_revision_must_match_bootloader() {
    assert_eq!(
        refusal(&stm32(), &dfu(ZSA_VID, MOONLANDER_REVB_PID)).0,
        "Moonlander rev B (Ignition) firmware"
    );
    assert_eq!(
        refusal(&ignition(), &dfu(ZSA_VID, MOONLANDER_PID)).0,
        "Moonlander rev A (STM32 DFU) firmware"
    );
    assert!(validate_firmware_compatibility(&stm32(), &dfu(ZSA_VID, MOONLANDER_PID)).is_ok());
    assert!(validate_firmware_compatibility(&ignition(), &dfu(ZSA_VID, MOONLANDER_REVB_PID)).is_ok());
}

#[test]
fn intel_hex_needs_halfkay() {
    assert_eq!(
        refusal(&stm32(), &hex()),
        ("Intel HEX firmware (HALFKAY)".to_string(), "STM32 DFU bootloader".to_string())
    );
    assert_eq!(refusal(&ignition(), &hex()).0, "Intel HEX firmware (HALFKAY)");
    assert!(validate_firmware_compatibility(&halfkay(), &hex()).is_ok());
}

#[test]
fn other_dfu_firmware_is_accepted_anywhere() {
    assert!(validate_firmware_compatibility(&ignition(), &dfu(ZSA_VID, VOYAGER_PID)).is_ok());
    assert!(validate_firmware_compatibility(&stm32(), &dfu(ZSA_VID, VOYAGER_PID)).is_ok());
}

#[test]
fn flash_method_follows_bootloader() {
    assert_eq!(
        flash_device(&stm32(), &dfu(ZSA_VID, MOONLANDER_PID)).unwrap(),
        FlashMethod::Dfu { ignition: false }
    );
    assert_eq!(flash_device(&ignition(), &dual()).unwrap(), FlashMethod::Dfu { ignition: true });
    assert_eq!(flash_device(&ignition_gd32(), &dual()).unwrap(), FlashMethod::Dfu { ignition: true });
    assert_eq!(flash_device(&halfkay(), &hex()).unwrap(), FlashMethod::Halfkay);
    assert!(flash_device(&halfkay(), &dual()).is_err());
}

#[test]
fn progress_positions() {
    let e = FlashProgress::Erasing { bytes_erased: 50, total_bytes: 200 };
    let w = FlashProgress::Writing { bytes_written: 199, total_bytes: 200 };
    assert_eq!(progress_percent(&e), Some(25));
    assert_eq!(progress_percent(&w), Some(99));
    assert_eq!(progress_percent(&FlashProgress::Resetting), Some(100));
    assert_eq!(progress_percent(&FlashProgress::Complete), None);
    assert_eq!(progress_message(&e), "Erasing...");
    assert_eq!(progress_message(&w), "Writing...");
    assert_eq!(progress_message(&FlashProgress::Resetting), "Resetting...");
    assert_eq!(progress_message(&FlashProgress::Complete), "Done!");
}

#[test]
fn progress_never_past_full() {
    let full = FlashProgress::Writing { bytes_written: 7, total_bytes: 7 };
    assert_eq!(progress_percent(&full), Some(100));
}

#[test]
fn firmware_descriptions() {
    assert_eq!(firmware_description(&dfu(ZSA_VID, MOONLANDER_PID)), "Moonlander (4 bytes)");
    assert_eq!(firmware_description(&dual()), "Voyager + Voyager (3 + 5 bytes)");
    assert_eq!(firmware_description(&hex()), "Ergodox EZ (12 bytes)");
    let big = Firmware::IntelHex { data: vec![0; 1024] };
    assert_eq!(firmware_description(&big), "Ergodox EZ (1024 bytes)");
}

#[test]
fn decimal_numerals() {
    assert_eq!(zapp::text::decimal_string(0), "0");
    assert_eq!(zapp::text::decimal_string(9), "9");
    assert_eq!(zapp::text::decimal_string(10), "10");
    assert_eq!(zapp::text::decimal_string(1234567), "1234567");
}

#[test]
fn dfu_binary_refused_on_halfkay() {
    assert_eq!(
        refusal(&halfkay(), &dfu(ZSA_VID, VOYAGER_PID)),
        ("DFU firmware".to_string(), "HalfKay bootloader".to_string())
    );
    assert_eq!(refusal(&halfkay(), &dfu(ZSA_VID, MOONLANDER_PID)).0, "DFU firmware");
    assert_eq!(refusal(&halfkay(), &dfu(STM32_VID, STM32_DFU_PID)).0, "DFU firmware");
    assert_eq!(
        refusal(&halfkay(), &dfu(ZSA_VID, MOONLANDER_REVB_PID)),
        ("Moonlander rev B (Ignition) firmware".to_string(), "HalfKay bootloader".to_string())
    );
    assert!(flash_device(&halfkay(), &dfu(ZSA_VID, VOYAGER_PID)).is_err());
}
