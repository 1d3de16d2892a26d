use std::sync::mpsc;

use zapp::ids::{
    BootloaderKind, Keyboard, HALFKAY_PID, HALFKAY_VID, MOONLANDER_PID, STM32_DFU_PID, STM32_VID,
    VOYAGER_PID, ZSA_VID,
};
use zapp::monitor::{connected_event, DeviceEvent, DeviceMonitor, DeviceTracker};

#[test]
fn keyboard_connect_event_carries_serial() {
    match connected_event(ZSA_VID, MOONLANDER_PID, Some("lay/rev")) {
        Some(DeviceEvent::KeyboardConnected { keyboard, serial, pid }) => {
            assert_eq!(keyboard, Keyboard::Moonlander);
            assert_eq!(serial, "lay/rev");
            assert_eq!(pid, MOONLANDER_PID);
        }
        other => panic!("unexpected {:?}", other),
    }
    match connected_event(ZSA_VID, VOYAGER_PID, None) {
        Some(DeviceEvent::KeyboardConnected { serial, .. }) => assert_eq!(serial, ""),
        other => panic!("unexpected {:?}", other),
    }
}

#[test]
fn bootloader_connect_event() {
    match connected_event(HALFKAY_VID, HALFKAY_PID, None) {
        Some(DeviceEvent::BootloaderConnected { keyboard, kind, vid, pid }) => {
            assert_eq!(keyboard, Some(Keyboard::ErgodoxEz));
            assert_eq!(kind, BootloaderKind::Halfkay);
            assert_eq!((vid, pid), (HALFKAY_VID, HALFKAY_PID));
        }
        other => panic!("unexpected {:?}", other),
    }
    match connected_event(STM32_VID, STM32_DFU_PID, Some("x")) {
        Some(DeviceEvent::BootloaderConnected { keyboard, kind, .. }) => {
            assert_eq!(keyboard, None);
            assert_eq!(kind, BootloaderKind::Stm32Dfu);
        }
        other => panic!("unexpected {:?}", other),
    }
}

#[test]
fn foreign_device_gives_no_event() {
    assert!(connected_event(0x1234, 0x5678, Some("x")).is_none());
}

#[test]
fn disconnect_undoes_connect() {
    let mut t: DeviceTracker<u64> = DeviceTracker::new();
    assert!(t.on_connected(7, ZSA_VID, VOYAGER_PID, Some("a/b")).is_some());
    assert!(t.on_connected(8, STM32_VID, STM32_DFU_PID, None).is_some());
    assert!(matches!(t.on_disconnected(7), Some(DeviceEvent::KeyboardDisconnected)));
    assert!(t.on_disconnected(7).is_none());
    assert!(matches!(t.on_disconnected(8), Some(DeviceEvent::BootloaderDisconnected)));
    assert!(t.on_disconnected(8).is_none());
}

#[test]
fn untracked_disconnect_is_silent() {
    let mut t: DeviceTracker<u64> = DeviceTracker::new();
    assert!(t.on_connected(1, 0x1234, 0x5678, None).is_none());
    assert!(t.on_disconnected(1).is_none());
    assert!(t.on_disconnected(2).is_none());
}

#[test]
fn devices_present_at_start_are_tracked() {
    let mut t: DeviceTracker<u64> = DeviceTracker::new();
    t.track(3, HALFKAY_VID, HALFKAY_PID);
    t.track(4, 0x1111, 0x2222);
    assert!(matches!(t.on_disconnected(3), Some(DeviceEvent::BootloaderDisconnected)));
    assert!(t.on_disconnected(4).is_none());
}

#[test]
fn repeated_ids_are_removed_one_at_a_time() {
    let mut t: DeviceTracker<u64> = DeviceTracker::new();
    t.track(5, ZSA_VID, VOYAGER_PID);
    t.track(5, HALFKAY_VID, HALFKAY_PID);
    assert!(matches!(t.on_disconnected(5), Some(DeviceEvent::KeyboardDisconnected)));
    assert!(matches!(t.on_disconnected(5), Some(DeviceEvent::BootloaderDisconnected)));
    assert!(t.on_disconnected(5).is_none());
}

#[test]
fn monitor_receives_from_channel() {
    let (tx, rx) = mpsc::channel();
    let monitor = DeviceMonitor::from_receiver(rx);
    assert!(monitor.try_recv().is_none());
    tx.send(DeviceEvent::KeyboardDisconnected).unwrap();
    assert!(matches!(monitor.try_recv(), Some(DeviceEvent::KeyboardDisconnected)));
    tx.send(DeviceEvent::BootloaderDisconnected).unwrap();
    assert!(matches!(monitor.recv(), Some(DeviceEvent::BootloaderDisconnected)));
    drop(tx);
    assert!(monitor.recv().is_none());
}
