# zapp

The verified core of a flashing tool for ZSA keyboards, written in Verus.

- `src/oryx.rs` — Oryx layout URLs and keyboard serials (`layoutId/revisionId`),
  the addresses of the Oryx firmware service, and the update decision.
- `src/flash.rs` — which firmware may go onto which bootloader, the transfer
  protocol for a device, and the progress display.
- `src/monitor.rs` — the bookkeeping of the USB hotplug monitor: which ZSA
  devices are connected, and the events reported for them.
- `src/ids.rs` — USB identities of ZSA keyboards and of their bootloaders.
- `src/firmware.rs`, `src/device.rs`, `src/error.rs` — the data the logic works on.
- `src/text.rs` — character-level string helpers and decimal numerals.

`app/` holds the I/O around it: requests to the Oryx service and the USB
watcher thread that feeds a `DeviceMonitor`.
