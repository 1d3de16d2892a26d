//! Verified core of a flashing tool for ZSA keyboards: Oryx URL and serial
//! parsing, firmware/bootloader compatibility rules, flash planning, and the
//! bookkeeping of a USB hotplug monitor.

pub mod text;
pub mod device;
pub mod error;
pub mod firmware;
pub mod flash;
pub mod ids;
pub mod monitor;
pub mod oryx;
