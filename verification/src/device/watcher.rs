//! What the bootloader watcher reports while it waits for a device.

use vstd::prelude::*;

use super::ids::{bootloader_name, friendly_name, BootloaderDevice, BootloaderKind, Keyboard};

verus! {

/// Status updates from the bootloader watcher.
#[derive(Debug, Clone)]
pub enum WatchStatus {
    /// Waiting for a bootloader device to appear.
    Waiting,
    /// A compatible bootloader was found.
    Found { keyboard: Option<Keyboard>, kind: BootloaderKind, name: &'static str },
}

/// The status that announces a found bootloader device.
pub fn found_status(device: &BootloaderDevice) -> (res: WatchStatus)
    ensures
        res matches WatchStatus::Found { keyboard, kind, name } && keyboard == device.keyboard
            && kind == device.kind && name@ == bootloader_name(device.vid, device.pid),
{
    WatchStatus::Found {
        keyboard: device.keyboard,
        kind: device.kind,
        name: friendly_name(device.vid, device.pid),
    }
}

} // verus!
