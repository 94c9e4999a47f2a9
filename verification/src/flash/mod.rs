//! Deciding how a firmware image may be flashed onto a bootloader device.

pub mod dfu;
pub mod halfkay;

use vstd::prelude::*;
use vstd::string::*;

use crate::device::ids::{
    bootloader_name, bootloader_of, friendly_name, identify_bootloader, identify_keyboard,
    is_moonlander_revb, keyboard_of, target_name, target_name_for_pid, BootloaderDevice,
    BootloaderKind, Keyboard, MOONLANDER_REVB_PID, ZSA_VID,
};
use crate::error::ZappError;
use crate::firmware::{DfuImage, Firmware};
use dfu::{dfu_image_of, flash_start};

verus! {

/// Progress updates emitted during flashing.
#[derive(Debug, Clone, Copy, PartialEq, Eq, Structural)]
pub enum FlashProgress {
    Erasing { bytes_erased: usize, total_bytes: usize },
    Writing { bytes_written: usize, total_bytes: usize },
    Resetting,
    Complete,
}

/// The protocol that writes firmware onto a device.
#[derive(Debug, Clone, Copy, PartialEq, Eq, Structural)]
pub enum FlashMethod {
    /// DFU; `ignition` selects the Ignition flash addresses.
    Dfu { ignition: bool },
    /// HALFKAY (HID reports).
    Halfkay,
}

/// Whether a bootloader is ZSA's Ignition.
pub open spec fn is_ignition(kind: BootloaderKind) -> bool {
    kind is IgnitionStm32 || kind is IgnitionGd32
}

/// The protocol used for a bootloader kind.
pub open spec fn method_of(kind: BootloaderKind) -> FlashMethod {
    match kind {
        BootloaderKind::Stm32Dfu => FlashMethod::Dfu { ignition: false },
        BootloaderKind::IgnitionStm32 | BootloaderKind::IgnitionGd32 => FlashMethod::Dfu { ignition: true },
        BootloaderKind::Halfkay => FlashMethod::Halfkay,
    }
}

/// The protocol used for a bootloader kind.
pub fn flash_method(kind: BootloaderKind) -> (res: FlashMethod)
    ensures
        res == method_of(kind),
{
    match kind {
        BootloaderKind::Stm32Dfu => FlashMethod::Dfu { ignition: false },
        BootloaderKind::IgnitionStm32 | BootloaderKind::IgnitionGd32 => FlashMethod::Dfu { ignition: true },
        BootloaderKind::Halfkay => FlashMethod::Halfkay,
    }
}

/// The description of the firmware when it cannot go onto `device`, or `None` when it can.
pub open spec fn incompatibility(device: BootloaderDevice, firmware: Firmware) -> Option<Seq<char>> {
    let device_is_ignition = is_ignition(device.kind);
    match firmware {
        Firmware::IgnitionDual { primary, alternate } => {
            if device.pid != primary.pid && device.pid != alternate.pid {
                Some(
                    "dual-image firmware ("@ + target_name(primary.pid) + " + "@ + target_name(
                        alternate.pid,
                    ) + ")"@,
                )
            } else {
                None
            }
        },
        Firmware::DfuBinary { vid, pid, .. } => {
            let fw = bootloader_of(vid, pid);
            if fw == Some(BootloaderKind::Stm32Dfu) && device_is_ignition {
                Some(target_name(pid) + " firmware (STM32 DFU)"@)
            } else if fw matches Some(k) && is_ignition(k) && !device_is_ignition {
                Some(target_name(pid) + " firmware (Ignition)"@)
            } else if vid == ZSA_VID && keyboard_of(vid, pid) == Some(Keyboard::Moonlander) {
                if pid == MOONLANDER_REVB_PID && !device_is_ignition {
                    Some("Moonlander rev B (Ignition) firmware"@)
                } else if pid != MOONLANDER_REVB_PID && device_is_ignition {
                    Some("Moonlander rev A (STM32 DFU) firmware"@)
                } else {
                    None
                }
            } else {
                None
            }
        },
        Firmware::IntelHex { .. } => {
            if device.kind != BootloaderKind::Halfkay {
                Some("Intel HEX firmware (HALFKAY)"@)
            } else {
                None
            }
        },
    }
}

/// What checking `firmware` against `device` gives.
pub open spec fn compatibility_matches(
    device: BootloaderDevice,
    firmware: Firmware,
    res: Result<(), ZappError>,
) -> bool {
    match incompatibility(device, firmware) {
        None => res is Ok,
        Some(desc) => res matches Err(e) && e.is_incompatible(desc, bootloader_name(device.vid, device.pid)),
    }
}

fn incompatible(desc: String, device: &BootloaderDevice) -> (res: ZappError)
    ensures
        res.is_incompatible(desc@, bootloader_name(device.vid, device.pid)),
{
    ZappError::IncompatibleFirmware {
        firmware_desc: desc,
        device_desc: String::from_str(friendly_name(device.vid, device.pid)),
    }
}

/// Validate that the firmware is compatible with the target bootloader device.
///
/// Prevents flashing firmware built for one bootloader protocol onto a device
/// using a different protocol (e.g. STM32 DFU firmware onto an Ignition device),
/// which would brick the keyboard due to mismatched base addresses.
pub fn validate_firmware_compatibility(device: &BootloaderDevice, firmware: &Firmware) -> (res: Result<(), ZappError>)
    ensures
        compatibility_matches(*device, *firmware, res),
{
    let is_ignition = matches!(device.kind, BootloaderKind::IgnitionStm32 | BootloaderKind::IgnitionGd32);
    match firmware {
        Firmware::IgnitionDual { primary, alternate } => {
            // The device's bootloader PID must match one of the two images so the
            // right one is selected when flashing.
            if device.pid != primary.pid && device.pid != alternate.pid {
                let mut desc = String::from_str("dual-image firmware (");
                desc.append(target_name_for_pid(primary.pid));
                desc.append(" + ");
                desc.append(target_name_for_pid(alternate.pid));
                desc.append(")");
                return Err(incompatible(desc, device));
            }
        },
        Firmware::DfuBinary { vid, pid, .. } => {
            // Which bootloader protocol the firmware expects, from the VID/PID in its suffix.
            let fw_bootloader = identify_bootloader(*vid, *pid);
            let fw_is_ignition = matches!(fw_bootloader, Some(BootloaderKind::IgnitionStm32 | BootloaderKind::IgnitionGd32));
            let fw_is_stm32_dfu = matches!(fw_bootloader, Some(BootloaderKind::Stm32Dfu));
            if fw_is_stm32_dfu && is_ignition {
                // STM32 DFU firmware (linked at 0x0800_0000) on Ignition device (0x0800_2000).
                let mut desc = String::from_str(target_name_for_pid(*pid));
                desc.append(" firmware (STM32 DFU)");
                return Err(incompatible(desc, device));
            }
            if fw_is_ignition && !is_ignition {
                // Ignition firmware (linked at 0x0800_2000) on STM32 DFU device (0x0800_0000).
                let mut desc = String::from_str(target_name_for_pid(*pid));
                desc.append(" firmware (Ignition)");
                return Err(incompatible(desc, device));
            }
            // Normal-mode PIDs: a Moonlander rev B boots through Ignition, a rev A does not.
            if *vid == ZSA_VID {
                let fw_keyboard = identify_keyboard(*vid, *pid);
                if fw_keyboard == Some(Keyboard::Moonlander) {
                    let fw_is_revb = is_moonlander_revb(*pid);
                    if fw_is_revb && !is_ignition {
                        return Err(incompatible(String::from_str("Moonlander rev B (Ignition) firmware"), device));
                    }
                    if !fw_is_revb && is_ignition {
                        return Err(incompatible(String::from_str("Moonlander rev A (STM32 DFU) firmware"), device));
                    }
                }
            }
        },
        Firmware::IntelHex { .. } => {
            // Intel HEX is only valid for HALFKAY devices.
            if device.kind != BootloaderKind::Halfkay {
                return Err(incompatible(String::from_str("Intel HEX firmware (HALFKAY)"), device));
            }
        },
    }
    Ok(())
}

/// How to flash `firmware` onto `device`: the protocol of its bootloader, once the
/// firmware is found compatible.
pub fn flash_method_for(device: &BootloaderDevice, firmware: &Firmware) -> (res: Result<FlashMethod, ZappError>)
    ensures
        incompatibility(*device, *firmware) is None ==> res == Ok::<FlashMethod, ZappError>(method_of(device.kind)),
        incompatibility(*device, *firmware) is Some ==> res is Err && compatibility_matches(
            *device,
            *firmware,
            Err(res->Err_0),
        ),
{
    match validate_firmware_compatibility(device, firmware) {
        Ok(()) => Ok(flash_method(device.kind)),
        Err(e) => Err(e),
    }
}


/// The percentage that `done` bytes of `total` make, rounded down.
pub fn progress_percent(done: usize, total: usize) -> (res: usize)
    requires
        total > 0,
        done * 100 <= usize::MAX,
    ensures
        res as int == (done * 100) / (total as int),
{
    done * 100 / total
}


/// A DFU binary whose suffix names an STM32 DFU or an Ignition bootloader is
/// accepted only by a DFU device of the same family, so it is written at the very
/// address it was built for.
pub proof fn lemma_accepted_binary_lands_at_its_base(
    device: BootloaderDevice,
    data: Vec<u8>,
    vid: u16,
    pid: u16,
)
    requires
        incompatibility(device, Firmware::DfuBinary { data, vid, pid }) is None,
        bootloader_of(vid, pid) matches Some(k) && k != BootloaderKind::Halfkay,
        device.kind != BootloaderKind::Halfkay,
    ensures
        is_ignition(bootloader_of(vid, pid)->0) == is_ignition(device.kind),
        method_of(device.kind) == (FlashMethod::Dfu { ignition: is_ignition(bootloader_of(vid, pid)->0) }),
        flash_start(is_ignition(device.kind)) == flash_start(is_ignition(bootloader_of(vid, pid)->0)),
{
}

/// A Moonlander binary built for a normal-mode PID is accepted only where its
/// revision belongs: rev B on an Ignition bootloader, rev A on any other.
pub proof fn lemma_moonlander_revision_matches_bootloader(
    device: BootloaderDevice,
    data: Vec<u8>,
    pid: u16,
)
    requires
        keyboard_of(ZSA_VID, pid) == Some(Keyboard::Moonlander),
        incompatibility(device, Firmware::DfuBinary { data, vid: ZSA_VID, pid }) is None,
    ensures
        (pid == MOONLANDER_REVB_PID) == is_ignition(device.kind),
{
}

/// A dual-image firmware accepted by a device is flashed with the image built for
/// that device's PID.
pub proof fn lemma_accepted_dual_image_matches_device(
    device: BootloaderDevice,
    primary: DfuImage,
    alternate: DfuImage,
)
    requires
        incompatibility(device, Firmware::IgnitionDual { primary, alternate }) is None,
    ensures
        device.pid == primary.pid || device.pid == alternate.pid,
        device.pid == primary.pid ==> dfu_image_of(Firmware::IgnitionDual { primary, alternate }, device.pid)
            == Some(primary.data@),
        device.pid != primary.pid ==> dfu_image_of(Firmware::IgnitionDual { primary, alternate }, device.pid)
            == Some(alternate.data@),
{
}

/// Intel HEX firmware is accepted by HALFKAY devices and by no other.
pub proof fn lemma_intel_hex_only_on_halfkay(device: BootloaderDevice, data: Vec<u8>)
    ensures
        incompatibility(device, Firmware::IntelHex { data }) is None <==> device.kind == BootloaderKind::Halfkay,
        incompatibility(device, Firmware::IntelHex { data }) is None ==> method_of(device.kind) == FlashMethod::Halfkay,
{
}


/// A dual-image firmware is accepted by exactly the devices whose PID is that of
/// one of its two images, whichever of the two it is, and is then flashed with the
/// image of that PID.
pub proof fn lemma_dual_image_accepted_by_either_pid(
    device: BootloaderDevice,
    primary: DfuImage,
    alternate: DfuImage,
)
    ensures
        incompatibility(device, Firmware::IgnitionDual { primary, alternate }) is None <==> (device.pid
            == primary.pid || device.pid == alternate.pid),
        device.pid == primary.pid ==> dfu_image_of(Firmware::IgnitionDual { primary, alternate }, device.pid)
            == Some(primary.data@),
        device.pid == alternate.pid && device.pid != primary.pid ==> dfu_image_of(
            Firmware::IgnitionDual { primary, alternate },
            device.pid,
        ) == Some(alternate.data@),
{
}


/// A DFU binary is refused only for a mismatch of flash layout: one whose suffix
/// names no Ignition and no STM32 DFU bootloader and no Moonlander goes onto every
/// device, one whose suffix names a bootloader of the device's own family (Ignition
/// or not) is accepted, and a Moonlander binary is accepted exactly where its
/// revision belongs (rev B on Ignition, rev A elsewhere).
pub proof fn lemma_binary_accepted_when_layouts_agree(device: BootloaderDevice, data: Vec<u8>, vid: u16, pid: u16)
    ensures
        keyboard_of(vid, pid) != Some(Keyboard::Moonlander) && (bootloader_of(vid, pid) matches Some(k)
            ==> (k == BootloaderKind::Halfkay || is_ignition(k) == is_ignition(device.kind)))
            ==> incompatibility(device, Firmware::DfuBinary { data, vid, pid }) is None,
        keyboard_of(vid, pid) == Some(Keyboard::Moonlander) ==> (incompatibility(
            device,
            Firmware::DfuBinary { data, vid, pid },
        ) is None <==> ((pid == MOONLANDER_REVB_PID) == is_ignition(device.kind))),
{
}

} // verus!
