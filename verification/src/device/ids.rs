//! USB identifiers of ZSA keyboards and of the bootloaders that flash them.

use vstd::prelude::*;

verus! {

/// ZSA vendor ID.
pub const ZSA_VID: u16 = 0x3297;

/// STMicroelectronics vendor ID (generic STM32 DFU bootloader).
pub const STM32_VID: u16 = 0x0483;

/// Product ID of the generic STM32 DFU bootloader.
pub const STM32_DFU_PID: u16 = 0xDF11;

/// PJRC / Teensyduino vendor ID (HALFKAY bootloader).
pub const HALFKAY_VID: u16 = 0x16C0;

/// Product ID of the HALFKAY bootloader.
pub const HALFKAY_PID: u16 = 0x0478;

/// Known ZSA keyboard models.
#[derive(Debug, Clone, Copy, PartialEq, Eq, Structural)]
pub enum Keyboard {
    ErgodoxEz,
    PlanckEz,
    Moonlander,
    Voyager,
}

/// Bootloader protocol variant.
#[derive(Debug, Clone, Copy, PartialEq, Eq, Structural)]
pub enum BootloaderKind {
    /// Generic STM32 DFU bootloader (flash at 0x0800_0000).
    Stm32Dfu,
    /// ZSA Ignition bootloader on an STM32 chip (flash at 0x0800_2000).
    IgnitionStm32,
    /// ZSA Ignition bootloader on a GD32 chip (flash at 0x0800_2000).
    IgnitionGd32,
    /// Legacy HALFKAY (Teensy) bootloader for original Ergodox EZ.
    Halfkay,
}

/// A bootloader device ready for flashing, as identified on the bus.
#[derive(Debug, Clone, Copy, PartialEq, Eq)]
pub struct BootloaderDevice {
    pub vid: u16,
    pub pid: u16,
    pub kind: BootloaderKind,
    pub keyboard: Option<Keyboard>,
}

/// The bootloader protocol that a VID/PID pair announces, if any.
pub open spec fn bootloader_of(vid: u16, pid: u16) -> Option<BootloaderKind> {
    if vid == HALFKAY_VID && pid == HALFKAY_PID {
        Some(BootloaderKind::Halfkay)
    } else if vid == STM32_VID && pid == STM32_DFU_PID {
        Some(BootloaderKind::Stm32Dfu)
    } else if vid == ZSA_VID && pid == 0x0791 {
        Some(BootloaderKind::IgnitionStm32)
    } else if vid == ZSA_VID && pid == 0x1791 {
        Some(BootloaderKind::IgnitionGd32)
    } else if vid == ZSA_VID && 0x2000 <= pid <= 0x2003 {
        // Ignition Ergodox variants and the Ignition Moonlander (all STM32)
        Some(BootloaderKind::IgnitionStm32)
    } else {
        None
    }
}

/// The keyboard model that a bootloader VID/PID pair belongs to, if it tells.
pub open spec fn keyboard_of_bootloader(vid: u16, pid: u16) -> Option<Keyboard> {
    if vid == HALFKAY_VID && pid == HALFKAY_PID {
        Some(Keyboard::ErgodoxEz)
    } else if vid == ZSA_VID && (pid == 0x0791 || pid == 0x1791) {
        Some(Keyboard::Voyager)
    } else if vid == ZSA_VID && 0x2000 <= pid <= 0x2002 {
        Some(Keyboard::ErgodoxEz)
    } else if vid == ZSA_VID && pid == 0x2003 {
        Some(Keyboard::Moonlander)
    } else {
        // includes the generic STM32 DFU bootloader, which any STM32 board may show
        None
    }
}

/// Identify a bootloader from its VID/PID. Returns `None` if not a known bootloader.
pub fn identify_bootloader(vid: u16, pid: u16) -> (res: Option<BootloaderKind>)
    ensures
        res == bootloader_of(vid, pid),
{
    if vid == HALFKAY_VID && pid == HALFKAY_PID {
        Some(BootloaderKind::Halfkay)
    } else if vid == STM32_VID && pid == STM32_DFU_PID {
        Some(BootloaderKind::Stm32Dfu)
    } else if vid == ZSA_VID && pid == 0x0791 {
        Some(BootloaderKind::IgnitionStm32)
    } else if vid == ZSA_VID && pid == 0x1791 {
        Some(BootloaderKind::IgnitionGd32)
    } else if vid == ZSA_VID && 0x2000 <= pid && pid <= 0x2003 {
        Some(BootloaderKind::IgnitionStm32)
    } else {
        None
    }
}

/// Get the keyboard model for a bootloader PID.
pub fn keyboard_for_bootloader(vid: u16, pid: u16) -> (res: Option<Keyboard>)
    ensures
        res == keyboard_of_bootloader(vid, pid),
{
    if vid == HALFKAY_VID && pid == HALFKAY_PID {
        Some(Keyboard::ErgodoxEz)
    } else if vid == ZSA_VID && (pid == 0x0791 || pid == 0x1791) {
        Some(Keyboard::Voyager)
    } else if vid == ZSA_VID && 0x2000 <= pid && pid <= 0x2002 {
        Some(Keyboard::ErgodoxEz)
    } else if vid == ZSA_VID && pid == 0x2003 {
        Some(Keyboard::Moonlander)
    } else {
        None
    }
}


/// Human-readable name of a bootloader VID/PID pair.
pub open spec fn bootloader_name(vid: u16, pid: u16) -> Seq<char> {
    if vid == HALFKAY_VID && pid == HALFKAY_PID {
        "Ergodox EZ (HALFKAY)"@
    } else if vid == STM32_VID && pid == STM32_DFU_PID {
        "Keyboard in Reset Mode (STM32 DFU)"@
    } else if vid == ZSA_VID && pid == 0x0791 {
        "Voyager (Ignition STM32)"@
    } else if vid == ZSA_VID && pid == 0x1791 {
        "Voyager (Ignition GD32)"@
    } else if vid == ZSA_VID && pid == 0x2000 {
        "Ergodox EZ Glow (Ignition)"@
    } else if vid == ZSA_VID && pid == 0x2001 {
        "Ergodox EZ Shine (Ignition)"@
    } else if vid == ZSA_VID && pid == 0x2002 {
        "Ergodox EZ Original (Ignition)"@
    } else if vid == ZSA_VID && pid == 0x2003 {
        "Moonlander (Ignition)"@
    } else {
        "Unknown"@
    }
}

/// Human-readable name for a bootloader device.
pub fn friendly_name(vid: u16, pid: u16) -> (res: &'static str)
    ensures
        res@ == bootloader_name(vid, pid),
{
    if vid == HALFKAY_VID && pid == HALFKAY_PID {
        "Ergodox EZ (HALFKAY)"
    } else if vid == STM32_VID && pid == STM32_DFU_PID {
        "Keyboard in Reset Mode (STM32 DFU)"
    } else if vid == ZSA_VID && pid == 0x0791 {
        "Voyager (Ignition STM32)"
    } else if vid == ZSA_VID && pid == 0x1791 {
        "Voyager (Ignition GD32)"
    } else if vid == ZSA_VID && pid == 0x2000 {
        "Ergodox EZ Glow (Ignition)"
    } else if vid == ZSA_VID && pid == 0x2001 {
        "Ergodox EZ Shine (Ignition)"
    } else if vid == ZSA_VID && pid == 0x2002 {
        "Ergodox EZ Original (Ignition)"
    } else if vid == ZSA_VID && pid == 0x2003 {
        "Moonlander (Ignition)"
    } else {
        "Unknown"
    }
}

/// Human-readable name of the target that a firmware PID (the PID in a DFU suffix) stands for.
pub open spec fn target_name(pid: u16) -> Seq<char> {
    if pid == 0x1307 {
        "Ergodox EZ"@
    } else if pid == 0x4974 || pid == 0x2030 {
        "Ergodox EZ Original"@
    } else if pid == 0x4975 || pid == 0x2020 {
        "Ergodox EZ Shine"@
    } else if pid == 0x4976 || pid == 0x2010 {
        "Ergodox EZ Glow"@
    } else if pid == 0x6060 {
        "Planck EZ"@
    } else if pid == 0xC6CE {
        "Planck EZ Standard"@
    } else if pid == 0xC6CF {
        "Planck EZ Glow"@
    } else if pid == 0x1969 || pid == 0x1972 {
        "Moonlander MK1"@
    } else if pid == 0x1977 || pid == 0x1978 {
        "Voyager"@
    } else if pid == 0x0791 {
        "Voyager (STM32)"@
    } else if pid == 0x1791 {
        "Voyager (GD32)"@
    } else if pid == 0x2000 {
        "Ergodox EZ Glow"@
    } else if pid == 0x2001 {
        "Ergodox EZ Shine"@
    } else if pid == 0x2002 {
        "Ergodox EZ Original"@
    } else if pid == 0x2003 {
        "Moonlander MK1"@
    } else if pid == 0xDF11 {
        "STM32 DFU"@
    } else {
        "Unknown"@
    }
}

/// Human-readable target name from a firmware PID (the PID embedded in the DFU suffix).
/// These are the normal-mode PIDs that identify which keyboard the firmware is built for;
/// bootloader PIDs that may appear in firmware suffixes are named too.
pub fn target_name_for_pid(pid: u16) -> (res: &'static str)
    ensures
        res@ == target_name(pid),
{
    match pid {
        0x1307 => "Ergodox EZ",
        0x4974 | 0x2030 => "Ergodox EZ Original",
        0x4975 | 0x2020 => "Ergodox EZ Shine",
        0x4976 | 0x2010 => "Ergodox EZ Glow",
        0x6060 => "Planck EZ",
        0xC6CE => "Planck EZ Standard",
        0xC6CF => "Planck EZ Glow",
        0x1969 | 0x1972 => "Moonlander MK1",
        0x1977 | 0x1978 => "Voyager",
        0x0791 => "Voyager (STM32)",
        0x1791 => "Voyager (GD32)",
        0x2000 => "Ergodox EZ Glow",
        0x2001 => "Ergodox EZ Shine",
        0x2002 => "Ergodox EZ Original",
        0x2003 => "Moonlander MK1",
        0xDF11 => "STM32 DFU",
        _ => "Unknown",
    }
}

/// The keyboard model that a normal-mode (running firmware) VID/PID pair belongs to.
pub open spec fn keyboard_of(vid: u16, pid: u16) -> Option<Keyboard> {
    if vid != ZSA_VID {
        None
    } else if pid == 0x1307 || pid == 0x4974 || pid == 0x4975 || pid == 0x4976 || pid == 0x2010
        || pid == 0x2020 || pid == 0x2030 {
        Some(Keyboard::ErgodoxEz)
    } else if pid == 0x6060 || pid == 0xC6CE || pid == 0xC6CF {
        Some(Keyboard::PlanckEz)
    } else if pid == 0x1969 || pid == 0x1972 {
        Some(Keyboard::Moonlander)
    } else if pid == 0x1977 || pid == 0x1978 {
        Some(Keyboard::Voyager)
    } else {
        None
    }
}

/// Identify a keyboard running its firmware from its VID/PID.
pub fn identify_keyboard(vid: u16, pid: u16) -> (res: Option<Keyboard>)
    ensures
        res == keyboard_of(vid, pid),
{
    if vid != ZSA_VID {
        return None;
    }
    match pid {
        0x1307 | 0x4974 | 0x4975 | 0x4976 | 0x2010 | 0x2020 | 0x2030 => Some(Keyboard::ErgodoxEz),
        0x6060 | 0xC6CE | 0xC6CF => Some(Keyboard::PlanckEz),
        0x1969 | 0x1972 => Some(Keyboard::Moonlander),
        0x1977 | 0x1978 => Some(Keyboard::Voyager),
        _ => None,
    }
}

/// Normal-mode PID of the Moonlander rev B, which boots through Ignition.
pub const MOONLANDER_REVB_PID: u16 = 0x1972;

/// Whether a normal-mode PID is that of a Moonlander rev B.
pub fn is_moonlander_revb(pid: u16) -> (res: bool)
    ensures
        res == (pid == MOONLANDER_REVB_PID),
{
    pid == MOONLANDER_REVB_PID
}

/// The bootloader device that a USB device with this VID/PID is, if it is a supported one.
pub fn bootloader_device(vid: u16, pid: u16) -> (res: Option<BootloaderDevice>)
    ensures
        res is Some <==> bootloader_of(vid, pid) is Some,
        res matches Some(d) ==> d.vid == vid && d.pid == pid && Some(d.kind) == bootloader_of(vid, pid)
            && d.keyboard == keyboard_of_bootloader(vid, pid),
{
    match identify_bootloader(vid, pid) {
        Some(kind) => Some(BootloaderDevice { vid, pid, kind, keyboard: keyboard_for_bootloader(vid, pid) }),
        None => None,
    }
}

impl Keyboard {
    /// The model's display name.
    pub open spec fn display_name(self) -> Seq<char> {
        match self {
            Keyboard::ErgodoxEz => "Ergodox EZ"@,
            Keyboard::PlanckEz => "Planck EZ"@,
            Keyboard::Moonlander => "Moonlander"@,
            Keyboard::Voyager => "Voyager"@,
        }
    }

    /// The model's display name.
    pub fn name(&self) -> (res: &'static str)
        ensures
            res@ == self.display_name(),
    {
        match self {
            Keyboard::ErgodoxEz => "Ergodox EZ",
            Keyboard::PlanckEz => "Planck EZ",
            Keyboard::Moonlander => "Moonlander",
            Keyboard::Voyager => "Voyager",
        }
    }
}

/// Every bootloader that names a keyboard model is itself a known bootloader.
pub proof fn lemma_bootloader_keyboard_known(vid: u16, pid: u16)
    ensures
        keyboard_of_bootloader(vid, pid) is Some ==> bootloader_of(vid, pid) is Some,
{
}

/// A VID/PID pair gets a specific bootloader name exactly when it is a known bootloader.
pub proof fn lemma_bootloader_name_known(vid: u16, pid: u16)
    ensures
        bootloader_of(vid, pid) is Some <==> bootloader_name(vid, pid) != "Unknown"@,
{
    reveal_strlit("Unknown");
    reveal_strlit("Ergodox EZ (HALFKAY)");
    reveal_strlit("Keyboard in Reset Mode (STM32 DFU)");
    reveal_strlit("Voyager (Ignition STM32)");
    reveal_strlit("Voyager (Ignition GD32)");
    reveal_strlit("Ergodox EZ Glow (Ignition)");
    reveal_strlit("Ergodox EZ Shine (Ignition)");
    reveal_strlit("Ergodox EZ Original (Ignition)");
    reveal_strlit("Moonlander (Ignition)");
    assert("Unknown"@.len() == 7);
    assert("Ergodox EZ (HALFKAY)"@.len() != 7);
    assert("Keyboard in Reset Mode (STM32 DFU)"@.len() != 7);
    assert("Voyager (Ignition STM32)"@.len() != 7);
    assert("Voyager (Ignition GD32)"@.len() != 7);
    assert("Ergodox EZ Glow (Ignition)"@.len() != 7);
    assert("Ergodox EZ Shine (Ignition)"@.len() != 7);
    assert("Ergodox EZ Original (Ignition)"@.len() != 7);
    assert("Moonlander (Ignition)"@.len() != 7);
}


/// A firmware built for a keyboard running its firmware is named after that
/// keyboard: the name of every normal-mode PID that identifies a model begins
/// with the model's name, so it is never "Unknown". The same holds of the
/// bootloaders that tell their model: both the bootloader's name and the name
/// of its PID as a firmware target begin with the model's name.
pub proof fn lemma_names_begin_with_the_keyboard(vid: u16, pid: u16)
    ensures
        keyboard_of(vid, pid) matches Some(k) ==> k.display_name().is_prefix_of(target_name(pid))
            && target_name(pid) != "Unknown"@,
        keyboard_of_bootloader(vid, pid) matches Some(k) ==> k.display_name().is_prefix_of(
            bootloader_name(vid, pid),
        ),
        vid == ZSA_VID ==> (keyboard_of_bootloader(vid, pid) matches Some(k) ==> k.display_name().is_prefix_of(
            target_name(pid),
        )),
{
    reveal_strlit("Unknown");
    reveal_strlit("Ergodox EZ");
    reveal_strlit("Planck EZ");
    reveal_strlit("Moonlander");
    reveal_strlit("Voyager");
    reveal_strlit("Ergodox EZ Original");
    reveal_strlit("Ergodox EZ Shine");
    reveal_strlit("Ergodox EZ Glow");
    reveal_strlit("Planck EZ Standard");
    reveal_strlit("Planck EZ Glow");
    reveal_strlit("Moonlander MK1");
    reveal_strlit("Voyager (STM32)");
    reveal_strlit("Voyager (GD32)");
    reveal_strlit("Ergodox EZ (HALFKAY)");
    reveal_strlit("Voyager (Ignition STM32)");
    reveal_strlit("Voyager (Ignition GD32)");
    reveal_strlit("Ergodox EZ Glow (Ignition)");
    reveal_strlit("Ergodox EZ Shine (Ignition)");
    reveal_strlit("Ergodox EZ Original (Ignition)");
    reveal_strlit("Moonlander (Ignition)");
    let e = "Ergodox EZ"@;
    let pl = "Planck EZ"@;
    let m = "Moonlander"@;
    let v = "Voyager"@;
    assert(e.is_prefix_of("Ergodox EZ"@));
    assert(e.is_prefix_of("Ergodox EZ Original"@));
    assert(e.is_prefix_of("Ergodox EZ Shine"@));
    assert(e.is_prefix_of("Ergodox EZ Glow"@));
    assert(pl.is_prefix_of("Planck EZ"@));
    assert(pl.is_prefix_of("Planck EZ Standard"@));
    assert(pl.is_prefix_of("Planck EZ Glow"@));
    assert(m.is_prefix_of("Moonlander MK1"@));
    assert(v.is_prefix_of("Voyager"@));
    assert(v.is_prefix_of("Voyager (STM32)"@));
    assert(v.is_prefix_of("Voyager (GD32)"@));
    assert(e.is_prefix_of("Ergodox EZ (HALFKAY)"@));
    assert(v.is_prefix_of("Voyager (Ignition STM32)"@));
    assert(v.is_prefix_of("Voyager (Ignition GD32)"@));
    assert(e.is_prefix_of("Ergodox EZ Glow (Ignition)"@));
    assert(e.is_prefix_of("Ergodox EZ Shine (Ignition)"@));
    assert(e.is_prefix_of("Ergodox EZ Original (Ignition)"@));
    assert(m.is_prefix_of("Moonlander (Ignition)"@));
    assert("Unknown"@.len() == 7);
    assert(e.len() == 10 && pl.len() == 9 && m.len() == 10 && v.len() == 7);
    assert("Unknown"@[0] != v[0]);
}

/// An Ignition Ergodox bootloader (PIDs 0x2000 to 0x2002) is named after the
/// variant that its PID stands for as a firmware target, which is the variant of
/// the matching normal-mode PID (0x2010, 0x2020, 0x2030); the three variants get
/// three different names.
pub proof fn lemma_ignition_ergodox_names(pid: u16, other: u16)
    requires
        0x2000 <= pid <= 0x2002,
        0x2000 <= other <= 0x2002,
    ensures
        bootloader_name(ZSA_VID, pid) == target_name(pid) + " (Ignition)"@,
        target_name(pid) == target_name((0x2010 + (pid - 0x2000) * 0x10) as u16),
        pid != other ==> bootloader_name(ZSA_VID, pid) != bootloader_name(ZSA_VID, other),
{
    reveal_strlit(" (Ignition)");
    reveal_strlit("Ergodox EZ Original");
    reveal_strlit("Ergodox EZ Shine");
    reveal_strlit("Ergodox EZ Glow");
    reveal_strlit("Ergodox EZ Glow (Ignition)");
    reveal_strlit("Ergodox EZ Shine (Ignition)");
    reveal_strlit("Ergodox EZ Original (Ignition)");
    assert("Ergodox EZ Glow (Ignition)"@ == "Ergodox EZ Glow"@ + " (Ignition)"@);
    assert("Ergodox EZ Shine (Ignition)"@ == "Ergodox EZ Shine"@ + " (Ignition)"@);
    assert("Ergodox EZ Original (Ignition)"@ == "Ergodox EZ Original"@ + " (Ignition)"@);
    assert("Ergodox EZ Glow (Ignition)"@[11] == 'G');
    assert("Ergodox EZ Shine (Ignition)"@[11] == 'S');
    assert("Ergodox EZ Original (Ignition)"@[11] == 'O');
}


/// Different known bootloaders get different names.
pub proof fn lemma_bootloader_names_distinct(vid: u16, pid: u16, other_vid: u16, other_pid: u16)
    requires
        bootloader_of(vid, pid) is Some,
        bootloader_of(other_vid, other_pid) is Some,
        vid != other_vid || pid != other_pid,
    ensures
        bootloader_name(vid, pid) != bootloader_name(other_vid, other_pid),
{
    reveal_strlit("Ergodox EZ (HALFKAY)");
    reveal_strlit("Keyboard in Reset Mode (STM32 DFU)");
    reveal_strlit("Voyager (Ignition STM32)");
    reveal_strlit("Voyager (Ignition GD32)");
    reveal_strlit("Ergodox EZ Glow (Ignition)");
    reveal_strlit("Ergodox EZ Shine (Ignition)");
    reveal_strlit("Ergodox EZ Original (Ignition)");
    reveal_strlit("Moonlander (Ignition)");
    assert(bootloader_name(vid, pid).len() != bootloader_name(other_vid, other_pid).len());
}

/// The name of a normal-mode PID names the model (and its variant) only: unlike
/// the names of bootloader PIDs, it mentions no bootloader chip in brackets.
pub proof fn lemma_normal_mode_names_have_no_chip(pid: u16)
    requires
        keyboard_of(ZSA_VID, pid) is Some,
    ensures
        forall|i: int| 0 <= i < target_name(pid).len() ==> target_name(pid)[i] != '(',
{
    reveal_strlit("Ergodox EZ");
    reveal_strlit("Ergodox EZ Original");
    reveal_strlit("Ergodox EZ Shine");
    reveal_strlit("Ergodox EZ Glow");
    reveal_strlit("Planck EZ");
    reveal_strlit("Planck EZ Standard");
    reveal_strlit("Planck EZ Glow");
    reveal_strlit("Moonlander MK1");
    reveal_strlit("Voyager");
    let n = target_name(pid);
    assert forall|i: int| 0 <= i < n.len() implies n[i] != '(' by {
        if pid == 0x1307 {
            assert(n == "Ergodox EZ"@);
        } else if pid == 0x4974 || pid == 0x2030 {
            assert(n == "Ergodox EZ Original"@);
        } else if pid == 0x4975 || pid == 0x2020 {
            assert(n == "Ergodox EZ Shine"@);
        } else if pid == 0x4976 || pid == 0x2010 {
            assert(n == "Ergodox EZ Glow"@);
        } else if pid == 0x6060 {
            assert(n == "Planck EZ"@);
        } else if pid == 0xC6CE {
            assert(n == "Planck EZ Standard"@);
        } else if pid == 0xC6CF {
            assert(n == "Planck EZ Glow"@);
        } else if pid == 0x1969 || pid == 0x1972 {
            assert(n == "Moonlander MK1"@);
        } else {
            assert(n == "Voyager"@);
        }
    }
}

} // verus!
