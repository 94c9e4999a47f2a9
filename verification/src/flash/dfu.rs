//! The STM32 DFU (DfuSe) flashing sequence: which image to write, where it
//! goes, and the list of transfers that erase the flash, write the image in
//! blocks and reboot the device.
//!
//! The transfers themselves are made by the caller, which reports each
//! `DFU_GETSTATUS` answer back through [`parse_dfu_status`] and [`poll_delay`].

use vstd::prelude::*;
use vstd::string::*;

use super::FlashProgress;
use crate::error::{invalid_firmware, ZappError};
use crate::firmware::Firmware;
use crate::text::{decimal, decimal_string};

verus! {

/// Size of an erase sector and of a download block.
pub const BLOCK_SIZE: usize = 2048;

pub const STM32_START_ADDRESS: u32 = 0x0800_0000;
pub const STM32_END_ADDRESS: u32 = 0x0804_0000;
pub const IGNITION_START_ADDRESS: u32 = 0x0800_2000;
pub const IGNITION_END_ADDRESS: u32 = 0x0804_2000;

// DFU class requests
pub const DFU_DNLOAD: u8 = 0x01;
pub const DFU_GETSTATUS: u8 = 0x03;
pub const DFU_CLRSTATUS: u8 = 0x04;

// DFU states
pub const DFU_DNBUSY: u8 = 0x04;
pub const DFU_DNIDLE: u8 = 0x05;
pub const DFU_MANIFEST: u8 = 0x07;
pub const DFU_ERROR: u8 = 0x0A;

// DfuSe commands (sent as data in DFU_DNLOAD with wValue=0)
pub const DFU_SET_ADDRESS: u8 = 0x21;
pub const DFU_ERASE_SECTOR: u8 = 0x41;

/// Shortest wait between two status polls, in milliseconds.
pub const MIN_POLL_MILLIS: u32 = 100;

/// The answer to `DFU_GETSTATUS`.
#[derive(Debug, Default, Clone, Copy, PartialEq, Eq, Structural)]
pub struct DfuStatus {
    pub b_status: u8,
    pub bw_poll_timeout: u32,
    pub b_state: u8,
}

/// One step of a DFU flashing session.
#[derive(Debug, Clone, Copy, PartialEq, Eq, Structural)]
pub enum DfuAction {
    /// Send the DfuSe command `command` for `address` (see [`dfu_command_payload`]),
    /// then poll the status until the device is no longer busy.
    Command { command: u8, address: u32 },
    /// Download `length` bytes of the image from `offset` (wValue 2), then poll
    /// the status until the device is idle.
    Download { offset: usize, length: usize },
    /// Send an empty download to start the manifestation (reboot), then poll the
    /// status until it is reached; failures of this step are ignored.
    Reboot,
    /// Report progress.
    Report(FlashProgress),
    /// Wait.
    Pause { millis: u64 },
}

/// Where an image of a given length goes, and how progress is counted.
#[derive(Debug, Clone, Copy, PartialEq, Eq, Structural)]
pub struct DfuLayout {
    pub start_address: u32,
    pub end_address: u32,
    /// Bytes erased: from the start address to the end address.
    pub erase_size: usize,
    /// Bytes erased plus bytes written.
    pub total_progress: usize,
}

/// The address at which images are flashed.
pub open spec fn flash_start(ignition: bool) -> u32 {
    if ignition {
        IGNITION_START_ADDRESS
    } else {
        STM32_START_ADDRESS
    }
}

/// The end of the flash that images may use.
pub open spec fn flash_end(ignition: bool) -> u32 {
    if ignition {
        IGNITION_END_ADDRESS
    } else {
        STM32_END_ADDRESS
    }
}

/// The image that DFU writes onto a device with product ID `pid`: a dual-image
/// firmware gives the image whose PID matches, else the primary one.
pub open spec fn dfu_image_of(firmware: Firmware, pid: u16) -> Option<Seq<u8>> {
    match firmware {
        Firmware::DfuBinary { data, .. } => Some(data@),
        Firmware::IgnitionDual { primary, alternate } => {
            if pid == primary.pid {
                Some(primary.data@)
            } else if pid == alternate.pid {
                Some(alternate.data@)
            } else {
                Some(primary.data@)
            }
        },
        Firmware::IntelHex { .. } => None,
    }
}

/// The image of `firmware` that DFU writes onto a device with product ID `device_pid`.
pub fn dfu_firmware_data(firmware: &Firmware, device_pid: u16) -> (res: Result<&Vec<u8>, ZappError>)
    ensures
        match dfu_image_of(*firmware, device_pid) {
            Some(img) => res matches Ok(d) && d@ == img,
            None => res matches Err(e) && e.is_invalid_firmware(
                "cannot flash Intel HEX via DFU; expected a .bin file"@,
            ),
        },
{
    match firmware {
        Firmware::DfuBinary { data, .. } => Ok(data),
        Firmware::IgnitionDual { primary, alternate } => {
            // Select the firmware matching this device's PID, falling back to the primary
            if device_pid == primary.pid {
                Ok(&primary.data)
            } else if device_pid == alternate.pid {
                Ok(&alternate.data)
            } else {
                Ok(&primary.data)
            }
        },
        Firmware::IntelHex { .. } => Err(
            invalid_firmware(String::from_str("cannot flash Intel HEX via DFU; expected a .bin file")),
        ),
    }
}

/// The layout of an image of `len` bytes, or `None` when it does not fit the flash:
/// the erased region runs from the start address over the image and one more block.
pub open spec fn layout_of(len: int, ignition: bool) -> Option<DfuLayout> {
    let start = flash_start(ignition);
    let end = start + len + BLOCK_SIZE;
    if end > flash_end(ignition) {
        None
    } else {
        Some(
            DfuLayout {
                start_address: start,
                end_address: end as u32,
                erase_size: (len + BLOCK_SIZE) as usize,
                total_progress: (2 * len + BLOCK_SIZE) as usize,
            },
        )
    }
}

/// The message of the error for an image of `len` bytes that does not fit.
pub open spec fn too_large_message(len: nat) -> Seq<char> {
    "firmware too large: "@ + decimal(len) + " bytes exceeds flash capacity"@
}

/// Where an image of `len` bytes goes when flashed with or without Ignition.
pub fn dfu_layout(len: usize, ignition: bool) -> (res: Result<DfuLayout, ZappError>)
    requires
        flash_start(ignition) + len + BLOCK_SIZE <= u32::MAX,
    ensures
        match layout_of(len as int, ignition) {
            Some(l) => res == Ok::<DfuLayout, ZappError>(l),
            None => res matches Err(e) && e.is_invalid_firmware(too_large_message(len as nat)),
        },
{
    let start_address = if ignition { IGNITION_START_ADDRESS } else { STM32_START_ADDRESS };
    let max_address = if ignition { IGNITION_END_ADDRESS } else { STM32_END_ADDRESS };
    let end_address = start_address + len as u32 + BLOCK_SIZE as u32;
    if end_address > max_address {
        let mut msg = String::from_str("firmware too large: ");
        let n = decimal_string(len);
        msg.append(n.as_str());
        msg.append(" bytes exceeds flash capacity");
        return Err(invalid_firmware(msg));
    }
    let erase_size = (end_address - start_address) as usize;
    Ok(DfuLayout { start_address, end_address, erase_size, total_progress: erase_size + len })
}

/// The erase steps from sector address `addr` on: erase the sector, then report the
/// bytes erased so far (capped at the erase size).
pub open spec fn erase_steps(l: DfuLayout, addr: int) -> Seq<DfuAction>
    decreases l.end_address + BLOCK_SIZE - addr,
{
    if addr >= l.end_address {
        seq![]
    } else {
        let done = addr - l.start_address + BLOCK_SIZE;
        let erased = if done < l.erase_size { done } else { l.erase_size as int };
        seq![
            DfuAction::Command { command: DFU_ERASE_SECTOR, address: addr as u32 },
            DfuAction::Report(
                FlashProgress::Erasing { bytes_erased: erased as usize, total_bytes: l.total_progress },
            ),
        ] + erase_steps(l, addr + BLOCK_SIZE)
    }
}

/// The write steps for an image of `len` bytes from offset `written` on: point the
/// device at the block's address, download the block (at most `BLOCK_SIZE` bytes),
/// then report the bytes erased and written so far.
pub open spec fn write_steps(l: DfuLayout, len: int, written: int) -> Seq<DfuAction>
    decreases len - written,
{
    if written >= len || written < 0 {
        seq![]
    } else {
        let chunk = if len - written < BLOCK_SIZE { len - written } else { BLOCK_SIZE as int };
        seq![
            DfuAction::Command { command: DFU_SET_ADDRESS, address: (l.start_address + written) as u32 },
            DfuAction::Download { offset: written as usize, length: chunk as usize },
            DfuAction::Report(
                FlashProgress::Writing {
                    bytes_written: (l.erase_size + written + chunk) as usize,
                    total_bytes: l.total_progress,
                },
            ),
        ] + write_steps(l, len, written + chunk)
    }
}

/// The closing steps: report the reset, wait a second, point the device back at
/// the start address, reboot it and report completion.
pub open spec fn reboot_steps(l: DfuLayout) -> Seq<DfuAction> {
    seq![
        DfuAction::Report(FlashProgress::Resetting),
        DfuAction::Pause { millis: 1000 },
        DfuAction::Command { command: DFU_SET_ADDRESS, address: l.start_address },
        DfuAction::Reboot,
        DfuAction::Report(FlashProgress::Complete),
    ]
}

/// The whole session for an image of `len` bytes laid out as `l`, after the
/// initial status has been checked.
pub open spec fn session_steps(l: DfuLayout, len: int) -> Seq<DfuAction> {
    erase_steps(l, l.start_address as int) + write_steps(l, len, 0) + reboot_steps(l)
}

/// The steps that flash an image of `len` bytes laid out as `layout`.
fn dfu_session(layout: &DfuLayout, len: usize, ignition: bool) -> (res: Vec<DfuAction>)
    requires
        layout_of(len as int, ignition) == Some(*layout),
    ensures
        res@ == session_steps(*layout, len as int),
{
    let l = *layout;
    let mut steps: Vec<DfuAction> = Vec::new();
    let mut progress: usize = 0;
    let mut addr = l.start_address;
    while addr < l.end_address
        invariant
            l == *layout,
            l.start_address <= addr <= l.end_address + BLOCK_SIZE,
            l.end_address <= IGNITION_END_ADDRESS,
            l.erase_size == l.end_address - l.start_address,
            progress == addr - l.start_address,
            erase_steps(l, l.start_address as int) == steps@ + erase_steps(l, addr as int),
        decreases l.end_address + BLOCK_SIZE - addr,
    {
        progress = progress + BLOCK_SIZE;
        let erased = if progress < l.erase_size { progress } else { l.erase_size };
        let s1 = DfuAction::Command { command: DFU_ERASE_SECTOR, address: addr };
        let s2 = DfuAction::Report(FlashProgress::Erasing { bytes_erased: erased, total_bytes: l.total_progress });
        proof {
            assert(steps@.push(s1).push(s2) + erase_steps(l, addr + BLOCK_SIZE) =~= steps@ + (seq![s1, s2]
                + erase_steps(l, addr + BLOCK_SIZE)));
        }
        steps.push(s1);
        steps.push(s2);
        addr = addr + BLOCK_SIZE as u32;
    }
    let mut written: usize = 0;
    while written < len
        invariant
            l == *layout,
            written <= len,
            l.start_address + len + BLOCK_SIZE <= u32::MAX,
            l.erase_size == len + BLOCK_SIZE,
            l.total_progress == l.erase_size + len,
            erase_steps(l, l.start_address as int) + write_steps(l, len as int, 0) == steps@
                + write_steps(l, len as int, written as int),
        decreases len - written,
    {
        let chunk = if len - written < BLOCK_SIZE { len - written } else { BLOCK_SIZE };
        let s1 = DfuAction::Command { command: DFU_SET_ADDRESS, address: l.start_address + written as u32 };
        let s2 = DfuAction::Download { offset: written, length: chunk };
        let s3 = DfuAction::Report(
            FlashProgress::Writing { bytes_written: l.erase_size + written + chunk, total_bytes: l.total_progress },
        );
        proof {
            assert(steps@.push(s1).push(s2).push(s3) + write_steps(l, len as int, written + chunk) =~= steps@
                + (seq![s1, s2, s3] + write_steps(l, len as int, written + chunk)));
        }
        steps.push(s1);
        steps.push(s2);
        steps.push(s3);
        written = written + chunk;
    }
    steps.push(DfuAction::Report(FlashProgress::Resetting));
    steps.push(DfuAction::Pause { millis: 1000 });
    steps.push(DfuAction::Command { command: DFU_SET_ADDRESS, address: l.start_address });
    steps.push(DfuAction::Reboot);
    steps.push(DfuAction::Report(FlashProgress::Complete));
    proof {
        assert(steps@ =~= session_steps(l, len as int));
    }
    steps
}


/// Follows the downloads of `steps`, the image being written up to byte `pos`:
/// each download must come right after the command that points the device at the
/// flash address of its offset, start where the previous one ended and hold between
/// 1 and `BLOCK_SIZE` bytes. Gives the offset where the last download ended, or
/// `None` when a download breaks these rules.
pub open spec fn downloads_from(steps: Seq<DfuAction>, start: u32, pos: int) -> Option<int>
    decreases steps.len(),
{
    if steps.len() == 0 {
        Some(pos)
    } else if steps.len() >= 2 && steps[1] is Download {
        if steps[0] == (DfuAction::Command { command: DFU_SET_ADDRESS, address: (start + pos) as u32 })
            && steps[1]->offset == pos && 0 < steps[1]->length <= BLOCK_SIZE {
            downloads_from(steps.subrange(2, steps.len() as int), start, pos + steps[1]->length)
        } else {
            None
        }
    } else if steps[0] is Download {
        None
    } else {
        downloads_from(steps.drop_first(), start, pos)
    }
}

proof fn lemma_erase_steps_download_nothing(l: DfuLayout, addr: int, rest: Seq<DfuAction>, pos: int)
    requires
        rest.len() == 0 || !(rest[0] is Download),
    ensures
        downloads_from(erase_steps(l, addr) + rest, l.start_address, pos) == downloads_from(
            rest,
            l.start_address,
            pos,
        ),
    decreases l.end_address + BLOCK_SIZE - addr,
{
    if addr >= l.end_address {
        assert(erase_steps(l, addr) + rest =~= rest);
    } else {
        let e2 = erase_steps(l, addr + BLOCK_SIZE);
        lemma_erase_steps_download_nothing(l, addr + BLOCK_SIZE, rest, pos);
        let x = erase_steps(l, addr) + rest;
        let y = x.drop_first();
        assert(x[0] is Command && x[1] is Report);
        assert(y =~= seq![x[1]] + (e2 + rest));
        assert(y[0] is Report);
        if e2.len() > 0 {
            assert(y[1] == e2[0]);
            assert(e2[0] is Command);
        } else {
            assert(e2 + rest =~= rest);
        }
        assert(y.drop_first() =~= e2 + rest);
        assert(downloads_from(x, l.start_address, pos) == downloads_from(y, l.start_address, pos));
        assert(downloads_from(y, l.start_address, pos) == downloads_from(y.drop_first(), l.start_address, pos));
    }
}

proof fn lemma_write_steps_download_all(l: DfuLayout, len: int, w: int, rest: Seq<DfuAction>)
    requires
        0 <= w <= len <= usize::MAX,
        rest.len() == 0 || !(rest[0] is Download),
    ensures
        downloads_from(write_steps(l, len, w) + rest, l.start_address, w) == downloads_from(
            rest,
            l.start_address,
            len,
        ),
    decreases len - w,
{
    if w >= len {
        assert(write_steps(l, len, w) + rest =~= rest);
    } else {
        let chunk = if len - w < BLOCK_SIZE { len - w } else { BLOCK_SIZE as int };
        let w2 = write_steps(l, len, w + chunk);
        lemma_write_steps_download_all(l, len, w + chunk, rest);
        let x = write_steps(l, len, w) + rest;
        assert(x[1] is Download && x[1]->offset == w && x[1]->length == chunk);
        let y = x.subrange(2, x.len() as int);
        assert(y =~= seq![x[2]] + (w2 + rest));
        assert(y[0] is Report);
        if w2.len() > 0 {
            assert(y[1] == w2[0]);
            assert(w2[0] is Command);
        } else {
            assert(w2 + rest =~= rest);
        }
        assert(y.drop_first() =~= w2 + rest);
        assert(downloads_from(x, l.start_address, w) == downloads_from(y, l.start_address, w + chunk));
        assert(downloads_from(y, l.start_address, w + chunk) == downloads_from(
            y.drop_first(),
            l.start_address,
            w + chunk,
        ));
    }
}

/// The session downloads the whole image, in order, each block right after the
/// device was pointed at the flash address of its offset.
pub proof fn lemma_session_downloads_whole_image(l: DfuLayout, len: usize, ignition: bool)
    requires
        layout_of(len as int, ignition) == Some(l),
    ensures
        downloads_from(session_steps(l, len as int), l.start_address, 0) == Some(len as int),
{
    let e = erase_steps(l, l.start_address as int);
    let w = write_steps(l, len as int, 0);
    let r = reboot_steps(l);
    assert(session_steps(l, len as int) =~= e + (w + r));
    if w.len() > 0 {
        assert((w + r)[0] == w[0]);
    } else {
        assert(w + r =~= r);
    }
    lemma_erase_steps_download_nothing(l, l.start_address as int, w + r, 0);
    lemma_write_steps_download_all(l, len as int, 0, r);
    let r1 = r.drop_first();
    let r2 = r1.drop_first();
    let r3 = r2.drop_first();
    let r4 = r3.drop_first();
    let r5 = r4.drop_first();
    assert(r5.len() == 0);
    assert(r4 =~= seq![DfuAction::Report(FlashProgress::Complete)]);
    assert(r3 =~= seq![DfuAction::Reboot, DfuAction::Report(FlashProgress::Complete)]);
    assert(r2[1] == DfuAction::Reboot);
    assert(r1[1] is Command);
    assert(r[1] is Pause);
    assert(downloads_from(r5, l.start_address, len as int) == Some(len as int));
    assert(downloads_from(r4, l.start_address, len as int) == Some(len as int));
    assert(downloads_from(r3, l.start_address, len as int) == Some(len as int));
    assert(downloads_from(r2, l.start_address, len as int) == Some(len as int));
    assert(downloads_from(r1, l.start_address, len as int) == Some(len as int));
    assert(downloads_from(r, l.start_address, len as int) == Some(len as int));
}

proof fn lemma_erase_steps_no_reboot(l: DfuLayout, addr: int)
    ensures
        forall|i: int| 0 <= i < erase_steps(l, addr).len() ==> erase_steps(l, addr)[i] != DfuAction::Reboot,
    decreases l.end_address + BLOCK_SIZE - addr,
{
    if addr < l.end_address {
        lemma_erase_steps_no_reboot(l, addr + BLOCK_SIZE);
        let rest = erase_steps(l, addr + BLOCK_SIZE);
        let s = erase_steps(l, addr);
        assert forall|i: int| 0 <= i < s.len() implies s[i] != DfuAction::Reboot by {
            if i >= 2 {
                assert(s[i] == rest[i - 2]);
            }
        }
    }
}

proof fn lemma_write_steps_no_reboot(l: DfuLayout, len: int, written: int)
    ensures
        forall|i: int| 0 <= i < write_steps(l, len, written).len() ==> write_steps(l, len, written)[i]
            != DfuAction::Reboot,
    decreases len - written,
{
    if 0 <= written < len {
        let chunk = if len - written < BLOCK_SIZE { len - written } else { BLOCK_SIZE as int };
        lemma_write_steps_no_reboot(l, len, written + chunk);
        let rest = write_steps(l, len, written + chunk);
        let s = write_steps(l, len, written);
        assert forall|i: int| 0 <= i < s.len() implies s[i] != DfuAction::Reboot by {
            if i >= 3 {
                assert(s[i] == rest[i - 3]);
            }
        }
    }
}

/// A planned DFU session reboots the device once, near its end, and the step
/// right before the reboot points the device at the start of the flashed image:
/// 0x0800_2000 on an Ignition bootloader, 0x0800_0000 on a plain STM32 one.
pub proof fn lemma_plan_reboots_into_the_image(
    firmware: Firmware,
    pid: u16,
    ignition: bool,
    res: Result<Vec<DfuAction>, ZappError>,
)
    requires
        plan_matches(firmware, pid, ignition, res),
    ensures
        res matches Ok(steps) ==> {
            &&& steps@.len() >= 3
            &&& steps@[steps@.len() - 2] == DfuAction::Reboot
            &&& forall|i: int| 0 <= i < steps@.len() && #[trigger] steps@[i] == DfuAction::Reboot ==> 0 < i && steps@[i - 1]
                == (DfuAction::Command {
                command: DFU_SET_ADDRESS,
                address: if ignition { 0x0800_2000u32 } else { 0x0800_0000u32 },
            })
        },
{
    if let Ok(steps) = res {
        let img = dfu_image_of(firmware, pid)->0;
        let l = layout_of(img.len() as int, ignition)->0;
        let e = erase_steps(l, l.start_address as int);
        let w = write_steps(l, img.len() as int, 0);
        let r = reboot_steps(l);
        lemma_erase_steps_no_reboot(l, l.start_address as int);
        lemma_write_steps_no_reboot(l, img.len() as int, 0);
        let s = steps@;
        assert(s == e + w + r);
        let n = e.len() + w.len();
        assert forall|i: int| 0 <= i < s.len() && #[trigger] s[i] == DfuAction::Reboot implies 0 < i && s[i - 1]
            == (DfuAction::Command {
            command: DFU_SET_ADDRESS,
            address: if ignition { 0x0800_2000u32 } else { 0x0800_0000u32 },
        }) by {
            if i < e.len() {
                assert(s[i] == e[i]);
            } else if i < n {
                assert(s[i] == w[i - e.len()]);
            } else {
                assert(s[i] == r[i - n]);
                assert(i - n == 3);
                assert(s[i - 1] == r[2]);
            }
        }
        assert(s[s.len() - 2] == r[3]);
    }
}

/// The end of the run of sector erases at the head of `steps`, the first of
/// which is expected at `addr`: each erase must be of the sector right after the
/// previous one and be followed by a progress report.
pub open spec fn erased_until(steps: Seq<DfuAction>, addr: int) -> int
    decreases steps.len(),
{
    if steps.len() >= 2 && steps[0] == (DfuAction::Command { command: DFU_ERASE_SECTOR, address: addr as u32 })
        && steps[1] is Report {
        erased_until(steps.subrange(2, steps.len() as int), addr + BLOCK_SIZE)
    } else {
        addr
    }
}

/// The first sector address at or past the end of the erase region, counting from `addr`.
pub open spec fn sectors_end(l: DfuLayout, addr: int) -> int
    decreases l.end_address + BLOCK_SIZE - addr,
{
    if addr >= l.end_address {
        addr
    } else {
        sectors_end(l, addr + BLOCK_SIZE)
    }
}

proof fn lemma_erase_steps_erase_sectors(l: DfuLayout, addr: int, rest: Seq<DfuAction>, max: int)
    requires
        0 <= addr <= max,
        l.end_address <= max <= u32::MAX,
        addr % 2048 == 0,
        max % 2048 == 0,
        rest.len() < 1 || !(rest[0] matches DfuAction::Command { command, .. } && command == DFU_ERASE_SECTOR),
    ensures
        erased_until(erase_steps(l, addr) + rest, addr) == sectors_end(l, addr),
        l.end_address <= sectors_end(l, addr) <= max,
    decreases l.end_address + BLOCK_SIZE - addr,
{
    if addr >= l.end_address {
        assert(erase_steps(l, addr) + rest =~= rest);
    } else {
        assert(addr + 2048 <= max) by (nonlinear_arith)
            requires
                addr % 2048 == 0,
                max % 2048 == 0,
                addr < max,
        {
        }
        let e2 = erase_steps(l, addr + BLOCK_SIZE);
        lemma_erase_steps_erase_sectors(l, addr + BLOCK_SIZE, rest, max);
        let x = erase_steps(l, addr) + rest;
        assert(x.subrange(2, x.len() as int) =~= e2 + rest);
    }
}

/// Before the first download, the session erases the flash sector after sector from
/// the start address on, up to an address past the end of the image and within the
/// flash.
pub proof fn lemma_session_erases_before_writing(l: DfuLayout, len: usize, ignition: bool)
    requires
        layout_of(len as int, ignition) == Some(l),
    ensures
        l.start_address + len <= erased_until(session_steps(l, len as int), l.start_address as int)
            <= flash_end(ignition),
{
    let e = erase_steps(l, l.start_address as int);
    let w = write_steps(l, len as int, 0);
    let r = reboot_steps(l);
    assert(session_steps(l, len as int) =~= e + (w + r));
    if w.len() > 0 {
        assert((w + r)[0] == w[0]);
    } else {
        assert(w + r =~= r);
    }
    lemma_erase_steps_erase_sectors(l, l.start_address as int, w + r, flash_end(ignition) as int);
}

/// What planning a DFU session for `firmware` on a device with product ID `pid` gives.
pub open spec fn plan_matches(firmware: Firmware, pid: u16, ignition: bool, res: Result<Vec<DfuAction>, ZappError>) -> bool {
    match dfu_image_of(firmware, pid) {
        None => res matches Err(e) && e.is_invalid_firmware("cannot flash Intel HEX via DFU; expected a .bin file"@),
        Some(img) => match layout_of(img.len() as int, ignition) {
            None => res matches Err(e) && e.is_invalid_firmware(too_large_message(img.len())),
            Some(l) => res matches Ok(steps) && steps@ == session_steps(l, img.len() as int),
        },
    }
}

/// The steps that flash `firmware` onto a DFU device with product ID `device_pid`
/// (with the Ignition addresses when `ignition`), once its initial status is checked.
pub fn dfu_plan(firmware: &Firmware, device_pid: u16, ignition: bool) -> (res: Result<Vec<DfuAction>, ZappError>)
    requires
        dfu_image_of(*firmware, device_pid) matches Some(img) ==> flash_start(ignition) + img.len() + BLOCK_SIZE
            <= u32::MAX,
    ensures
        plan_matches(*firmware, device_pid, ignition, res),
{
    let data = match dfu_firmware_data(firmware, device_pid) {
        Ok(d) => d,
        Err(e) => {
            return Err(e);
        },
    };
    let layout = match dfu_layout(data.len(), ignition) {
        Ok(l) => l,
        Err(e) => {
            return Err(e);
        },
    };
    Ok(dfu_session(&layout, data.len(), ignition))
}

/// The bytes of a DfuSe command: the command byte, then the address in
/// little-endian order, except for a mass erase (erase at address 0), which is the
/// command byte alone.
pub open spec fn command_payload(command: u8, address: u32) -> Seq<u8> {
    if command == DFU_ERASE_SECTOR && address == 0 {
        seq![command]
    } else {
        seq![
            command,
            (address % 0x100) as u8,
            (address / 0x100 % 0x100) as u8,
            (address / 0x1_0000 % 0x100) as u8,
            (address / 0x100_0000) as u8,
        ]
    }
}

/// The data sent with `DFU_DNLOAD` (wValue 0) for a DfuSe command.
pub fn dfu_command_payload(command: u8, address: u32) -> (res: Vec<u8>)
    ensures
        res@ == command_payload(command, address),
{
    let mut buf: Vec<u8> = Vec::with_capacity(5);
    buf.push(command);
    if command == DFU_ERASE_SECTOR && address == 0 {
        // Mass erase: single byte command
    } else {
        buf.push((address % 0x100) as u8);
        buf.push((address / 0x100 % 0x100) as u8);
        buf.push((address / 0x1_0000 % 0x100) as u8);
        buf.push((address / 0x100_0000) as u8);
    }
    assert(buf@ =~= command_payload(command, address));
    buf
}

/// Reads the answer to `DFU_GETSTATUS`: status byte, 24-bit little-endian poll
/// timeout, state byte.
pub fn parse_dfu_status(buf: &[u8]) -> (res: Result<DfuStatus, ZappError>)
    ensures
        buf@.len() < 6 ==> (res matches Err(e) && e.is_dfu("GETSTATUS returned fewer than 6 bytes"@)),
        buf@.len() >= 6 ==> res == Ok::<DfuStatus, ZappError>(
            DfuStatus {
                b_status: buf@[0],
                bw_poll_timeout: (buf@[1] + buf@[2] * 0x100 + buf@[3] * 0x1_0000) as u32,
                b_state: buf@[4],
            },
        ),
{
    if buf.len() < 6 {
        return Err(ZappError::Dfu(String::from_str("GETSTATUS returned fewer than 6 bytes")));
    }
    Ok(
        DfuStatus {
            b_status: buf[0],
            bw_poll_timeout: buf[1] as u32 + buf[2] as u32 * 0x100 + buf[3] as u32 * 0x1_0000,
            b_state: buf[4],
        },
    )
}

/// What the status poll after a step waits for.
#[derive(Debug, Clone, Copy, PartialEq, Eq, Structural)]
pub enum PollUntil {
    /// After a command: until the device leaves `DFU_DNBUSY`.
    NotBusy,
    /// After a download: until the device is in `DFU_DNIDLE`.
    Idle,
    /// After the reboot request: until the device is in `DFU_MANIFEST`.
    Manifest,
}

/// Whether the device must still be polled after `status`.
pub open spec fn must_poll(until: PollUntil, status: DfuStatus) -> bool {
    match until {
        PollUntil::NotBusy => status.b_state == DFU_DNBUSY,
        PollUntil::Idle => status.b_state != DFU_DNIDLE,
        PollUntil::Manifest => status.b_state != DFU_MANIFEST,
    }
}

/// How long to wait before asking for the status again, or `None` when the
/// wait is over: the device's poll timeout, but at least 100 ms.
pub fn poll_delay(until: PollUntil, status: &DfuStatus) -> (res: Option<u32>)
    ensures
        must_poll(until, *status) ==> res == Some(
            if status.bw_poll_timeout < MIN_POLL_MILLIS { MIN_POLL_MILLIS } else { status.bw_poll_timeout },
        ),
        !must_poll(until, *status) ==> res is None,
{
    let waiting = match until {
        PollUntil::NotBusy => status.b_state == DFU_DNBUSY,
        PollUntil::Idle => status.b_state != DFU_DNIDLE,
        PollUntil::Manifest => status.b_state != DFU_MANIFEST,
    };
    if !waiting {
        None
    } else if status.bw_poll_timeout < MIN_POLL_MILLIS {
        Some(MIN_POLL_MILLIS)
    } else {
        Some(status.bw_poll_timeout)
    }
}

/// What to do with the status read before flashing.
#[derive(Debug)]
pub enum InitialStep {
    /// Start the session.
    Proceed,
    /// Send `DFU_CLRSTATUS`, read the status again and decide anew.
    ClearStatus,
    /// Give up.
    Fail(ZappError),
}

/// Decides on the status read before flashing; `cleared` tells whether the error
/// status was already cleared once.
pub fn initial_step(status: &DfuStatus, cleared: bool) -> (res: InitialStep)
    ensures
        status.b_status != DFU_ERROR ==> res is Proceed,
        status.b_status == DFU_ERROR && !cleared ==> res is ClearStatus,
        status.b_status == DFU_ERROR && cleared ==> (res matches InitialStep::Fail(e) && e.is_dfu(
            "failed to clear error status — try unplugging and replugging the device"@,
        )),
{
    if status.b_status != DFU_ERROR {
        InitialStep::Proceed
    } else if !cleared {
        InitialStep::ClearStatus
    } else {
        InitialStep::Fail(
            ZappError::Dfu(
                String::from_str("failed to clear error status — try unplugging and replugging the device"),
            ),
        )
    }
}

} // verus!
