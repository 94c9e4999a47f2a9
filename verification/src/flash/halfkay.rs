//! The HALFKAY (Teensy) flashing sequence of the original Ergodox EZ: the
//! HID reports that write the flash sector by sector, then reboot the board.

use vstd::prelude::*;
use vstd::string::*;

use super::FlashProgress;
use crate::error::{invalid_firmware, ZappError};
use crate::firmware::Firmware;

verus! {

/// Bytes of flash that HALFKAY writes.
pub const ERGODOX_MEM_SIZE: usize = 32256;

/// Bytes written per report.
pub const ERGODOX_SECTOR_SIZE: usize = 128;

/// How many times a report is sent before giving up.
pub const PACKET_RETRIES: usize = 5;

/// Wait after a failed send, in milliseconds.
pub const RETRY_DELAY_MILLIS: u64 = 500;

/// Length of a HALFKAY report: report ID, two address bytes, one sector.
pub const PACKET_LENGTH: usize = 131;

/// One step of a HALFKAY flashing session.
#[derive(Debug, Clone)]
pub enum HalfkayAction {
    /// Write the report; when `quiet`, failing after every retry is not an error.
    Send { packet: Vec<u8>, quiet: bool },
    /// Wait.
    Pause { millis: u64 },
    /// Report progress.
    Report(FlashProgress),
}

/// The meaning of a step, with the report as a sequence of bytes.
pub enum HalfkayStep {
    Send { packet: Seq<u8>, quiet: bool },
    Pause { millis: u64 },
    Report(FlashProgress),
}

/// The meaning of a computed step.
pub open spec fn step_of(a: HalfkayAction) -> HalfkayStep {
    match a {
        HalfkayAction::Send { packet, quiet } => HalfkayStep::Send { packet: packet@, quiet },
        HalfkayAction::Pause { millis } => HalfkayStep::Pause { millis },
        HalfkayAction::Report(p) => HalfkayStep::Report(p),
    }
}

/// The report that writes the sector at `addr`: report ID 0, the address in
/// little-endian order, then the firmware bytes of the sector, padded with `0xFF`
/// past the end of the firmware.
pub open spec fn sector_packet(firmware: Seq<u8>, addr: int) -> Seq<u8> {
    Seq::new(
        PACKET_LENGTH as nat,
        |i: int|
            if i == 0 {
                0u8
            } else if i == 1 {
                (addr % 256) as u8
            } else if i == 2 {
                (addr / 256 % 256) as u8
            } else if addr + i - 3 < firmware.len() {
                firmware[addr + i - 3]
            } else {
                0xFFu8
            },
    )
}

/// The report that reboots the board: address `0xFFFF` and no data.
pub open spec fn reboot_packet() -> Seq<u8> {
    Seq::new(PACKET_LENGTH as nat, |i: int| if i == 1 || i == 2 { 0xFFu8 } else { 0u8 })
}

/// The steps that write the sectors from `addr` on: send the sector, wait (two
/// seconds after the first, which erases the flash, 10 ms after the others) and
/// report the bytes written.
pub open spec fn sector_steps(firmware: Seq<u8>, addr: int) -> Seq<HalfkayStep>
    decreases ERGODOX_MEM_SIZE + ERGODOX_SECTOR_SIZE - addr,
{
    if addr >= ERGODOX_MEM_SIZE || addr < 0 {
        seq![]
    } else {
        seq![
            HalfkayStep::Send { packet: sector_packet(firmware, addr), quiet: false },
            HalfkayStep::Pause { millis: if addr == 0 { 2000 } else { 10 } },
            HalfkayStep::Report(
                FlashProgress::Writing {
                    bytes_written: (addr + ERGODOX_SECTOR_SIZE) as usize,
                    total_bytes: ERGODOX_MEM_SIZE,
                },
            ),
        ] + sector_steps(firmware, addr + ERGODOX_SECTOR_SIZE)
    }
}

/// The whole session: all sectors, a one-second wait, the reset report, the reboot
/// report (whose failure is ignored) and the completion report.
pub open spec fn halfkay_steps(firmware: Seq<u8>) -> Seq<HalfkayStep> {
    sector_steps(firmware, 0) + seq![
        HalfkayStep::Pause { millis: 1000 },
        HalfkayStep::Report(FlashProgress::Resetting),
        HalfkayStep::Send { packet: reboot_packet(), quiet: true },
        HalfkayStep::Report(FlashProgress::Complete),
    ]
}

/// The report that writes the sector at `addr`.
pub fn halfkay_sector_packet(firmware: &Vec<u8>, addr: usize) -> (res: Vec<u8>)
    requires
        addr < ERGODOX_MEM_SIZE,
    ensures
        res@ == sector_packet(firmware@, addr as int),
{
    let mut buf: Vec<u8> = Vec::with_capacity(PACKET_LENGTH);
    buf.push(0);
    buf.push((addr % 256) as u8);
    buf.push((addr / 256 % 256) as u8);
    let mut i: usize = 0;
    while i < ERGODOX_SECTOR_SIZE
        invariant
            addr < ERGODOX_MEM_SIZE,
            i <= ERGODOX_SECTOR_SIZE,
            buf@.len() == 3 + i,
            forall|j: int| 0 <= j < 3 + i ==> buf@[j] == sector_packet(firmware@, addr as int)[j],
        decreases ERGODOX_SECTOR_SIZE - i,
    {
        let b = if addr + i < firmware.len() { firmware[addr + i] } else { 0xFF };
        buf.push(b);
        i = i + 1;
    }
    assert(buf@ =~= sector_packet(firmware@, addr as int));
    buf
}

/// The report that reboots the board.
pub fn halfkay_reboot_packet() -> (res: Vec<u8>)
    ensures
        res@ == reboot_packet(),
{
    let mut buf: Vec<u8> = Vec::with_capacity(PACKET_LENGTH);
    buf.push(0);
    buf.push(0xFF);
    buf.push(0xFF);
    let mut i: usize = 0;
    while i < ERGODOX_SECTOR_SIZE
        invariant
            i <= ERGODOX_SECTOR_SIZE,
            buf@.len() == 3 + i,
            forall|j: int| 0 <= j < 3 + i ==> buf@[j] == reboot_packet()[j],
        decreases ERGODOX_SECTOR_SIZE - i,
    {
        buf.push(0);
        i = i + 1;
    }
    assert(buf@ =~= reboot_packet());
    buf
}

/// The firmware that HALFKAY writes: only Intel HEX firmware is accepted.
pub fn halfkay_firmware_data(firmware: &Firmware) -> (res: Result<&Vec<u8>, ZappError>)
    ensures
        firmware matches Firmware::IntelHex { data } ==> res == Ok::<&Vec<u8>, ZappError>(&data),
        !(firmware is IntelHex) ==> (res matches Err(e) && e.is_invalid_firmware(
            "HALFKAY requires Intel HEX firmware (.hex file)"@,
        )),
{
    match firmware {
        Firmware::IntelHex { data } => Ok(data),
        _ => Err(invalid_firmware(String::from_str("HALFKAY requires Intel HEX firmware (.hex file)"))),
    }
}

/// The steps that flash `firmware` with HALFKAY.
pub fn halfkay_plan(firmware: &Firmware) -> (res: Result<Vec<HalfkayAction>, ZappError>)
    ensures
        firmware matches Firmware::IntelHex { data } ==> (res matches Ok(steps) && steps@.map_values(
            |a: HalfkayAction| step_of(a),
        ) == halfkay_steps(data@)),
        !(firmware is IntelHex) ==> (res matches Err(e) && e.is_invalid_firmware(
            "HALFKAY requires Intel HEX firmware (.hex file)"@,
        )),
{
    let data = match halfkay_firmware_data(firmware) {
        Ok(d) => d,
        Err(e) => {
            return Err(e);
        },
    };
    let mut steps: Vec<HalfkayAction> = Vec::new();
    let mut addr: usize = 0;
    while addr < ERGODOX_MEM_SIZE
        invariant
            addr <= ERGODOX_MEM_SIZE,
            addr % ERGODOX_SECTOR_SIZE == 0,
            sector_steps(data@, 0) == steps@.map_values(|a: HalfkayAction| step_of(a)) + sector_steps(
                data@,
                addr as int,
            ),
        decreases ERGODOX_MEM_SIZE + ERGODOX_SECTOR_SIZE - addr,
    {
        let packet = halfkay_sector_packet(data, addr);
        let millis: u64 = if addr == 0 { 2000 } else { 10 };
        let s1 = HalfkayAction::Send { packet, quiet: false };
        let s2 = HalfkayAction::Pause { millis };
        let s3 = HalfkayAction::Report(
            FlashProgress::Writing { bytes_written: addr + ERGODOX_SECTOR_SIZE, total_bytes: ERGODOX_MEM_SIZE },
        );
        let ghost before = steps@;
        steps.push(s1);
        steps.push(s2);
        steps.push(s3);
        proof {
            assert(steps@.map_values(|a: HalfkayAction| step_of(a)) =~= before.map_values(
                |a: HalfkayAction| step_of(a),
            ) + seq![step_of(s1), step_of(s2), step_of(s3)]);
            assert(before.map_values(|a: HalfkayAction| step_of(a)) + sector_steps(data@, addr as int)
                =~= steps@.map_values(|a: HalfkayAction| step_of(a)) + sector_steps(
                data@,
                addr + ERGODOX_SECTOR_SIZE,
            ));
        }
        addr = addr + ERGODOX_SECTOR_SIZE;
    }
    let ghost before = steps@;
    let reboot = halfkay_reboot_packet();
    steps.push(HalfkayAction::Pause { millis: 1000 });
    steps.push(HalfkayAction::Report(FlashProgress::Resetting));
    steps.push(HalfkayAction::Send { packet: reboot, quiet: true });
    steps.push(HalfkayAction::Report(FlashProgress::Complete));
    proof {
        assert(sector_steps(data@, addr as int) == Seq::<HalfkayStep>::empty());
        assert(steps@.map_values(|a: HalfkayAction| step_of(a)) =~= halfkay_steps(data@));
    }
    Ok(steps)
}

/// What to do after one try at sending a report.
#[derive(Debug)]
pub enum SendStep {
    /// The report was sent.
    Sent,
    /// Wait, then try again.
    Retry { delay_millis: u64 },
    /// Wait, then stop with this result.
    GiveUp { delay_millis: u64, result: Result<(), ZappError> },
}

/// Decides after try number `attempt` (from 0) at sending a report, which
/// succeeded when `sent`: a failed try is followed by a wait of
/// `RETRY_DELAY_MILLIS`, then another try, unless it was the last of
/// `PACKET_RETRIES` tries, after which the report fails as `retries_exhausted` says.
pub fn after_send(sent: bool, attempt: usize, quiet: bool) -> (res: SendStep)
    requires
        attempt < PACKET_RETRIES,
    ensures
        sent ==> res is Sent,
        !sent && attempt + 1 < PACKET_RETRIES ==> res == (SendStep::Retry { delay_millis: RETRY_DELAY_MILLIS }),
        !sent && attempt + 1 == PACKET_RETRIES ==> (res matches SendStep::GiveUp { delay_millis, result }
            && delay_millis == RETRY_DELAY_MILLIS && (quiet ==> result is Ok) && (!quiet ==> (result matches Err(
            e,
        ) && e.is_dfu("failed to send HID packet after 5 retries"@)))),
{
    if sent {
        SendStep::Sent
    } else if attempt + 1 < PACKET_RETRIES {
        SendStep::Retry { delay_millis: RETRY_DELAY_MILLIS }
    } else {
        SendStep::GiveUp { delay_millis: RETRY_DELAY_MILLIS, result: retries_exhausted(quiet) }
    }
}

/// The result of sending a report that failed every retry: an error, unless the
/// report was sent quietly.
pub fn retries_exhausted(quiet: bool) -> (res: Result<(), ZappError>)
    ensures
        quiet ==> res is Ok,
        !quiet ==> (res matches Err(e) && e.is_dfu("failed to send HID packet after 5 retries"@)),
{
    if quiet {
        Ok(())
    } else {
        Err(ZappError::Dfu(String::from_str("failed to send HID packet after 5 retries")))
    }
}


proof fn lemma_sector_steps_index(firmware: Seq<u8>, addr: int, k: int)
    requires
        0 <= addr <= ERGODOX_MEM_SIZE,
        addr % 128 == 0,
        0 <= k,
        addr + 128 * k < ERGODOX_MEM_SIZE,
    ensures
        3 * k + 2 < sector_steps(firmware, addr).len(),
        sector_steps(firmware, addr)[3 * k] == (HalfkayStep::Send {
            packet: sector_packet(firmware, addr + 128 * k),
            quiet: false,
        }),
    decreases k,
{
    let head = seq![
        HalfkayStep::Send { packet: sector_packet(firmware, addr), quiet: false },
        HalfkayStep::Pause { millis: if addr == 0 { 2000 } else { 10 } },
        HalfkayStep::Report(
            FlashProgress::Writing {
                bytes_written: (addr + ERGODOX_SECTOR_SIZE) as usize,
                total_bytes: ERGODOX_MEM_SIZE,
            },
        ),
    ];
    let rest = sector_steps(firmware, addr + 128);
    assert(sector_steps(firmware, addr) == head + rest);
    if k > 0 {
        lemma_sector_steps_index(firmware, addr + 128, k - 1);
        assert((head + rest)[3 * k] == rest[3 * (k - 1)]);
    }
}

/// HALFKAY writes every byte of the firmware that fits the flash: the byte at `i`
/// travels in the report of the sector that holds `i`, at its offset in the sector,
/// and that report names the sector's address.
pub proof fn lemma_every_byte_is_sent(firmware: Seq<u8>, i: int)
    requires
        0 <= i < firmware.len(),
        i < ERGODOX_MEM_SIZE,
    ensures
        ({
            let sector = i - i % 128;
            &&& halfkay_steps(firmware)[3 * (i / 128)] == (HalfkayStep::Send {
                packet: sector_packet(firmware, sector),
                quiet: false,
            })
            &&& sector_packet(firmware, sector)[3 + i % 128] == firmware[i]
            &&& sector_packet(firmware, sector)[1] + 256 * sector_packet(firmware, sector)[2] == sector
        }),
{
    let k = i / 128;
    let sector = i - i % 128;
    assert(sector == 128 * k);
    assert(sector % 128 == 0);
    lemma_sector_steps_index(firmware, 0, k);
    assert(halfkay_steps(firmware)[3 * k] == sector_steps(firmware, 0)[3 * k]);
    assert(sector_packet(firmware, sector)[3 + i % 128] == firmware[sector + 3 + i % 128 - 3]);
}

} // verus!
