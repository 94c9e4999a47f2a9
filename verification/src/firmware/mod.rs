//! Firmware images as read from a file: DFU binaries (with one or two images)
//! and Intel HEX texts.

pub mod dfu_bin;
pub mod ihex;

use vstd::prelude::*;
use vstd::string::*;

use crate::device::ids::{target_name, target_name_for_pid};
use crate::error::{invalid_firmware, ZappError};
use crate::text::{decimal, decimal_string};
use dfu_bin::{find_dfu_suffixes, suffixes_from, DfuSuffix};
use ihex::{ihex_outcome, ihex_result_matches, parse_ihex, IhexOutcome};

verus! {

/// A single DFU image extracted from a firmware file.
#[derive(Debug, Clone)]
pub struct DfuImage {
    pub data: Vec<u8>,
    pub vid: u16,
    pub pid: u16,
}

/// Parsed firmware ready for flashing.
#[derive(Debug, Clone)]
pub enum Firmware {
    /// Single DFU binary (suffix stripped).
    DfuBinary { data: Vec<u8>, vid: u16, pid: u16 },
    /// Dual-firmware file (e.g., Ignition Voyager STM32+GD32, or Moonlander revA+revB).
    /// Contains two concatenated DFU images, each with its own suffix.
    IgnitionDual { primary: DfuImage, alternate: DfuImage },
    /// Intel HEX firmware for HALFKAY.
    IntelHex {
        /// Contiguous firmware data extracted from HEX records.
        data: Vec<u8>,
    },
}

/// `img` is the image of `data[from..s.data_end)` named by the suffix `s`.
pub open spec fn image_matches(img: DfuImage, data: Seq<u8>, from: int, s: DfuSuffix) -> bool {
    &&& img.data@ == data.subrange(from, s.data_end as int)
    &&& img.vid == s.vid
    &&& img.pid == s.pid
}

/// Whether loading `data` would fail outright (an Intel HEX text that cannot be read).
pub open spec fn load_is_broken(data: Seq<u8>) -> bool {
    data.len() > 0 && data[0] == 0x3A && ihex_outcome(data) is Broken
}

/// What loading a firmware file with contents `data` gives.
pub open spec fn load_matches(data: Seq<u8>, res: Result<Firmware, ZappError>) -> bool {
    let sfx = suffixes_from(data, 0);
    if data.len() == 0 {
        res matches Err(e) && e.is_invalid_firmware("file is empty"@)
    } else if data[0] == 0x3A {
        // Intel HEX starts with ':'
        match ihex_outcome(data) {
            IhexOutcome::Image(img) => res matches Ok(Firmware::IntelHex { data: d }) && d@ == img,
            _ => res matches Err(e) && ihex_result_matches(data, Err(e)),
        }
    } else if sfx.len() == 0 {
        res matches Err(e) && e.is_invalid_firmware(
            "not a valid firmware file (no DFU suffix or Intel HEX header found)"@,
        )
    } else if sfx.len() == 1 {
        res matches Ok(Firmware::DfuBinary { data: d, vid, pid }) && d@ == data.subrange(
            0,
            sfx[0].data_end as int,
        ) && vid == sfx[0].vid && pid == sfx[0].pid
    } else if sfx.len() == 2 {
        // Dual-firmware (Ignition / Moonlander dual-revision)
        res matches Ok(Firmware::IgnitionDual { primary, alternate }) && image_matches(
            primary,
            data,
            0,
            sfx[0],
        ) && image_matches(alternate, data, sfx[0].suffix_end as int, sfx[1])
    } else {
        res matches Err(e) && e.is_invalid_firmware(
            "unexpected number of DFU suffixes: "@ + decimal(sfx.len()),
        )
    }
}

/// A copy of `data[from..to)`.
pub fn copy_range(data: &[u8], from: usize, to: usize) -> (res: Vec<u8>)
    requires
        from <= to <= data@.len(),
    ensures
        res@ == data@.subrange(from as int, to as int),
{
    let mut res: Vec<u8> = Vec::new();
    let mut i = from;
    while i < to
        invariant
            from <= i <= to <= data@.len(),
            res@ == data@.subrange(from as int, i as int),
        decreases to - i,
    {
        res.push(data[i]);
        i = i + 1;
        assert(res@ =~= data@.subrange(from as int, i as int));
    }
    res
}

/// Load firmware from the contents of a file, auto-detecting the format.
///
/// Detection logic:
/// - Files starting with `:` are Intel HEX
/// - Files containing valid DFU suffix(es) are DFU binary
pub fn load_firmware_from_bytes(data: &[u8]) -> (res: Result<Firmware, ZappError>)
    requires
        !load_is_broken(data@),
    ensures
        load_matches(data@, res),
{
    if data.len() == 0 {
        return Err(invalid_firmware(String::from_str("file is empty")));
    }
    if data[0] == 0x3A {
        return match parse_ihex(data) {
            Ok(image) => Ok(Firmware::IntelHex { data: image }),
            Err(e) => Err(e),
        };
    }
    let suffixes = find_dfu_suffixes(data);
    proof {
        dfu_bin::lemma_suffixes_well_formed(data@, 0);
    }
    if suffixes.len() == 0 {
        return Err(
            invalid_firmware(
                String::from_str("not a valid firmware file (no DFU suffix or Intel HEX header found)"),
            ),
        );
    }
    if suffixes.len() == 1 {
        let suffix = suffixes[0];
        let image = copy_range(data, 0, suffix.data_end);
        return Ok(Firmware::DfuBinary { data: image, vid: suffix.vid, pid: suffix.pid });
    }
    if suffixes.len() == 2 {
        let first = suffixes[0];
        let second = suffixes[1];
        assert(first.suffix_end <= second.data_end);
        let primary_data = copy_range(data, 0, first.data_end);
        let alternate_data = copy_range(data, first.suffix_end, second.data_end);
        return Ok(
            Firmware::IgnitionDual {
                primary: DfuImage { data: primary_data, vid: first.vid, pid: first.pid },
                alternate: DfuImage { data: alternate_data, vid: second.vid, pid: second.pid },
            },
        );
    }
    let mut msg = String::from_str("unexpected number of DFU suffixes: ");
    let count = decimal_string(suffixes.len());
    msg.append(count.as_str());
    Err(invalid_firmware(msg))
}

/// Whether loading `data` fails outright.
pub fn load_would_break(data: &[u8]) -> (res: bool)
    ensures
        res == load_is_broken(data@),
{
    data.len() > 0 && data[0] == 0x3A && ihex::ihex_is_broken(data)
}


/// A one-line description of a firmware: its target and size.
pub open spec fn description_of(fw: Firmware) -> Seq<char> {
    match fw {
        Firmware::DfuBinary { data, pid, .. } => target_name(pid) + " ("@ + decimal(data@.len()) + " bytes)"@,
        Firmware::IgnitionDual { primary, alternate } => target_name(primary.pid) + " + "@ + target_name(
            alternate.pid,
        ) + " ("@ + decimal(primary.data@.len()) + " + "@ + decimal(alternate.data@.len()) + " bytes)"@,
        Firmware::IntelHex { data } => "Ergodox EZ ("@ + decimal(data@.len()) + " bytes)"@,
    }
}

/// A one-line description of a firmware: its target and size.
pub fn firmware_description(fw: &Firmware) -> (res: String)
    ensures
        res@ == description_of(*fw),
{
    match fw {
        Firmware::DfuBinary { data, pid, .. } => {
            let mut s = String::from_str(target_name_for_pid(*pid));
            s.append(" (");
            s.append(decimal_string(data.len()).as_str());
            s.append(" bytes)");
            s
        },
        Firmware::IgnitionDual { primary, alternate } => {
            let mut s = String::from_str(target_name_for_pid(primary.pid));
            s.append(" + ");
            s.append(target_name_for_pid(alternate.pid));
            s.append(" (");
            s.append(decimal_string(primary.data.len()).as_str());
            s.append(" + ");
            s.append(decimal_string(alternate.data.len()).as_str());
            s.append(" bytes)");
            s
        },
        Firmware::IntelHex { data } => {
            let mut s = String::from_str("Ergodox EZ (");
            s.append(decimal_string(data.len()).as_str());
            s.append(" bytes)");
            s
        },
    }
}

} // verus!
