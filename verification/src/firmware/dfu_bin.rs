//! DFU suffixes: the 16-byte trailers that close each image of a DFU binary.
//!
//! Within a suffix, bytes 2-3 hold the PID and bytes 4-5 the VID (both
//! little-endian), and bytes 8-10 read "UFD" ("DFU" reversed).

use vstd::prelude::*;

verus! {

/// DFU suffix length in bytes.
pub const DFU_SUFFIX_LENGTH: usize = 16;

/// Information extracted from a DFU suffix found in a firmware file.
#[derive(Debug, Clone, Copy, PartialEq, Eq, Structural)]
pub struct DfuSuffix {
    pub vid: u16,
    pub pid: u16,
    /// End of the firmware data (start of the suffix).
    pub data_end: usize,
    /// End of the suffix (data_end + DFU_SUFFIX_LENGTH).
    pub suffix_end: usize,
}

/// The little-endian 16-bit number with bytes `lo`, `hi`.
pub open spec fn le16(lo: u8, hi: u8) -> u16 {
    (lo + hi * 256) as u16
}

/// Whether the 16 bytes of `data` at `i` carry the "UFD" magic and a nonzero PID.
pub open spec fn is_suffix_at(data: Seq<u8>, i: int) -> bool {
    &&& 0 <= i
    &&& i + 16 <= data.len()
    &&& data[i + 8] == 0x55
    &&& data[i + 9] == 0x46
    &&& data[i + 10] == 0x44
    &&& le16(data[i + 2], data[i + 3]) != 0
}

/// The suffix read from the 16 bytes of `data` at `i`.
pub open spec fn suffix_at(data: Seq<u8>, i: int) -> DfuSuffix {
    DfuSuffix {
        vid: le16(data[i + 4], data[i + 5]),
        pid: le16(data[i + 2], data[i + 3]),
        data_end: i as usize,
        suffix_end: (i + 16) as usize,
    }
}

/// The suffixes found scanning `data` from byte `i` on: each window of 16
/// bytes is tried in turn, and after a match the scan resumes past it.
pub open spec fn suffixes_from(data: Seq<u8>, i: int) -> Seq<DfuSuffix>
    decreases data.len() - i,
{
    if i < 0 || i + 16 > data.len() {
        seq![]
    } else if is_suffix_at(data, i) {
        seq![suffix_at(data, i)] + suffixes_from(data, i + 16)
    } else {
        suffixes_from(data, i + 1)
    }
}

/// Scan a firmware file for all valid DFU suffixes.
///
/// A DFU suffix is 16 bytes at the end of a firmware image.
/// Bytes 8-10 (from suffix start) contain "UFD" (reversed "DFU").
/// Bytes 2-3 contain the PID (little-endian).
/// Bytes 4-5 contain the VID (little-endian).
///
/// For dual-firmware files (Ignition), there are two concatenated images
/// each with their own suffix.
pub fn find_dfu_suffixes(data: &[u8]) -> (res: Vec<DfuSuffix>)
    ensures
        res@ == suffixes_from(data@, 0),
{
    let mut suffixes: Vec<DfuSuffix> = Vec::new();
    if data.len() < DFU_SUFFIX_LENGTH {
        return suffixes;
    }
    // Scan byte-by-byte looking for the "UFD" magic at offset 8 within a 16-byte window.
    let mut i: usize = 0;
    while i <= data.len() - DFU_SUFFIX_LENGTH
        invariant
            DFU_SUFFIX_LENGTH <= data@.len(),
            i <= data@.len(),
            suffixes_from(data@, 0) == suffixes@ + suffixes_from(data@, i as int),
        decreases data@.len() - i,
    {
        if data[i + 8] == 0x55 && data[i + 9] == 0x46 && data[i + 10] == 0x44 {
            let pid = data[i + 2] as u16 + data[i + 3] as u16 * 256;
            let vid = data[i + 4] as u16 + data[i + 5] as u16 * 256;
            if pid != 0 {
                let s = DfuSuffix { vid, pid, data_end: i, suffix_end: i + DFU_SUFFIX_LENGTH };
                proof {
                    assert(s == suffix_at(data@, i as int));
                    assert(suffixes@.push(s) + suffixes_from(data@, i + 16) =~= suffixes@ + (seq![s]
                        + suffixes_from(data@, i + 16)));
                }
                suffixes.push(s);
                // Skip past this suffix to avoid overlapping matches
                i = i + DFU_SUFFIX_LENGTH;
                continue;
            }
        }
        i = i + 1;
    }
    assert(suffixes@ + suffixes_from(data@, i as int) =~= suffixes@);
    suffixes
}

/// The 16 bytes of a suffix naming `vid` and `pid`.
pub open spec fn suffix_bytes(vid: u16, pid: u16) -> Seq<u8> {
    seq![
        0u8, 0u8, (pid % 256) as u8, (pid / 256) as u8, (vid % 256) as u8, (vid / 256) as u8, 0u8, 0u8,
        0x55u8, 0x46u8, 0x44u8, 0u8, 0u8, 0u8, 0u8, 0u8,
    ]
}

/// Build a DFU suffix naming `vid` and `pid` (all other bytes zero).
pub fn build_test_suffix(vid: u16, pid: u16) -> (res: [u8; DFU_SUFFIX_LENGTH])
    ensures
        res@ == suffix_bytes(vid, pid),
{
    let res = [
        0, 0, (pid % 256) as u8, (pid / 256) as u8, (vid % 256) as u8, (vid / 256) as u8, 0, 0,
        0x55, 0x46, 0x44, 0, 0, 0, 0, 0,
    ];
    assert(res@ =~= suffix_bytes(vid, pid));
    res
}

/// Every suffix found lies inside the data, carries the magic and a nonzero PID,
/// spans exactly 16 bytes and reads back as its VID and PID; the suffixes come
/// in file order and do not overlap.
pub proof fn lemma_suffixes_well_formed(data: Seq<u8>, i: int)
    requires
        0 <= i,
        data.len() <= usize::MAX,
    ensures
        forall|k: int|
            0 <= k < suffixes_from(data, i).len() ==> {
                let s = #[trigger] suffixes_from(data, i)[k];
                &&& i <= s.data_end
                &&& s.suffix_end == s.data_end + 16
                &&& s.suffix_end <= data.len()
                &&& is_suffix_at(data, s.data_end as int)
                &&& s == suffix_at(data, s.data_end as int)
            },
        forall|k: int, l: int|
            0 <= k < l < suffixes_from(data, i).len() ==> #[trigger] suffixes_from(data, i)[k].suffix_end
                <= #[trigger] suffixes_from(data, i)[l].data_end,
    decreases data.len() - i,
{
    if i + 16 <= data.len() {
        if is_suffix_at(data, i) {
            lemma_suffixes_well_formed(data, i + 16);
            let rest = suffixes_from(data, i + 16);
            let all = suffixes_from(data, i);
            assert(all == seq![suffix_at(data, i)] + rest);
            assert forall|k: int| 0 <= k < all.len() implies {
                let s = #[trigger] all[k];
                &&& i <= s.data_end
                &&& s.suffix_end == s.data_end + 16
                &&& s.suffix_end <= data.len()
                &&& is_suffix_at(data, s.data_end as int)
                &&& s == suffix_at(data, s.data_end as int)
            } by {
                if k > 0 {
                    assert(all[k] == rest[k - 1]);
                }
            }
            assert forall|k: int, l: int| 0 <= k < l < all.len() implies #[trigger] all[k].suffix_end
                <= #[trigger] all[l].data_end by {
                if k > 0 {
                    assert(all[k] == rest[k - 1]);
                }
                assert(all[l] == rest[l - 1]);
            }
        } else {
            lemma_suffixes_well_formed(data, i + 1);
            assert(suffixes_from(data, i) == suffixes_from(data, i + 1));
        }
    } else {
        assert(suffixes_from(data, i) == Seq::<DfuSuffix>::empty());
    }
}

/// A suffix written by `build_test_suffix` with a nonzero PID is read back, alone,
/// with the same VID and PID; with PID 0 nothing is found.
pub proof fn lemma_built_suffix_read_back(vid: u16, pid: u16)
    ensures
        suffixes_from(suffix_bytes(vid, pid), 0) == if pid != 0 {
            seq![DfuSuffix { vid, pid, data_end: 0, suffix_end: 16 }]
        } else {
            seq![]
        },
{
    let s = suffix_bytes(vid, pid);
    assert(le16(s[2], s[3]) == pid);
    assert(le16(s[4], s[5]) == vid);
    assert(suffixes_from(s, 1) == Seq::<DfuSuffix>::empty());
    assert(suffixes_from(s, 16) == Seq::<DfuSuffix>::empty());
    if pid != 0 {
        assert(seq![suffix_at(s, 0)] + suffixes_from(s, 16) =~= seq![
            DfuSuffix { vid, pid, data_end: 0, suffix_end: 16 },
        ]);
    }
}

} // verus!
