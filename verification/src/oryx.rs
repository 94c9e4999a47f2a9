//! Oryx, ZSA's layout configurator: reading the layout URLs that users copy,
//! and the requests that fetch revisions and firmware builds.

use vstd::prelude::*;
use vstd::string::*;
use vstd::utf8::{encode_utf8, encode_utf8_valid_utf8, is_char_boundary, valid_utf8};

use crate::device::ids::{Keyboard, MOONLANDER_REVB_PID};
use crate::text::{digit_char, lemma_boundary_after_char, lemma_boundary_at, str_eq, str_slice, trim_bytes, trim_str};

verus! {

/// The layout editor front end, where the URLs users copy come from.
pub const CONFIGURE_URL: &'static str = "https://configure.zsa.io/";

/// Oryx's API host, serving firmware builds and the GraphQL endpoint.
pub const ORYX_API_URL: &'static str = "https://oryx.zsa.io";

/// Errors of the Oryx helpers.
#[derive(Debug)]
pub enum OryxError {
    /// The text is no Oryx layout URL.
    InvalidUrl,
}

proof fn lemma_configure_url_bytes()
    ensures
        CONFIGURE_URL.spec_bytes().len() == 25,
        CONFIGURE_URL.spec_bytes()[24] == 0x2F,
{
    reveal_strlit("https://configure.zsa.io/");
    assert(is_ascii(CONFIGURE_URL));
    is_ascii_spec_bytes(CONFIGURE_URL);
}

/// Oryx geometry slug for a keyboard. The Ergodox EZ shipped with two different
/// MCUs, and Oryx models them as separate geometries.
pub open spec fn geometry_of(keyboard: Keyboard, pid: u16) -> Seq<char> {
    match keyboard {
        Keyboard::Voyager => "voyager"@,
        Keyboard::Moonlander => "moonlander"@,
        Keyboard::PlanckEz => "planck-ez"@,
        Keyboard::ErgodoxEz => if pid == 0x2010 || pid == 0x2020 || pid == 0x2030 {
            "ergodox-ez-st"@
        } else {
            "ergodox-ez"@
        },
    }
}

/// Oryx geometry slug for a keyboard.
pub fn geometry_for(keyboard: Keyboard, pid: u16) -> (res: &'static str)
    ensures
        res@ == geometry_of(keyboard, pid),
{
    match keyboard {
        Keyboard::Voyager => "voyager",
        Keyboard::Moonlander => "moonlander",
        Keyboard::PlanckEz => "planck-ez",
        Keyboard::ErgodoxEz => match pid {
            0x2010 | 0x2020 | 0x2030 => "ergodox-ez-st",
            _ => "ergodox-ez",
        },
    }
}

/// Whether `s` begins with the bytes `p`.
pub open spec fn starts_with(s: Seq<u8>, p: Seq<u8>) -> bool {
    p.len() <= s.len() && s.subrange(0, p.len() as int) == p
}

fn bytes_start_with(s: &[u8], p: &[u8]) -> (res: bool)
    ensures
        res == starts_with(s@, p@),
{
    if p.len() > s.len() {
        return false;
    }
    let mut i: usize = 0;
    while i < p.len()
        invariant
            p@.len() <= s@.len(),
            i <= p@.len(),
            s@.subrange(0, i as int) == p@.subrange(0, i as int),
        decreases p@.len() - i,
    {
        if s[i] != p[i] {
            assert(s@.subrange(0, p@.len() as int)[i as int] != p@[i as int]);
            return false;
        }
        i = i + 1;
        assert(s@.subrange(0, i as int) =~= p@.subrange(0, i as int));
    }
    assert(p@.subrange(0, p@.len() as int) =~= p@);
    true
}

/// Whether a string looks like an Oryx layout URL rather than a local path.
pub fn is_oryx_url(s: &str) -> (res: bool)
    ensures
        res == starts_with(s.spec_bytes(), CONFIGURE_URL.spec_bytes()),
{
    bytes_start_with(s.as_bytes(), CONFIGURE_URL.as_bytes())
}

/// The first `/` in `s[from..to)`, or `to`.
pub open spec fn next_slash(s: Seq<u8>, from: int, to: int) -> int
    decreases to - from,
{
    if from >= to {
        to
    } else if s[from] == 0x2F {
        from
    } else {
        next_slash(s, from + 1, to)
    }
}

pub proof fn lemma_next_slash(s: Seq<u8>, from: int, to: int)
    requires
        0 <= from <= to <= s.len(),
    ensures
        from <= next_slash(s, from, to) <= to,
        next_slash(s, from, to) < to ==> s[next_slash(s, from, to)] == 0x2F,
    decreases to - from,
{
    if from < to && s[from] != 0x2F {
        lemma_next_slash(s, from + 1, to);
    }
}

/// The end of `s[lo..hi)` once its trailing `/` are removed.
pub open spec fn trimmed_end(s: Seq<u8>, lo: int, hi: int) -> int
    decreases hi - lo,
{
    if hi > lo && s[hi - 1] == 0x2F {
        trimmed_end(s, lo, hi - 1)
    } else {
        hi
    }
}

pub proof fn lemma_trimmed_end(s: Seq<u8>, lo: int, hi: int)
    requires
        0 <= lo <= hi <= s.len(),
    ensures
        lo <= trimmed_end(s, lo, hi) <= hi,
        trimmed_end(s, lo, hi) < hi ==> s[trimmed_end(s, lo, hi)] == 0x2F,
    decreases hi - lo,
{
    if hi > lo && s[hi - 1] == 0x2F {
        lemma_trimmed_end(s, lo, hi - 1);
    }
}

/// The pieces of `s[start..end)` between `/` separators (at least one, possibly empty).
pub open spec fn pieces(s: Seq<u8>, start: int, end: int) -> Seq<Seq<u8>>
    decreases end - start,
{
    let j = next_slash(s, start, end);
    if j >= end || start < 0 || end > s.len() || start > end {
        seq![s.subrange(start, end)]
    } else {
        proof {
            lemma_next_slash(s, start, end);
        }
        seq![s.subrange(start, j)] + pieces(s, j + 1, end)
    }
}

/// The bytes of "layouts".
pub open spec fn layouts_bytes() -> Seq<u8> {
    seq![0x6Cu8, 0x61u8, 0x79u8, 0x6Fu8, 0x75u8, 0x74u8, 0x73u8]
}

/// The bytes of "latest".
pub open spec fn latest_bytes() -> Seq<u8> {
    seq![0x6Cu8, 0x61u8, 0x74u8, 0x65u8, 0x73u8, 0x74u8]
}

/// The (geometry, layout ID, revision ID) that an Oryx URL names, as bytes: the path
/// after the configurator's address, without trailing slashes, split at `/`, must
/// have "layouts" as second piece; the fourth piece, if any, is the revision unless
/// it is "latest".
pub open spec fn url_parts(url: Seq<u8>) -> Option<(Seq<u8>, Seq<u8>, Option<Seq<u8>>)> {
    let p = CONFIGURE_URL.spec_bytes();
    if !starts_with(url, p) {
        None
    } else {
        let segs = pieces(url, p.len() as int, trimmed_end(url, p.len() as int, url.len() as int));
        if segs.len() < 3 || segs[1] != layouts_bytes() {
            None
        } else {
            Some(
                (
                    segs[0],
                    segs[2],
                    if segs.len() > 3 && segs[3] != latest_bytes() {
                        Some(segs[3])
                    } else {
                        None
                    },
                ),
            )
        }
    }
}

/// Whether no byte of `x` is `/`.
pub open spec fn no_slash(x: Seq<u8>) -> bool {
    forall|i: int| 0 <= i < x.len() ==> x[i] != 0x2F
}

proof fn lemma_next_slash_at(s: Seq<u8>, from: int, to: int, k: int)
    requires
        0 <= from <= from + k <= to <= s.len(),
        forall|i: int| from <= i < from + k ==> s[i] != 0x2F,
        from + k == to || s[from + k] == 0x2F,
    ensures
        next_slash(s, from, to) == from + k,
    decreases k,
{
    if k > 0 {
        lemma_next_slash_at(s, from + 1, to, k - 1);
    }
}

proof fn lemma_trimmed_end_at(s: Seq<u8>, lo: int, c: int, hi: int)
    requires
        0 <= lo < c <= hi <= s.len(),
        s[c - 1] != 0x2F,
        forall|i: int| c <= i < hi ==> s[i] == 0x2F,
    ensures
        trimmed_end(s, lo, hi) == c,
    decreases hi - c,
{
    if hi > c {
        lemma_trimmed_end_at(s, lo, c, hi - 1);
    }
}

/// The bytes of a layout URL: the configurator's address, the geometry,
/// "/layouts/", the layout ID, then `tail`.
pub open spec fn layout_url(geometry: Seq<u8>, layout_id: Seq<u8>, tail: Seq<u8>) -> Seq<u8> {
    CONFIGURE_URL.spec_bytes() + geometry + seq![0x2Fu8] + layouts_bytes() + seq![0x2Fu8] + layout_id + tail
}

/// The URL forms that Oryx hands out read as documented: after
/// `.../<geometry>/layouts/<layout>` either nothing follows (the latest revision),
/// or `/<piece>` and possibly more, where the piece is the revision unless it is
/// "latest"; any number of trailing slashes may follow.
pub proof fn lemma_layout_urls(
    geometry: Seq<u8>,
    layout_id: Seq<u8>,
    revision: Seq<u8>,
    more: Seq<u8>,
    with_revision: bool,
    slashes: nat,
)
    requires
        no_slash(geometry),
        no_slash(layout_id),
        no_slash(revision),
        more.len() == 0 || more[0] == 0x2F,
        !with_revision ==> more.len() == 0,
        ({
            let base = layout_url(
                geometry,
                layout_id,
                if with_revision { seq![0x2Fu8] + revision + more } else { seq![] },
            );
            base.last() != 0x2F
        }),
    ensures
        url_parts(
            layout_url(
                geometry,
                layout_id,
                if with_revision { seq![0x2Fu8] + revision + more } else { seq![] },
            ) + Seq::new(slashes, |i: int| 0x2Fu8),
        ) == Some(
            (
                geometry,
                layout_id,
                if with_revision && revision != latest_bytes() {
                    Some(revision)
                } else {
                    None
                },
            ),
        ),
{
    lemma_configure_url_bytes();
    let p = CONFIGURE_URL.spec_bytes();
    let tail = if with_revision { seq![0x2Fu8] + revision + more } else { seq![] };
    let base = layout_url(geometry, layout_id, tail);
    let u = base + Seq::new(slashes, |i: int| 0x2Fu8);
    let n = u.len() as int;
    let c = base.len() as int;
    let a1: int = 25 + geometry.len() as int;
    let a3: int = a1 + 8;
    let a5: int = a3 + 1 + layout_id.len() as int;
    assert(u.subrange(0, 25) =~= p);
    assert(forall|i: int| 25 <= i < a1 ==> u[i] == geometry[i - 25]);
    assert(u[a1] == 0x2F);
    assert(u.subrange(a1 + 1, a3) =~= layouts_bytes());
    assert(forall|i: int| a1 + 1 <= i < a3 ==> u[i] == layouts_bytes()[i - a1 - 1]);
    assert(u[a3] == 0x2F);
    assert(forall|i: int| a3 + 1 <= i < a5 ==> u[i] == layout_id[i - a3 - 1]);
    assert(forall|i: int| c <= i < n ==> u[i] == 0x2F);
    assert(u[c - 1] == base.last());
    lemma_trimmed_end_at(u, 25, c, n);
    assert(u.subrange(25, a1) =~= geometry);
    assert(u.subrange(a3 + 1, a5) =~= layout_id);
    lemma_next_slash_at(u, 25, c, geometry.len() as int);
    lemma_next_slash_at(u, a1 + 1, c, 7);
    let segs = pieces(u, 25, c);
    assert(segs == seq![u.subrange(25, a1)] + pieces(u, a1 + 1, c));
    assert(pieces(u, a1 + 1, c) == seq![u.subrange(a1 + 1, a3)] + pieces(u, a3 + 1, c));
    if with_revision {
        assert(u[a5] == 0x2F);
        let a7: int = a5 + 1 + revision.len() as int;
        assert(forall|i: int| a5 + 1 <= i < a7 ==> u[i] == revision[i - a5 - 1]);
        assert(a7 == c || u[a7] == 0x2F);
        lemma_next_slash_at(u, a3 + 1, c, layout_id.len() as int);
        lemma_next_slash_at(u, a5 + 1, c, revision.len() as int);
        assert(u.subrange(a5 + 1, a7) =~= revision);
        assert(pieces(u, a3 + 1, c) == seq![u.subrange(a3 + 1, a5)] + pieces(u, a5 + 1, c));
        if a7 < c {
            assert(pieces(u, a5 + 1, c) == seq![u.subrange(a5 + 1, a7)] + pieces(u, a7 + 1, c));
        } else {
            assert(pieces(u, a5 + 1, c) == seq![u.subrange(a5 + 1, a7)]);
        }
        assert(segs[3] == revision);
    } else {
        assert(a5 == c);
        lemma_next_slash_at(u, a3 + 1, c, layout_id.len() as int);
        assert(pieces(u, a3 + 1, c) == seq![u.subrange(a3 + 1, a5)]);
        assert(segs.len() == 3);
    }
    assert(segs[0] == geometry);
    assert(segs[1] == layouts_bytes());
    assert(segs[2] == layout_id);
}

fn find_slash(s: &[u8], from: usize, to: usize) -> (res: usize)
    requires
        from <= to <= s@.len(),
    ensures
        res == next_slash(s@, from as int, to as int),
{
    let mut i = from;
    while i < to && s[i] != 0x2F
        invariant
            from <= i <= to <= s@.len(),
            next_slash(s@, from as int, to as int) == next_slash(s@, i as int, to as int),
        decreases to - i,
    {
        i = i + 1;
    }
    i
}

fn range_equals(s: &[u8], from: usize, to: usize, lit: &[u8]) -> (res: bool)
    requires
        from <= to <= s@.len(),
    ensures
        res == (s@.subrange(from as int, to as int) == lit@),
{
    if to - from != lit.len() {
        return false;
    }
    let mut i: usize = 0;
    while i < lit.len()
        invariant
            to - from == lit@.len(),
            from <= to <= s@.len(),
            i <= lit@.len(),
            forall|k: int| 0 <= k < i ==> s@[from + k] == lit@[k],
        decreases lit@.len() - i,
    {
        if s[from + i] != lit[i] {
            assert(s@.subrange(from as int, to as int)[i as int] != lit@[i as int]);
            return false;
        }
        i = i + 1;
    }
    assert(s@.subrange(from as int, to as int) =~= lit@);
    true
}

/// Parse an Oryx URL into (geometry, layout_id, Option<revision_id>).
///
/// Accepted forms:
///   /voyager/layouts/:layoutId
///   /voyager/layouts/:layoutId/latest
///   /voyager/layouts/:layoutId/latest/0
///   /voyager/layouts/:layoutId/:revisionId
pub fn parse_url(url: &str) -> (res: Result<(&str, &str, Option<&str>), OryxError>)
    ensures
        match url_parts(url.spec_bytes()) {
            None => res matches Err(OryxError::InvalidUrl),
            Some((g, l, r)) => res matches Ok((geometry, layout_id, revision_id))
                && geometry.spec_bytes() == g && layout_id.spec_bytes() == l && match r {
                None => revision_id is None,
                Some(x) => revision_id matches Some(rev) && rev.spec_bytes() == x,
            },
        },
{
    let b = url.as_bytes();
    let ghost s = b@;
    proof {
        lemma_configure_url_bytes();
        encode_utf8_valid_utf8(url@);
    }
    if !bytes_start_with(b, CONFIGURE_URL.as_bytes()) {
        return Err(OryxError::InvalidUrl);
    }
    let n = b.len();
    let start: usize = 25;
    let mut end = n;
    while end > start && b[end - 1] == 0x2F
        invariant
            start <= end <= n == s.len(),
            s == b@,
            trimmed_end(s, start as int, n as int) == trimmed_end(s, start as int, end as int),
        decreases end - start,
    {
        end = end - 1;
    }
    proof {
        lemma_trimmed_end(s, start as int, n as int);
        lemma_boundary_at(s, 24);
        lemma_boundary_after_char(s, 24);
        lemma_boundary_at(s, end as int);
    }
    let ghost segs = pieces(s, start as int, end as int);
    let j0 = find_slash(b, start, end);
    proof {
        lemma_next_slash(s, start as int, end as int);
    }
    if j0 >= end {
        return Err(OryxError::InvalidUrl);
    }
    let s1 = j0 + 1;
    let j1 = find_slash(b, s1, end);
    let ghost rest1 = pieces(s, s1 as int, end as int);
    proof {
        lemma_next_slash(s, s1 as int, end as int);
        assert(segs == seq![s.subrange(start as int, j0 as int)] + rest1);
        assert(segs[0] == s.subrange(start as int, j0 as int));
    }
    if j1 >= end {
        assert(rest1 == seq![s.subrange(s1 as int, end as int)]);
        assert(segs.len() == 2);
        return Err(OryxError::InvalidUrl);
    }
    let ghost rest2 = pieces(s, j1 + 1, end as int);
    assert(rest1 == seq![s.subrange(s1 as int, j1 as int)] + rest2);
    assert(segs[1] == s.subrange(s1 as int, j1 as int));
    if !range_equals(b, s1, j1, &[0x6C, 0x61, 0x79, 0x6F, 0x75, 0x74, 0x73]) {
        return Err(OryxError::InvalidUrl);
    }
    let s2 = j1 + 1;
    let j2 = find_slash(b, s2, end);
    proof {
        lemma_next_slash(s, s2 as int, end as int);
        lemma_boundary_at(s, j0 as int);
        lemma_boundary_after_char(s, j0 as int);
        lemma_boundary_at(s, j1 as int);
        lemma_boundary_after_char(s, j1 as int);
        lemma_boundary_at(s, j2 as int);
    }
    let geometry = str_slice(url, start, j0);
    let layout_id = str_slice(url, s2, j2);
    let ghost rest3 = pieces(s, j2 + 1, end as int);
    if j2 >= end {
        assert(rest2 == seq![s.subrange(s2 as int, end as int)]);
        assert(segs.len() == 3);
        assert(segs[2] == s.subrange(s2 as int, j2 as int));
        return Ok((geometry, layout_id, None));
    }
    assert(rest2 == seq![s.subrange(s2 as int, j2 as int)] + rest3);
    assert(segs[2] == s.subrange(s2 as int, j2 as int));
    let s3 = j2 + 1;
    let j3 = find_slash(b, s3, end);
    proof {
        lemma_next_slash(s, s3 as int, end as int);
        lemma_boundary_after_char(s, j2 as int);
        lemma_boundary_at(s, j3 as int);
    }
    let ghost rest4 = pieces(s, j3 + 1, end as int);
    if j3 >= end {
        assert(rest3 == seq![s.subrange(s3 as int, j3 as int)]);
    } else {
        assert(rest3 == seq![s.subrange(s3 as int, j3 as int)] + rest4);
    }
    assert(segs.len() > 3);
    assert(segs[3] == s.subrange(s3 as int, j3 as int));
    if range_equals(b, s3, j3, &[0x6C, 0x61, 0x74, 0x65, 0x73, 0x74]) {
        return Ok((geometry, layout_id, None));
    }
    Ok((geometry, layout_id, Some(str_slice(url, s3, j3))))
}


/// Which build of a revision's firmware to fetch.
#[derive(Debug, Clone, Copy, PartialEq, Eq, Structural)]
pub enum FirmwareVariant {
    /// The build for the layout's own model.
    Standard,
    /// The build for the board's alternate MCU (e.g. Moonlander rev B).
    Alternate,
    /// Both halves collated into a single image (Moonlander).
    Collated,
}

impl FirmwareVariant {
    /// The query string that selects the build.
    pub open spec fn query_of(self) -> Seq<char> {
        match self {
            FirmwareVariant::Standard => ""@,
            FirmwareVariant::Alternate => "?alt=true"@,
            FirmwareVariant::Collated => "?collate=true"@,
        }
    }

    /// The query string that selects the build.
    pub fn query(self) -> (res: &'static str)
        ensures
            res@ == self.query_of(),
    {
        match self {
            FirmwareVariant::Standard => "",
            FirmwareVariant::Alternate => "?alt=true",
            FirmwareVariant::Collated => "?collate=true",
        }
    }
}

/// The address of a revision's firmware build.
pub open spec fn firmware_url_of(revision_id: Seq<char>, variant: FirmwareVariant) -> Seq<char> {
    ORYX_API_URL@ + "/firmware/"@ + revision_id + variant.query_of()
}

/// The address from which the firmware of a revision is downloaded.
pub fn firmware_url(revision_id: &str, variant: FirmwareVariant) -> (res: String)
    ensures
        res@ == firmware_url_of(revision_id@, variant),
{
    let mut url = String::from_str(ORYX_API_URL);
    url.append("/firmware/");
    url.append(revision_id);
    url.append(variant.query());
    url
}

/// The address that answers with the latest revision of a layout. Every geometry
/// has a stock layout, and they all share the id "default", so for it the
/// geometry is what disambiguates them.
pub open spec fn latest_revision_url_of(geometry: Seq<char>, layout_id: Seq<char>) -> Seq<char> {
    if layout_id == "default"@ {
        ORYX_API_URL@ + "/firmware/latest/"@ + geometry + "/default"@
    } else {
        ORYX_API_URL@ + "/firmware/latest/"@ + layout_id
    }
}

/// The address that answers with the latest revision of a layout.
pub fn latest_revision_url(geometry: &str, layout_id: &str) -> (res: String)
    ensures
        res@ == latest_revision_url_of(geometry@, layout_id@),
{
    let mut url = String::from_str(ORYX_API_URL);
    url.append("/firmware/latest/");
    if str_eq(layout_id, "default") {
        url.append(geometry);
        url.append("/default");
    } else {
        url.append(layout_id);
    }
    url
}

/// Where the revision of a layout comes from.
#[derive(Debug)]
pub enum RevisionSource {
    /// The revision was named.
    Known(String),
    /// The latest revision must be fetched from this address.
    Latest(String),
}

/// Resolves a layout to a specific revision: a named revision is used as it is,
/// otherwise the latest one is fetched from Oryx.
pub fn revision_source(geometry: &str, layout_id: &str, revision_id: Option<&str>) -> (res: RevisionSource)
    ensures
        revision_id matches Some(rev) ==> (res matches RevisionSource::Known(r) && r@ == rev@),
        revision_id is None ==> (res matches RevisionSource::Latest(url) && url@ == latest_revision_url_of(
            geometry@,
            layout_id@,
        )),
{
    match revision_id {
        Some(rev) => RevisionSource::Known(String::from_str(rev)),
        None => RevisionSource::Latest(latest_revision_url(geometry, layout_id)),
    }
}

/// The GraphQL query for the note (title) of a layout revision.
pub const REVISION_NOTE_QUERY: &'static str = "\
    query ($hashId: String!, $revisionId: String!, $geometry: String) {\
      layout(hashId: $hashId, revisionId: $revisionId, geometry: $geometry) {\
        revision { title }\
      }\
    }";

/// How a character is written inside a JSON string: quotes, backslashes and the controls
/// backspace, form feed, line feed, carriage return and tab take their two-character
/// escapes, the other characters below U+0020 are written `\u00xx` in lower-case
/// hexadecimal, and every other character stands for itself.
pub open spec fn json_escape_char(c: char) -> Seq<char> {
    let u = c as u32;
    if c == '"' {
        seq!['\\', '"']
    } else if c == '\\' {
        seq!['\\', '\\']
    } else if u == 0x08 {
        seq!['\\', 'b']
    } else if u == 0x0C {
        seq!['\\', 'f']
    } else if u == 0x0A {
        seq!['\\', 'n']
    } else if u == 0x0D {
        seq!['\\', 'r']
    } else if u == 0x09 {
        seq!['\\', 't']
    } else if u < 0x20 {
        seq!['\\', 'u', '0', '0', digit_char((u / 16) as nat), digit_char((u % 16) as nat)]
    } else {
        seq![c]
    }
}

/// The escaped characters of a JSON string.
pub open spec fn json_escape(s: Seq<char>) -> Seq<char>
    decreases s.len(),
{
    if s.len() == 0 {
        seq![]
    } else {
        json_escape(s.drop_last()) + json_escape_char(s.last())
    }
}

/// The JSON string literal of a text: its escaped characters between quotes.
pub open spec fn json_string_literal(s: Seq<char>) -> Seq<char> {
    seq!['"'] + json_escape(s) + seq!['"']
}

/// The JSON string literal for `s`, as `serde_json::to_string` writes it
/// (`format_escaped_str` with the compact formatter). serde_json documents that
/// serialising fails only for `Serialize` impls that fail or maps with non-string
/// keys, so the error arm is not taken for a `&str`.
#[verifier::external_body]
fn json_string(s: &str) -> (res: String)
    ensures
        res@ == json_string_literal(s@),
{
    match serde_json::to_string(s) {
        Ok(json) => json,
        Err(_) => String::new(),
    }
}

/// The address of Oryx's GraphQL endpoint.
pub fn graphql_url() -> (res: String)
    ensures
        res@ == ORYX_API_URL@ + "/graphql"@,
{
    let mut url = String::from_str(ORYX_API_URL);
    url.append("/graphql");
    url
}

/// The body of the GraphQL request for a revision's note: a compact JSON object
/// with the query and its variables, keys in sorted order.
pub open spec fn revision_note_body(layout_id: Seq<char>, revision_id: Seq<char>, geometry: Seq<char>) -> Seq<char> {
    "{\"query\":"@ + json_string_literal(REVISION_NOTE_QUERY@) + ",\"variables\":{\"geometry\":"@
        + json_string_literal(geometry) + ",\"hashId\":"@ + json_string_literal(layout_id)
        + ",\"revisionId\":"@ + json_string_literal(revision_id) + "}}"@
}

/// The body of the GraphQL request for the note of a layout revision.
pub fn revision_note_request(layout_id: &str, revision_id: &str, geometry: &str) -> (res: String)
    ensures
        res@ == revision_note_body(layout_id@, revision_id@, geometry@),
{
    let mut body = String::from_str("{\"query\":");
    body.append(json_string(REVISION_NOTE_QUERY).as_str());
    body.append(",\"variables\":{\"geometry\":");
    body.append(json_string(geometry).as_str());
    body.append(",\"hashId\":");
    body.append(json_string(layout_id).as_str());
    body.append(",\"revisionId\":");
    body.append(json_string(revision_id).as_str());
    body.append("}}");
    body
}

/// The note of a revision given its title: the title without surrounding white
/// space, or `None` when there is no title or nothing is left of it.
pub fn revision_note(title: Option<&str>) -> (res: Option<String>)
    ensures
        match title {
            None => res is None,
            Some(t) => if trim_bytes(t.spec_bytes()).len() == 0 {
                res is None
            } else {
                res matches Some(note) && encode_utf8(note@) == trim_bytes(t.spec_bytes())
            },
        },
{
    match title {
        None => None,
        Some(t) => {
            let trimmed = trim_str(t);
            let n = trimmed.as_bytes().len();
            assert(n == trim_bytes(t.spec_bytes()).len());
            if n == 0 {
                None
            } else {
                let note = String::from_str(trimmed);
                assert(encode_utf8(note@) == trimmed.spec_bytes());
                Some(note)
            }
        },
    }
}

/// The layout and revision IDs in the USB serial number of a keyboard running
/// Oryx firmware ("layoutId/revisionId", split at the first `/`), when both are
/// non-empty.
pub open spec fn serial_parts(serial: Seq<u8>) -> Option<(Seq<u8>, Seq<u8>)> {
    let j = next_slash(serial, 0, serial.len() as int);
    if j >= serial.len() || j == 0 || j + 1 == serial.len() {
        None
    } else {
        Some((serial.subrange(0, j), serial.subrange(j + 1, serial.len() as int)))
    }
}

/// The layout and revision IDs in the USB serial number of a keyboard.
pub fn layout_of_serial(serial: &str) -> (res: Option<(&str, &str)>)
    ensures
        match serial_parts(serial.spec_bytes()) {
            None => res is None,
            Some((l, r)) => res matches Some((layout_id, revision_id)) && layout_id.spec_bytes() == l
                && revision_id.spec_bytes() == r,
        },
{
    let b = serial.as_bytes();
    let n = b.len();
    let j = find_slash(b, 0, n);
    proof {
        lemma_next_slash(b@, 0, n as int);
        encode_utf8_valid_utf8(serial@);
    }
    if j >= n || j == 0 || j + 1 == n {
        return None;
    }
    proof {
        lemma_boundary_at(b@, 0);
        lemma_boundary_at(b@, j as int);
        lemma_boundary_after_char(b@, j as int);
        lemma_boundary_at(b@, n as int);
    }
    Some((str_slice(serial, 0, j), str_slice(serial, j + 1, n)))
}

/// The build to fetch when flashing from a URL: the Moonlander's two halves ship
/// as one collated image.
pub fn flash_url_variant(geometry: &str) -> (res: FirmwareVariant)
    ensures
        res == (if geometry@ == "moonlander"@ { FirmwareVariant::Collated } else { FirmwareVariant::Standard }),
{
    if str_eq(geometry, "moonlander") {
        FirmwareVariant::Collated
    } else {
        FirmwareVariant::Standard
    }
}

/// Whether the keyboard's revision is already the latest one, so that there is
/// nothing to update.
pub fn is_up_to_date(current_revision: &str, latest_revision: &str) -> (res: bool)
    ensures
        res == (current_revision@ == latest_revision@),
{
    str_eq(current_revision, latest_revision)
}

/// The build to fetch when updating a connected keyboard: a Moonlander rev B takes
/// the alternate build.
pub fn update_variant(pid: u16) -> (res: FirmwareVariant)
    ensures
        res == (if pid == MOONLANDER_REVB_PID { FirmwareVariant::Alternate } else { FirmwareVariant::Standard }),
{
    if pid == MOONLANDER_REVB_PID {
        FirmwareVariant::Alternate
    } else {
        FirmwareVariant::Standard
    }
}

} // verus!
