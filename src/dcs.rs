//! DCS ("Data Collection System") files: a 64-byte ASCII header, blocks of platform
//! messages, and a trailing CRC-32 of the whole file.
use vstd::prelude::*;
use crate::bytes::{
    copy_range, le16, le24, le32, read_u16_le, read_u24_le, read_u32_le, text_of, trim,
    trimmed_bytes, trimmed_text,
};
use crate::crc::{calc_crc16, calc_crc32, crc16_of, crc32_of};
use crate::handlers::HandlerError;

verus! {

/// Size of the DCS file header.
pub const DCS_HEADER_LEN: usize = 64;

/// Size of a message block's fixed part: id, length, 36-byte header and CRC.
pub const DCS_BLOCK_OVERHEAD: usize = 41;

/// Block id of a message block.
pub const DCS_MESSAGE_BLOCK: u8 = 1;

/// ASCII decimal digits.
pub open spec fn all_digits(s: Seq<u8>) -> bool {
    forall|i: int| 0 <= i < s.len() ==> 48 <= #[trigger] s[i] <= 57
}

/// The value of a string of decimal digits.
pub open spec fn digits_value(s: Seq<u8>) -> int
    decreases s.len(),
{
    if s.len() == 0 {
        0
    } else {
        digits_value(s.drop_last()) * 10 + (s.last() - 48)
    }
}

/// What `u64::from_str` reads from ASCII text: an optional `+`, then one or more digits
/// whose value fits in 64 bits.
pub open spec fn spec_decimal(s: Seq<u8>) -> Option<u64> {
    let t = if s.len() > 0 && s[0] == 43 {
        s.drop_first()
    } else {
        s
    };
    if t.len() > 0 && all_digits(t) && digits_value(t) <= u64::MAX {
        Some(digits_value(t) as u64)
    } else {
        None
    }
}

proof fn lemma_digits_nonneg(t: Seq<u8>)
    requires
        all_digits(t),
    ensures
        digits_value(t) >= 0,
    decreases t.len(),
{
    if t.len() > 0 {
        assert(all_digits(t.drop_last()));
        lemma_digits_nonneg(t.drop_last());
    }
}

proof fn lemma_digits_grow(t: Seq<u8>, i: int)
    requires
        all_digits(t),
        0 <= i <= t.len(),
    ensures
        digits_value(t.take(i)) <= digits_value(t),
    decreases t.len(),
{
    if i < t.len() {
        let u = t.drop_last();
        assert(u.take(i) =~= t.take(i));
        assert(all_digits(u));
        lemma_digits_grow(u, i);
        lemma_digits_nonneg(u);
    } else {
        assert(t.take(i) =~= t);
    }
}

/// Reads an unsigned decimal number.
pub fn parse_decimal(s: &[u8]) -> (r: Option<u64>)
    ensures
        r == spec_decimal(s@),
{
    let start: usize = if s.len() > 0 && s[0] == 43 {
        1
    } else {
        0
    };
    let ghost t = s@.subrange(start as int, s@.len() as int);
    assert(t =~= (if s@.len() > 0 && s@[0] == 43 {
        s@.drop_first()
    } else {
        s@
    }));
    if start >= s.len() {
        return None;
    }
    let mut acc: u64 = 0;
    let mut i = start;
    while i < s.len()
        invariant
            start <= i <= s@.len(),
            t == s@.subrange(start as int, s@.len() as int),
            t == (if s@.len() > 0 && s@[0] == 43 {
                s@.drop_first()
            } else {
                s@
            }),
            all_digits(t.take(i - start)),
            acc as int == digits_value(t.take(i - start)),
        decreases s@.len() - i,
    {
        let c = s[i];
        if c < 48 || c > 57 {
            assert(!all_digits(t)) by {
                assert(t[i - start] == c);
            }
            return None;
        }
        let ghost k = i - start;
        assert(t.take(k + 1).drop_last() =~= t.take(k));
        assert(t.take(k + 1).last() == c);
        assert(digits_value(t.take(k + 1)) == acc as int * 10 + (c - 48));
        assert(all_digits(t.take(k + 1))) by {
            assert forall|j: int| 0 <= j < k + 1 implies 48 <= #[trigger] t.take(k + 1)[j] <= 57 by {
                if j < k {
                    assert(t.take(k + 1)[j] == t.take(k)[j]);
                }
            }
        }
        proof {
            if all_digits(t) {
                lemma_digits_grow(t, k + 1);
            }
        }
        match acc.checked_mul(10) {
            Some(m) => match m.checked_add((c - 48) as u64) {
                Some(v) => {
                    acc = v;
                },
                None => {
                    return None;
                },
            },
            None => {
                return None;
            },
        }
        i = i + 1;
    }
    assert(t.take(i - start) =~= t);
    Some(acc)
}

/// The header of a DCS file (64 bytes).
#[derive(Debug)]
pub struct DcsHeader {
    pub name: String,
    /// Size of the whole file, header included.
    pub payload_len: u64,
    pub payload_source: String,
    pub payload_type: String,
    /// The CRC-32 of the first 60 header bytes, as received.
    pub header_crc: u32,
    /// The CRC-32 of everything but the last 4 bytes of the file, as received.
    pub file_crc: u32,
    /// `header_crc` matches the header bytes.
    pub header_crc_ok: bool,
    /// `file_crc` matches the file bytes.
    pub file_crc_ok: bool,
}

impl DcsHeader {
    /// Reads the header of the DCS file `data`: a 32-byte name, an 8-byte ASCII decimal
    /// length, a 4-byte source, a 4-byte type, 12 reserved bytes and a little-endian
    /// CRC-32; the file's own CRC-32 is in its last 4 bytes. Text fields are trimmed.
    pub fn parse(data: &[u8]) -> (r: Result<Self, HandlerError>)
        ensures
            data@.len() < DCS_HEADER_LEN ==> r matches Err(HandlerError::Parse(_)),
            data@.len() >= DCS_HEADER_LEN ==> match spec_decimal(trim(data@.subrange(32, 40))) {
                None => r matches Err(HandlerError::Parse(_)),
                Some(n) => r matches Ok(h) && {
                    &&& h.name@ == text_of(trim(data@.subrange(0, 32)))
                    &&& h.payload_len == n
                    &&& h.payload_source@ == text_of(trim(data@.subrange(40, 44)))
                    &&& h.payload_type@ == text_of(trim(data@.subrange(44, 48)))
                    &&& h.header_crc == le32(data@, 60)
                    &&& h.file_crc == le32(data@, data@.len() - 4)
                    &&& h.header_crc_ok == (crc32_of(data@.subrange(0, 60)) == h.header_crc)
                    &&& h.file_crc_ok == (crc32_of(data@.subrange(0, data@.len() - 4))
                        == h.file_crc)
                },
            },
    {
        if data.len() < DCS_HEADER_LEN {
            return Err(HandlerError::Parse("DCS file shorter than its header"));
        }
        let payload_len = match parse_decimal(trimmed_bytes(data, 32, 40)) {
            Some(n) => n,
            None => return Err(HandlerError::Parse("Failed to parse payload len in DCS header")),
        };
        let header_crc = read_u32_le(data, 60);
        let file_crc = read_u32_le(data, data.len() - 4);
        let header_crc_ok = calc_crc32(&data[0..60]) == header_crc;
        let file_crc_ok = calc_crc32(&data[0..data.len() - 4]) == file_crc;
        Ok(
            DcsHeader {
                name: trimmed_text(data, 0, 32),
                payload_len,
                payload_source: trimmed_text(data, 40, 44),
                payload_type: trimmed_text(data, 44, 48),
                header_crc,
                file_crc,
                header_crc_ok,
                file_crc_ok,
            },
        )
    }

    /// The payload type is "DCSH", the type of DCS message files.
    pub fn is_dcsh(&self) -> (r: bool)
        ensures
            r == (self.payload_type@ == seq!['D', 'C', 'S', 'H']),
    {
        let dcsh = "DCSH".to_owned();
        proof {
            reveal_strlit("DCSH");
            assert(dcsh@ =~= seq!['D', 'C', 'S', 'H']);
        }
        self.payload_type == dcsh
    }
}

/// The kind of platform that sent a message.
#[derive(Clone, Copy, Debug, PartialEq, Eq)]
pub enum DcsPlatform {
    CS1,
    CS2,
}

/// The spacecraft that relayed a message.
#[derive(Clone, Copy, Debug, PartialEq, Eq)]
pub enum DcsSpacescraft {
    Unknown,
    GoesEast,
    GoesWest,
    GoesCentral,
    GoesTest,
    Reserved,
}

/// The ground station that received a message.
#[derive(Clone, Copy, Debug, PartialEq, Eq)]
pub enum DcsSource {
    /// NOAA WCDA E/W Prime, Wallops Island, VA
    UP,
    /// NOAA WCDA E/W Backup, Wallops Island, VA
    UB,
    /// NOAA NSOF E/W Prime, Suitland, MD
    NP,
    /// NOAA NSOF E/W Backup, Suitland, MD
    NB,
    /// USGS EDDN East, EROS, Sioux Falls, SD
    XE,
    /// USGS EDDN West, EROS, Sioux Falls, SD
    XW,
    /// USACE MVR East, Rock Island, IL
    RE,
    /// USACE MVR West, Rock Island, IL
    RW,
    /// NIFC West Unit 1, Boise, ID
    D1,
    /// NIFC West Unit 2, Boise, ID
    D2,
    /// USACE LRD East, Cincinnati, OH
    LE,
    /// SFWMD East, West Palm Beach, FL
    SF,
    /// USACE NOW, Omaha, NE
    OW,
    /// Any other two-letter code.
    Unknown(u8, u8),
}

/// A UTC time stamp of a DCS message, as its BCD digits give it.
#[derive(Clone, Copy, Debug, PartialEq, Eq)]
pub struct DcsTime {
    pub year: u16,
    pub day_of_year: u16,
    pub hour: u8,
    pub minute: u8,
    pub second: u8,
    pub millis: u16,
}

/// The fixed part of a message block.
#[derive(Clone, Copy, Debug, PartialEq, Eq)]
pub struct DcsBlockHeader {
    pub block_id: u8,
    pub block_len: u16,
    pub sequence: u32,
    pub baud_rate: u16,
    pub platform: DcsPlatform,
    /// Received with parity errors.
    pub parity_errors: bool,
    /// Received without an EOT.
    pub missing_eot: bool,
    pub addr_corrected: bool,
    /// An address that could not be corrected.
    pub bad_addr: bool,
    pub invalid_addr: bool,
    pub incomplete_pdt: bool,
    /// Received outside its time window.
    pub timing_error: bool,
    pub unexpected_message: bool,
    pub wrong_channel: bool,
    /// The platform address after BCH correction.
    pub corrected_addr: u32,
    /// When signal energy was first detected.
    pub carrier_start: DcsTime,
    /// When signal energy was no longer detected.
    pub carrier_end: DcsTime,
    /// Signal strength in tenths of dBm EIRP.
    pub signal_strength_tenths: u16,
    /// Offset from the channel centre in tenths of Hz.
    pub freq_offset_tenths: i16,
    /// Phase noise in hundredths of a degree RMS.
    pub phase_noise_hundredths: u16,
    /// Phase modulation quality in half percent.
    pub good_phase_halves: u8,
    pub space_platform: DcsSpacescraft,
    pub channel_number: u16,
    pub source_platform: DcsSource,
}

/// One platform message of a DCS file.
#[derive(Debug)]
pub struct DcsBlock {
    pub header: DcsBlockHeader,
    pub data: Vec<u8>,
}

impl View for DcsBlock {
    type V = (DcsBlockHeader, Seq<u8>);

    open spec fn view(&self) -> (DcsBlockHeader, Seq<u8>) {
        (self.header, self.data@)
    }
}

/// The two BCD digits of a byte, high digit first.
pub open spec fn bcd(b: u8) -> int {
    10 * (b as int / 16) + b as int % 16
}

/// The time in the seven BCD bytes at `i`, least significant first.
pub open spec fn spec_dcs_time(d: Seq<u8>, i: int) -> DcsTime {
    DcsTime {
        year: (2000 + bcd(d[i + 6])) as u16,
        day_of_year: (100 * (d[i + 5] as int / 16) + 10 * (d[i + 5] as int % 16) + d[i + 4] as int
            / 16) as u16,
        hour: (10 * (d[i + 4] as int % 16) + d[i + 3] as int / 16) as u8,
        minute: (10 * (d[i + 3] as int % 16) + d[i + 2] as int / 16) as u8,
        second: (10 * (d[i + 2] as int % 16) + d[i + 1] as int / 16) as u8,
        millis: (100 * (d[i + 1] as int % 16) + 10 * (d[i] as int % 16) + d[i] as int / 16) as u16,
    }
}

fn read_dcs_time(d: &[u8], i: usize) -> (r: DcsTime)
    requires
        i + 7 <= d@.len(),
    ensures
        r == spec_dcs_time(d@, i as int),
{
    let _n = d.len();
    let b0 = d[i] as u16;
    let b1 = d[i + 1] as u16;
    let b2 = d[i + 2] as u16;
    let b3 = d[i + 3] as u16;
    let b4 = d[i + 4] as u16;
    let b5 = d[i + 5] as u16;
    let b6 = d[i + 6] as u16;
    DcsTime {
        year: 2000 + 10 * (b6 / 16) + b6 % 16,
        day_of_year: 100 * (b5 / 16) + 10 * (b5 % 16) + b4 / 16,
        hour: (10 * (b4 % 16) + b3 / 16) as u8,
        minute: (10 * (b3 % 16) + b2 / 16) as u8,
        second: (10 * (b2 % 16) + b1 / 16) as u8,
        millis: 100 * (b1 % 16) + 10 * (b0 % 16) + b0 / 16,
    }
}

/// The ground station of a two-letter code.
pub open spec fn spec_source(a: u8, b: u8) -> DcsSource {
    if a == 85 && b == 80 {
        DcsSource::UP
    } else if a == 85 && b == 66 {
        DcsSource::UB
    } else if a == 78 && b == 80 {
        DcsSource::NP
    } else if a == 78 && b == 66 {
        DcsSource::NB
    } else if a == 88 && b == 69 {
        DcsSource::XE
    } else if a == 88 && b == 87 {
        DcsSource::XW
    } else if a == 82 && b == 69 {
        DcsSource::RE
    } else if a == 82 && b == 87 {
        DcsSource::RW
    } else if a == 100 && b == 49 {
        DcsSource::D1
    } else if a == 100 && b == 50 {
        DcsSource::D2
    } else if a == 76 && b == 69 {
        DcsSource::LE
    } else if a == 83 && b == 70 {
        DcsSource::SF
    } else if a == 79 && b == 87 {
        DcsSource::OW
    } else {
        DcsSource::Unknown(a, b)
    }
}

fn source_of(a: u8, b: u8) -> (r: DcsSource)
    ensures
        r == spec_source(a, b),
{
    if a == 85 && b == 80 {
        DcsSource::UP
    } else if a == 85 && b == 66 {
        DcsSource::UB
    } else if a == 78 && b == 80 {
        DcsSource::NP
    } else if a == 78 && b == 66 {
        DcsSource::NB
    } else if a == 88 && b == 69 {
        DcsSource::XE
    } else if a == 88 && b == 87 {
        DcsSource::XW
    } else if a == 82 && b == 69 {
        DcsSource::RE
    } else if a == 82 && b == 87 {
        DcsSource::RW
    } else if a == 100 && b == 49 {
        DcsSource::D1
    } else if a == 100 && b == 50 {
        DcsSource::D2
    } else if a == 76 && b == 69 {
        DcsSource::LE
    } else if a == 83 && b == 70 {
        DcsSource::SF
    } else if a == 79 && b == 87 {
        DcsSource::OW
    } else {
        DcsSource::Unknown(a, b)
    }
}

/// The spacecraft of the top four bits of the channel field.
pub open spec fn spec_spacecraft(x: int) -> DcsSpacescraft {
    if x == 0 {
        DcsSpacescraft::Unknown
    } else if x == 1 {
        DcsSpacescraft::GoesEast
    } else if x == 2 {
        DcsSpacescraft::GoesWest
    } else if x == 3 {
        DcsSpacescraft::GoesCentral
    } else if x == 4 {
        DcsSpacescraft::GoesTest
    } else {
        DcsSpacescraft::Reserved
    }
}

/// The baud rate of the low three bits of the message flags, if they name one.
pub open spec fn spec_baud(f: u8) -> Option<u16> {
    if f % 8 == 1 {
        Some(100)
    } else if f % 8 == 2 {
        Some(300)
    } else if f % 8 == 3 {
        Some(1200)
    } else {
        None
    }
}

/// A 14-bit two's-complement value.
pub open spec fn signed14(v: int) -> int {
    if v % 16384 > 0x1fff {
        v % 16384 - 16384
    } else {
        v % 16384
    }
}

/// The fixed part of the message block at `p`, unless its baud rate is unknown.
pub open spec fn spec_block_header(d: Seq<u8>, p: int) -> Option<DcsBlockHeader> {
    let f = d[p + 6];
    let a = d[p + 7];
    match spec_baud(f) {
        None => None,
        Some(baud) => Some(
            DcsBlockHeader {
                block_id: d[p],
                block_len: le16(d, p + 1) as u16,
                sequence: le24(d, p + 3) as u32,
                baud_rate: baud,
                platform: if (f as int / 8) % 2 == 0 {
                    DcsPlatform::CS1
                } else {
                    DcsPlatform::CS2
                },
                parity_errors: (f as int / 16) % 2 == 1,
                missing_eot: (f as int / 32) % 2 == 1,
                addr_corrected: a as int % 2 == 1,
                bad_addr: (a as int / 2) % 2 == 1,
                invalid_addr: (a as int / 4) % 2 == 1,
                incomplete_pdt: (a as int / 8) % 2 == 1,
                timing_error: (a as int / 16) % 2 == 1,
                unexpected_message: (a as int / 32) % 2 == 1,
                wrong_channel: (a as int / 64) % 2 == 1,
                corrected_addr: le32(d, p + 8) as u32,
                carrier_start: spec_dcs_time(d, p + 12),
                carrier_end: spec_dcs_time(d, p + 19),
                signal_strength_tenths: (le16(d, p + 26) % 1024) as u16,
                freq_offset_tenths: signed14(le16(d, p + 28)) as i16,
                phase_noise_hundredths: (le16(d, p + 30) % 4096) as u16,
                good_phase_halves: d[p + 32],
                space_platform: spec_spacecraft(le16(d, p + 33) / 4096),
                channel_number: (le16(d, p + 33) % 1024) as u16,
                source_platform: spec_source(d[p + 35], d[p + 36]),
            },
        ),
    }
}

/// The message block of length `len` at `p`: `None` when it is not a message block, its
/// baud rate is unknown, or its CRC-16 (little-endian, over all bytes before it) fails.
pub open spec fn spec_block(d: Seq<u8>, p: int, len: int) -> Option<(DcsBlockHeader, Seq<u8>)> {
    if d[p] != DCS_MESSAGE_BLOCK || crc16_of(d.subrange(p, p + len - 2)) as int != le16(
        d,
        p + len - 2,
    ) {
        None
    } else {
        match spec_block_header(d, p) {
            None => None,
            Some(h) => Some((h, d.subrange(p + 39, p + len - 2))),
        }
    }
}

/// The message blocks from `p` up to `end`, laid end to end; `None` when a block runs
/// past `end` or is too short for its own fixed part.
pub open spec fn spec_blocks(d: Seq<u8>, p: int, end: int) -> Option<Seq<(DcsBlockHeader, Seq<u8>)>>
    decreases end - p,
{
    if p < 0 || end > d.len() {
        None
    } else if p >= end {
        Some(Seq::empty())
    } else if p + 3 > end {
        None
    } else {
        let len = le16(d, p + 1);
        if len < 3 || p + len > end || (d[p] == DCS_MESSAGE_BLOCK && len < DCS_BLOCK_OVERHEAD) {
            None
        } else {
            match spec_blocks(d, p + len, end) {
                None => None,
                Some(rest) => match spec_block(d, p, len) {
                    Some(b) => Some(seq![b] + rest),
                    None => Some(rest),
                },
            }
        }
    }
}

/// The views of a list of blocks.
pub open spec fn block_views(v: Seq<DcsBlock>) -> Seq<(DcsBlockHeader, Seq<u8>)> {
    Seq::new(v.len(), |i: int| v[i]@)
}

/// The blocks found so far, then those that a walk from `rest` finds.
pub open spec fn join_blocks(
    found: Seq<(DcsBlockHeader, Seq<u8>)>,
    rest: Option<Seq<(DcsBlockHeader, Seq<u8>)>>,
) -> Option<Seq<(DcsBlockHeader, Seq<u8>)>> {
    match rest {
        None => None,
        Some(r) => Some(found + r),
    }
}

fn read_block_header(d: &[u8], p: usize) -> (r: Option<DcsBlockHeader>)
    requires
        p + DCS_BLOCK_OVERHEAD <= d@.len(),
    ensures
        r == spec_block_header(d@, p as int),
{
    let f = d[p + 6];
    let a = d[p + 7];
    let baud: u16 = if f % 8 == 1 {
        100
    } else if f % 8 == 2 {
        300
    } else if f % 8 == 3 {
        1200
    } else {
        return None;
    };
    let raw_offset = read_u16_le(d, p + 28) % 16384;
    let freq_offset_tenths: i16 = if raw_offset > 0x1fff {
        (raw_offset as i32 - 16384) as i16
    } else {
        raw_offset as i16
    };
    let chan = read_u16_le(d, p + 33);
    let sc = chan / 4096;
    let space_platform = if sc == 0 {
        DcsSpacescraft::Unknown
    } else if sc == 1 {
        DcsSpacescraft::GoesEast
    } else if sc == 2 {
        DcsSpacescraft::GoesWest
    } else if sc == 3 {
        DcsSpacescraft::GoesCentral
    } else if sc == 4 {
        DcsSpacescraft::GoesTest
    } else {
        DcsSpacescraft::Reserved
    };
    Some(
        DcsBlockHeader {
            block_id: d[p],
            block_len: read_u16_le(d, p + 1),
            sequence: read_u24_le(d, p + 3),
            baud_rate: baud,
            platform: if (f / 8) % 2 == 0 {
                DcsPlatform::CS1
            } else {
                DcsPlatform::CS2
            },
            parity_errors: (f / 16) % 2 == 1,
            missing_eot: (f / 32) % 2 == 1,
            addr_corrected: a % 2 == 1,
            bad_addr: (a / 2) % 2 == 1,
            invalid_addr: (a / 4) % 2 == 1,
            incomplete_pdt: (a / 8) % 2 == 1,
            timing_error: (a / 16) % 2 == 1,
            unexpected_message: (a / 32) % 2 == 1,
            wrong_channel: (a / 64) % 2 == 1,
            corrected_addr: read_u32_le(d, p + 8),
            carrier_start: read_dcs_time(d, p + 12),
            carrier_end: read_dcs_time(d, p + 19),
            signal_strength_tenths: read_u16_le(d, p + 26) % 1024,
            freq_offset_tenths,
            phase_noise_hundredths: read_u16_le(d, p + 30) % 4096,
            good_phase_halves: d[p + 32],
            space_platform,
            channel_number: chan % 1024,
            source_platform: source_of(d[p + 35], d[p + 36]),
        },
    )
}

impl DcsBlock {
    /// Reads the message blocks of a DCS file body (the file after its 64-byte header,
    /// with the 4-byte file CRC at its end). Blocks of other ids, blocks with an unknown
    /// baud rate and blocks whose CRC fails are skipped.
    pub fn parse(data: &[u8]) -> (r: Result<Vec<Self>, HandlerError>)
        ensures
            data@.len() < 4 ==> r is Err,
            data@.len() >= 4 ==> match spec_blocks(data@, 0, data@.len() - 4) {
                None => r is Err,
                Some(bs) => r is Ok && block_views(r.unwrap()@) == bs,
            },
    {
        if data.len() < 4 {
            return Err(HandlerError::Parse("DCS file without its CRC"));
        }
        let end = data.len() - 4;
        let mut blocks: Vec<DcsBlock> = Vec::new();
        let mut pos: usize = 0;
        proof {
            assert(block_views(blocks@) =~= Seq::<(DcsBlockHeader, Seq<u8>)>::empty());
            assert(join_blocks(block_views(blocks@), spec_blocks(data@, 0, end as int)) =~= spec_blocks(data@, 0, end as int)) by {
                match spec_blocks(data@, 0, end as int) {
                    Some(s) => {
                        assert(block_views(blocks@) + s =~= s);
                    },
                    None => {},
                }
            }
        }
        while pos < end
            invariant
                end + 4 == data@.len(),
                pos <= end || spec_blocks(data@, pos as int, end as int) == Some(Seq::<(DcsBlockHeader, Seq<u8>)>::empty()),
                join_blocks(block_views(blocks@), spec_blocks(data@, pos as int, end as int))
                    == spec_blocks(data@, 0, end as int),
            decreases end - pos,
        {
            if end - pos < 3 {
                return Err(HandlerError::Parse("DCS block runs past the end of the file"));
            }
            let len = read_u16_le(data, pos + 1) as usize;
            if len < 3 || len > end - pos {
                return Err(HandlerError::Parse("DCS block runs past the end of the file"));
            }
            let id = data[pos];
            if id == DCS_MESSAGE_BLOCK && len < DCS_BLOCK_OVERHEAD {
                return Err(HandlerError::Parse("DCS message block shorter than its header"));
            }
            let ghost rest = spec_blocks(data@, pos + len, end as int);
            let ghost before = block_views(blocks@);
            if id == DCS_MESSAGE_BLOCK {
                let received = read_u16_le(data, pos + len - 2);
                let computed = calc_crc16(&data[pos..pos + len - 2]);
                if computed == received {
                    match read_block_header(data, pos) {
                        Some(header) => {
                            let body = copy_range(data, pos + 39, pos + len - 2);
                            blocks.push(DcsBlock { header, data: body });
                            proof {
                                assert(block_views(blocks@) =~= before.push((header, body@)));
                                match rest {
                                    Some(s) => {
                                        assert(before.push((header, body@)) + s =~= before + (seq![(header, body@)] + s));
                                    },
                                    None => {},
                                }
                            }
                        },
                        None => {},
                    }
                }
            }
            pos = pos + len;
        }
        proof {
            assert(spec_blocks(data@, pos as int, end as int) == Some(Seq::<(DcsBlockHeader, Seq<u8>)>::empty()));
            assert(block_views(blocks@) + Seq::<(DcsBlockHeader, Seq<u8>)>::empty() =~= block_views(blocks@));
        }
        Ok(blocks)
    }
}

} // verus!
