//! Session assembly: the payloads of one {first, middle*, last} packet run on one APID,
//! concatenated into an LRIT file, with inline rice decompression of image scanlines.
use vstd::prelude::*;
use crate::headers::{parse_headers, read_headers, spec_primary, HeaderError, Headers, HeadersModel, PrimaryHeader};
use crate::packet::{pdu_apid, pdu_body, pdu_complete, pdu_crc_ok, pdu_seq, TP_PDU};

verus! {

/// Bytes of the opening packet's payload that precede the primary header.
pub const OPENING_SKIP: usize = 10;

/// Modulus of the per-APID packet sequence count.
pub const SEQ_MODULUS: u32 = 0x4000;

/// What a rice decoder needs to know of an image: taken from the image structure and
/// rice compression records.
#[derive(Clone, Copy, Debug, PartialEq, Eq)]
pub struct RiceParams {
    /// Option flags of the rice compression record.
    pub flags: u16,
    pub bits_per_pixel: u8,
    pub pixels_per_block: u8,
    /// The image's column count: the length of one decoded scanline.
    pub pixels_per_scanline: u16,
}

/// Whether a session's packets are rice-compressed scanlines.
#[derive(Clone, Copy, Debug)]
pub enum Decompression {
    /// The header records have not all arrived yet.
    Undecided,
    /// Payloads are appended as they come.
    NoneNeeded,
    /// Each payload is one compressed scanline, decoded before it is appended.
    Needed(RiceParams),
}

/// Names one session: its channel, its APID and the sequence count of its opening packet.
#[derive(Clone, Copy, Debug, PartialEq, Eq)]
pub struct SessionKey {
    pub vcid: u8,
    pub apid: u16,
    pub first_seq: u16,
}

/// A streaming decoder of rice-compressed (CCSDS 121.0) scanlines. Its state belongs to
/// one session, which `session` names.
pub trait ScanlineDecoder {
    /// Decodes one compressed scanline of `session`; `None` when the input cannot be
    /// decoded.
    fn decode(&mut self, session: SessionKey, params: &RiceParams, input: &[u8]) -> Option<Vec<u8>>;
}

/// The decompression a session needs once its buffer is `buf`: undecided until the
/// buffer holds a primary header and all `total_header_length` header bytes; then rice
/// decoding exactly when the headers parse and hold both an image structure record and
/// a rice compression record.
pub open spec fn decompression_for(buf: Seq<u8>) -> Decompression {
    match spec_primary(buf) {
        None => Decompression::Undecided,
        Some(p) => if buf.len() < p.total_header_length {
            Decompression::Undecided
        } else {
            match parse_headers(buf) {
                Ok(m) => match (m.img_strucutre, m.rice_compression) {
                    (Some(i), Some(r)) => Decompression::Needed(
                        RiceParams {
                            flags: r.flags,
                            bits_per_pixel: i.bits_per_pixel,
                            pixels_per_block: r.pixels_per_block,
                            pixels_per_scanline: i.num_columns,
                        },
                    ),
                    _ => Decompression::NoneNeeded,
                },
                Err(_) => Decompression::NoneNeeded,
            }
        },
    }
}

/// Decides the decompression a session buffer needs.
pub fn check_headers_for_rice_compression(bytes: &[u8]) -> (r: Decompression)
    ensures
        r == decompression_for(bytes@),
{
    match PrimaryHeader::from_bytes(bytes) {
        None => Decompression::Undecided,
        Some(p) => {
            if (bytes.len() as u64) < p.total_header_length as u64 {
                return Decompression::Undecided;
            }
            match read_headers(bytes) {
                Ok(h) => match (h.img_strucutre, h.rice_compression) {
                    (Some(i), Some(r)) => Decompression::Needed(
                        RiceParams {
                            flags: r.flags,
                            bits_per_pixel: i.bits_per_pixel,
                            pixels_per_block: r.pixels_per_block,
                            pixels_per_scanline: i.num_columns,
                        },
                    ),
                    _ => Decompression::NoneNeeded,
                },
                Err(_) => Decompression::NoneNeeded,
            }
        },
    }
}

/// `(high - low)` modulo `max`: how far a counter moved from `low` to `high`.
pub fn diff_with_wrap(low: u32, high: u32, max: u32) -> (r: u32)
    requires
        low < max,
        high < max,
    ensures
        r as int == (high as int - low as int) % (max as int),
        r < max,
{
    if low <= high {
        proof {
            vstd::arithmetic::div_mod::lemma_small_mod((high - low) as nat, max as nat);
        }
        high - low
    } else {
        proof {
            vstd::arithmetic::div_mod::lemma_mod_add_multiples_vanish(
                high as int - low as int,
                max as int,
            );
            vstd::arithmetic::div_mod::lemma_small_mod((max - low + high) as nat, max as nat);
        }
        max - low + high
    }
}

/// The 14-bit sequence count moved by more than one from `last` to `next`, modulo 2^14.
pub open spec fn seq_gap(last: int, next: int) -> bool {
    (next - last % (SEQ_MODULUS as int)) % (SEQ_MODULUS as int) > 1
}

/// A finished LRIT file.
#[derive(Clone, Debug)]
pub struct LRIT {
    /// The virtual channel the file came in on.
    pub vcid: u8,
    pub headers: Headers,
    /// The file body: the session buffer after the header records.
    pub data: Vec<u8>,
}

/// `l` is the file made of the session buffer `buf`: its header records are those that
/// begin `buf`, their total length is within `buf`, and its body is the rest of `buf`.
pub open spec fn lrit_of_buffer(l: LRIT, buf: Seq<u8>) -> bool {
    &&& parse_headers(buf) == Ok::<HeadersModel, HeaderError>(l.headers@)
    &&& l.headers.primary.total_header_length <= buf.len()
    &&& l.data@ == buf.subrange(l.headers.primary.total_header_length as int, buf.len() as int)
}

/// A session buffer from which `finish` makes a file: its headers parse and their total
/// length is within the buffer.
pub open spec fn finish_ok(buf: Seq<u8>) -> bool {
    match parse_headers(buf) {
        Ok(m) => m.primary.total_header_length <= buf.len(),
        Err(_) => false,
    }
}

/// What a session holds.
pub struct SessionModel {
    /// Bytes received so far.
    pub bytes: Seq<u8>,
    /// The sequence count of the last packet taken.
    pub last_seq: u16,
    /// The sequence count of the opening packet.
    pub first_seq: u16,
    pub apid: u16,
    pub decomp: Decompression,
    pub vcid: u8,
}

/// The session buffer an opening packet starts: its payload without the CRC and
/// without the 10 bytes that precede the primary header (empty if it is shorter).
pub open spec fn opening_bytes(p: Seq<u8>) -> Seq<u8> {
    let b = pdu_body(p);
    if b.len() >= OPENING_SKIP {
        b.subrange(OPENING_SKIP as int, b.len() as int)
    } else {
        Seq::empty()
    }
}

/// The session an opening packet `p` starts on virtual channel `vcid`.
pub open spec fn opened_session(p: Seq<u8>, vcid: u8) -> SessionModel {
    SessionModel {
        bytes: opening_bytes(p),
        last_seq: pdu_seq(p) as u16,
        first_seq: pdu_seq(p) as u16,
        apid: pdu_apid(p) as u16,
        decomp: decompression_for(opening_bytes(p)),
        vcid,
    }
}

/// Session `s` after it is offered the complete packet `p`, and what became of `p`, when
/// a session that decodes got `line` from its decoder. A packet whose CRC fails is refused.
/// A session that decodes takes a line of exactly the declared scanline length and refuses
/// anything else; any other session takes the payload of `p`, and decides its
/// decompression again if it had not yet. A taken packet sets the last sequence count.
pub open spec fn append_result(s: SessionModel, p: Seq<u8>, line: Option<Seq<u8>>) -> (
    SessionModel,
    AppendOutcome,
) {
    if !pdu_crc_ok(p) {
        (s, AppendOutcome::CrcMismatch)
    } else {
        let taken = if seq_gap(s.last_seq as int, pdu_seq(p)) {
            AppendOutcome::AppendedAfterGap
        } else {
            AppendOutcome::Appended
        };
        let seq = pdu_seq(p) as u16;
        match s.decomp {
            Decompression::Needed(params) => match line {
                Some(v) => if v.len() == params.pixels_per_scanline {
                    (SessionModel { bytes: s.bytes + v, last_seq: seq, ..s }, taken)
                } else {
                    (s, AppendOutcome::DecodeFailed)
                },
                None => (s, AppendOutcome::DecodeFailed),
            },
            Decompression::NoneNeeded => (
                SessionModel { bytes: s.bytes + pdu_body(p), last_seq: seq, ..s },
                taken,
            ),
            Decompression::Undecided => (
                SessionModel {
                    bytes: s.bytes + pdu_body(p),
                    last_seq: seq,
                    decomp: decompression_for(s.bytes + pdu_body(p)),
                    ..s
                },
                taken,
            ),
        }
    }
}

/// The model of an optional decoded line.
pub open spec fn line_view(line: Option<Vec<u8>>) -> Option<Seq<u8>> {
    match line {
        Some(v) => Some(v@),
        None => None,
    }
}

/// What became of a packet offered to a session.
#[derive(Clone, Copy, Debug, PartialEq, Eq)]
pub enum AppendOutcome {
    /// Taken; its sequence count follows the previous one.
    Appended,
    /// Taken, but sequence counts were skipped since the previous packet.
    AppendedAfterGap,
    /// Refused: the CRC does not match. The session is unchanged.
    CrcMismatch,
    /// Refused: the scanline did not decode to the declared length. The session is
    /// unchanged and should be dropped.
    DecodeFailed,
}

/// A file being assembled from the packets of one APID.
pub struct Session {
    bytes: Vec<u8>,
    last_seq: u16,
    first_seq: u16,
    apid: u16,
    decomp: Decompression,
    vcid: u8,
}

impl View for Session {
    type V = SessionModel;

    closed spec fn view(&self) -> SessionModel {
        SessionModel {
            bytes: self.bytes@,
            last_seq: self.last_seq,
            first_seq: self.first_seq,
            apid: self.apid,
            decomp: self.decomp,
            vcid: self.vcid,
        }
    }
}

impl Session {
    /// Opens a session with a first or unsegmented packet.
    pub fn new_from_pdu(pdu: TP_PDU) -> (r: Session)
        requires
            pdu.wf(),
            pdu_complete(pdu@),
        ensures
            r@ == opened_session(pdu@, pdu.spec_vcid()),
    {
        let seq = match pdu.sequence_count() {
            Some(s) => s,
            None => 0,
        };
        let apid = match pdu.APID() {
            Some(a) => a,
            None => 0,
        };
        let vcid = pdu.vcid();
        let ghost p = pdu@;
        let mut body = pdu.into_body();
        let bytes = if body.len() >= OPENING_SKIP {
            body.split_off(OPENING_SKIP)
        } else {
            Vec::new()
        };
        proof {
            assert(bytes@ =~= opening_bytes(p));
        }
        let decomp = check_headers_for_rice_compression(bytes.as_slice());
        Session { last_seq: seq, first_seq: seq, bytes, apid, decomp, vcid }
    }

    /// The APID of the session.
    pub fn apid(&self) -> (r: u16)
        ensures
            r == self@.apid,
    {
        self.apid
    }

    /// The bytes received so far.
    pub fn bytes(&self) -> (r: &[u8])
        ensures
            r@ == self@.bytes,
    {
        self.bytes.as_slice()
    }

    /// The key of this session.
    pub fn key(&self) -> (r: SessionKey)
        ensures
            r == (SessionKey { vcid: self@.vcid, apid: self@.apid, first_seq: self@.first_seq }),
    {
        SessionKey { vcid: self.vcid, apid: self.apid, first_seq: self.first_seq }
    }

    /// Offers a middle or last packet of the same APID to the session, with the scanline
    /// that the session's decoder made of its payload when the session decodes (see
    /// `append_result`).
    pub fn append_decoded(&mut self, pdu: TP_PDU, line: Option<Vec<u8>>) -> (r: AppendOutcome)
        requires
            pdu.wf(),
            pdu_complete(pdu@),
        ensures
            (final(self)@, r) == append_result(old(self)@, pdu@, line_view(line)),
    {
        if !pdu.is_crc_ok() {
            return AppendOutcome::CrcMismatch;
        }
        let new_seq = match pdu.sequence_count() {
            Some(s) => s,
            None => 0,
        };
        let gap = diff_with_wrap(self.last_seq as u32 % SEQ_MODULUS, new_seq as u32, SEQ_MODULUS) > 1;
        let body = pdu.into_body();
        match self.decomp {
            Decompression::Needed(params) => {
                match line {
                    Some(line) => {
                        if line.len() != params.pixels_per_scanline as usize {
                            return AppendOutcome::DecodeFailed;
                        }
                        let mut line = line;
                        self.bytes.append(&mut line);
                    },
                    None => return AppendOutcome::DecodeFailed,
                }
            },
            Decompression::NoneNeeded => {
                let mut body = body;
                self.bytes.append(&mut body);
            },
            Decompression::Undecided => {
                let mut body = body;
                self.bytes.append(&mut body);
                self.decomp = check_headers_for_rice_compression(self.bytes.as_slice());
            },
        }
        self.last_seq = new_seq;
        if gap {
            AppendOutcome::AppendedAfterGap
        } else {
            AppendOutcome::Appended
        }
    }

    /// Offers a middle or last packet of the same APID to the session. A session that
    /// decodes has `decoder` decode the payload of a packet whose CRC matches, and takes
    /// exactly the scanline it returns (see `append_result`).
    pub fn append<D: ScanlineDecoder>(&mut self, pdu: TP_PDU, decoder: &mut D) -> (r:
        AppendOutcome)
        requires
            pdu.wf(),
            pdu_complete(pdu@),
        ensures
            exists|line: Option<Seq<u8>>|
                (final(self)@, r) == #[trigger] append_result(old(self)@, pdu@, line),
    {
        let line = match self.decomp {
            Decompression::Needed(params) => {
                if pdu.is_crc_ok() {
                    let key = self.key();
                    decoder.decode(key, &params, pdu.body())
                } else {
                    None
                }
            },
            _ => None,
        };
        self.append_decoded(pdu, line)
    }

    /// Closes the session: reads the header records from the buffer and splits the body
    /// off after `total_header_length` bytes.
    pub fn finish(self) -> (r: Result<LRIT, HeaderError>)
        ensures
            match parse_headers(self@.bytes) {
                Err(e) => r == Err::<LRIT, HeaderError>(e),
                Ok(m) => if m.primary.total_header_length > self@.bytes.len() {
                    r == Err::<LRIT, HeaderError>(HeaderError::ExceedsBuffer)
                } else {
                    r is Ok
                },
            },
            r matches Ok(l) ==> lrit_of_buffer(l, self@.bytes) && l.vcid == self@.vcid,
            r is Ok <==> finish_ok(self@.bytes),
    {
        let headers = match read_headers(self.bytes.as_slice()) {
            Ok(h) => h,
            Err(e) => return Err(e),
        };
        let thl = headers.primary.total_header_length;
        if thl as u64 > self.bytes.len() as u64 {
            return Err(HeaderError::ExceedsBuffer);
        }
        let mut bytes = self.bytes;
        let data = bytes.split_off(thl as usize);
        Ok(LRIT { vcid: self.vcid, headers, data })
    }
}

} // verus!
