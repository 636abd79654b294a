//! Transfer frames (VCDUs) and the transport packet (TP_PDU) assembler.
use vstd::prelude::*;
use crate::bytes::be16;
use crate::crc::{calc_crc16, crc16_of};

verus! {

/// Size of a transfer frame in bytes.
pub const FRAME_LEN: usize = 892;

/// Size of a frame's primary header in bytes.
pub const FRAME_HEADER_LEN: usize = 6;

/// Size of a transport packet's primary header in bytes.
pub const PDU_HEADER_LEN: usize = 6;

/// Largest declared payload length of a transport packet.
pub const MAX_PDU_DATA: u32 = 8192;

/// A Virtual Channel Data Unit: a 6-byte header followed by 886 bytes of payload.
///
/// The header holds a 2-bit version, an 8-bit spacecraft id, a 6-bit virtual channel id
/// (63 marks fill), a 24-bit per-channel counter and an 8-bit signalling field.
pub struct VCDU<'a> {
    bytes: &'a [u8],
}

impl<'a> View for VCDU<'a> {
    type V = Seq<u8>;

    closed spec fn view(&self) -> Seq<u8> {
        self.bytes@
    }
}

/// The virtual channel id of a frame.
pub open spec fn frame_vcid(f: Seq<u8>) -> int {
    f[1] as int % 64
}

/// The 24-bit counter of a frame.
pub open spec fn frame_counter(f: Seq<u8>) -> int {
    f[2] as int * 65536 + f[3] as int * 256 + f[4] as int
}

/// The payload of a frame (the M_PDU): everything after the 6-byte header.
pub open spec fn frame_payload(f: Seq<u8>) -> Seq<u8> {
    f.subrange(6, f.len() as int)
}

impl<'a> VCDU<'a> {
    /// A frame over the given bytes.
    pub fn new(bytes: &'a [u8]) -> (r: VCDU<'a>)
        requires
            bytes@.len() == FRAME_LEN,
        ensures
            r@ == bytes@,
    {
        VCDU { bytes }
    }

    /// The frame version (always 1).
    pub fn version(&self) -> (r: u8)
        requires
            self@.len() == FRAME_LEN,
        ensures
            r == self@[0] / 64,
    {
        self.bytes[0] / 64
    }

    /// The spacecraft id.
    #[allow(non_snake_case)]
    pub fn SCID(&self) -> (r: u8)
        requires
            self@.len() == FRAME_LEN,
        ensures
            r == (self@[0] % 64) * 4 + self@[1] / 64,
    {
        (self.bytes[0] % 64) * 4 + self.bytes[1] / 64
    }

    /// The virtual channel id (0 to 63; 63 marks a fill frame).
    #[allow(non_snake_case)]
    pub fn VCID(&self) -> (r: u8)
        requires
            self@.len() == FRAME_LEN,
        ensures
            r == frame_vcid(self@),
            r < 64,
    {
        self.bytes[1] % 64
    }

    /// The per-channel frame counter, modulo 2^24.
    pub fn counter(&self) -> (r: u32)
        requires
            self@.len() == FRAME_LEN,
        ensures
            r == frame_counter(self@),
            r < 0x100_0000,
    {
        (self.bytes[2] as u32) * 65536 + (self.bytes[3] as u32) * 256 + self.bytes[4] as u32
    }

    /// The length of the payload in bytes.
    pub fn len(&self) -> (r: usize)
        requires
            self@.len() == FRAME_LEN,
        ensures
            r == self@.len() - 6,
    {
        self.bytes.len() - FRAME_HEADER_LEN
    }

    /// The payload.
    pub fn data(&self) -> (r: &[u8])
        requires
            self@.len() == FRAME_LEN,
        ensures
            r@ == frame_payload(self@),
    {
        &self.bytes[FRAME_HEADER_LEN..self.bytes.len()]
    }

    /// Whether this is a fill frame (virtual channel 63).
    pub fn is_fill(&self) -> (r: bool)
        requires
            self@.len() == FRAME_LEN,
        ensures
            r == (frame_vcid(self@) == 63),
    {
        self.VCID() == 63
    }
}

/// The payload length that a complete packet header declares (its field plus one).
pub open spec fn declared_len(p: Seq<u8>) -> int {
    be16(p, 4) + 1
}

/// The declared length leaves room for the CRC and stays within the maximum.
pub open spec fn length_ok(p: Seq<u8>) -> bool {
    2 <= declared_len(p) <= MAX_PDU_DATA
}

/// How many of the bytes `t` a packet keeps: up to the 6 header bytes and, once the
/// header declares a valid length, up to that many payload bytes.
pub open spec fn absorbed_len(t: Seq<u8>) -> int {
    if t.len() < 6 {
        t.len() as int
    } else if length_ok(t) {
        if t.len() <= 6 + declared_len(t) {
            t.len() as int
        } else {
            6 + declared_len(t)
        }
    } else {
        6
    }
}

/// The packet state after the bytes `input` are offered to a packet holding `p`.
pub open spec fn absorb(p: Seq<u8>, input: Seq<u8>) -> Seq<u8> {
    (p + input).take(absorbed_len(p + input))
}

/// The packet has its header and all of its declared payload.
pub open spec fn pdu_complete(p: Seq<u8>) -> bool {
    p.len() >= 6 && length_ok(p) && p.len() == 6 + declared_len(p)
}

/// The packet has its header and that header declares an invalid length.
pub open spec fn pdu_malformed(p: Seq<u8>) -> bool {
    p.len() >= 6 && !length_ok(p)
}

/// The payload received so far.
pub open spec fn pdu_payload(p: Seq<u8>) -> Seq<u8> {
    p.subrange(6, p.len() as int)
}

/// The 11-bit application process id.
pub open spec fn pdu_apid(p: Seq<u8>) -> int {
    (p[0] as int % 8) * 256 + p[1] as int
}

/// The 2-bit sequence flag: 3 unsegmented, 1 first, 0 middle, 2 last.
pub open spec fn pdu_flags(p: Seq<u8>) -> int {
    p[2] as int / 64
}

/// The 14-bit per-APID sequence count.
pub open spec fn pdu_seq(p: Seq<u8>) -> int {
    (p[2] as int % 64) * 256 + p[3] as int
}

/// The CRC-16 over the payload, its last two bytes excluded, equals those two bytes read
/// big-endian.
pub open spec fn crc_matches(payload: Seq<u8>) -> bool {
    payload.len() >= 2 && crc16_of(payload.take(payload.len() - 2)) as int == be16(
        payload,
        payload.len() - 2,
    )
}

/// A complete packet whose CRC matches.
pub open spec fn pdu_crc_ok(p: Seq<u8>) -> bool {
    pdu_complete(p) && crc_matches(pdu_payload(p))
}

/// The payload of a complete packet without its trailing CRC.
pub open spec fn pdu_body(p: Seq<u8>) -> Seq<u8> {
    p.subrange(6, p.len() - 2)
}

/// A Transport Protocol Data Unit under assembly: a 6-byte header, then a payload of the
/// declared length whose last two bytes are a CRC-16 of the rest.
#[allow(non_camel_case_types)]
pub struct TP_PDU {
    header: Vec<u8>,
    data: Vec<u8>,
    vcid: u8,
}

impl View for TP_PDU {
    type V = Seq<u8>;

    /// All bytes received so far, header first.
    closed spec fn view(&self) -> Seq<u8> {
        self.header@ + self.data@
    }
}

impl TP_PDU {
    /// The packet's internal state is consistent: the header fills first, and the packet
    /// never holds more than its header declares.
    pub closed spec fn wf(&self) -> bool {
        &&& self.header@.len() <= 6
        &&& self.data@.len() > 0 ==> self.header@.len() == 6
        &&& absorbed_len(self@) == self@.len()
    }

    /// The virtual channel the packet arrived on.
    pub closed spec fn spec_vcid(&self) -> u8 {
        self.vcid
    }

    /// An empty packet on the given virtual channel.
    pub fn new(vcid: u8) -> (r: TP_PDU)
        ensures
            r.wf(),
            r@ == Seq::<u8>::empty(),
            r.spec_vcid() == vcid,
    {
        let r = TP_PDU { header: Vec::with_capacity(6), data: Vec::with_capacity(8192), vcid };
        assert(r@ =~= Seq::<u8>::empty());
        r
    }

    /// The virtual channel the packet arrived on.
    pub fn vcid(&self) -> (r: u8)
        ensures
            r == self.spec_vcid(),
    {
        self.vcid
    }

    /// Whether all 6 header bytes have arrived.
    pub fn header_complete(&self) -> (r: bool)
        requires
            self.wf(),
        ensures
            r == (self@.len() >= 6),
    {
        self.header.len() == 6
    }

    /// Whether the header and the whole declared payload have arrived.
    pub fn data_complete(&self) -> (r: bool)
        requires
            self.wf(),
        ensures
            r == pdu_complete(self@),
    {
        match self.packet_length() {
            Some(len) => {
                proof {
                    assert(self@.subrange(0, 6) =~= self.header@);
                }
                self.data.len() == len as usize
            },
            None => false,
        }
    }

    /// Whether the packet is complete and its CRC matches.
    pub fn is_crc_ok(&self) -> (r: bool)
        requires
            self.wf(),
        ensures
            r == pdu_crc_ok(self@),
    {
        if !self.data_complete() {
            return false;
        }
        let len = self.data.len();
        let computed = calc_crc16(&self.data.as_slice()[0..len - 2]);
        let received = (self.data[len - 2] as u16) * 256 + self.data[len - 1] as u16;
        proof {
            assert(pdu_payload(self@) =~= self.data@);
            assert(self.data@.subrange(0, len - 2) =~= self.data@.take(len - 2));
        }
        computed == received
    }

    /// The version field (3 bits, always 0), once the first header byte has arrived.
    pub fn version(&self) -> (r: Option<u8>)
        requires
            self.wf(),
        ensures
            r == (if self@.len() > 0 {
                Some(self@[0] / 32)
            } else {
                None
            }),
    {
        if self.header.len() > 0 {
            proof {
                assert(self@[0] == self.header@[0]);
            }
            Some(self.header[0] / 32)
        } else {
            None
        }
    }

    /// The packet type bit (always 0), once the first header byte has arrived.
    pub fn packet_type(&self) -> (r: Option<bool>)
        requires
            self.wf(),
        ensures
            r == (if self@.len() > 0 {
                Some((self@[0] / 16) % 2 == 1)
            } else {
                None
            }),
    {
        if self.header.len() > 0 {
            proof {
                assert(self@[0] == self.header@[0]);
            }
            Some((self.header[0] / 16) % 2 == 1)
        } else {
            None
        }
    }

    /// The secondary header flag, once the first header byte has arrived.
    pub fn secondary_flag(&self) -> (r: Option<bool>)
        requires
            self.wf(),
        ensures
            r == (if self@.len() > 0 {
                Some((self@[0] / 8) % 2 == 1)
            } else {
                None
            }),
    {
        if self.header.len() > 0 {
            proof {
                assert(self@[0] == self.header@[0]);
            }
            Some((self.header[0] / 8) % 2 == 1)
        } else {
            None
        }
    }

    /// The application process id (2047 marks fill), once two header bytes have arrived.
    #[allow(non_snake_case)]
    pub fn APID(&self) -> (r: Option<u16>)
        requires
            self.wf(),
        ensures
            r == (if self@.len() >= 2 {
                Some(pdu_apid(self@) as u16)
            } else {
                None
            }),
            r matches Some(a) ==> a < 2048,
    {
        if self.header.len() >= 2 {
            proof {
                assert(self@[0] == self.header@[0]);
                assert(self@[1] == self.header@[1]);
            }
            Some(((self.header[0] % 8) as u16) * 256 + self.header[1] as u16)
        } else {
            None
        }
    }

    /// The sequence flag, once four header bytes have arrived.
    pub fn flags(&self) -> (r: Option<u8>)
        requires
            self.wf(),
        ensures
            r == (if self@.len() >= 4 {
                Some(pdu_flags(self@) as u8)
            } else {
                None
            }),
            r matches Some(f) ==> f < 4,
    {
        if self.header.len() >= 4 {
            proof {
                assert(self@[2] == self.header@[2]);
            }
            Some(self.header[2] / 64)
        } else {
            None
        }
    }

    /// The 14-bit sequence count, once four header bytes have arrived.
    pub fn sequence_count(&self) -> (r: Option<u16>)
        requires
            self.wf(),
        ensures
            r == (if self@.len() >= 4 {
                Some(pdu_seq(self@) as u16)
            } else {
                None
            }),
            r matches Some(s) ==> s < 0x4000,
    {
        if self.header.len() >= 4 {
            proof {
                assert(self@[2] == self.header@[2]);
                assert(self@[3] == self.header@[3]);
            }
            Some(((self.header[2] % 64) as u16) * 256 + self.header[3] as u16)
        } else {
            None
        }
    }

    /// The declared payload length (CRC included), once the header is complete and if it
    /// lies between 2 and 8192.
    pub fn packet_length(&self) -> (r: Option<u16>)
        requires
            self.wf(),
        ensures
            r == (if self@.len() >= 6 && length_ok(self@) {
                Some(declared_len(self@) as u16)
            } else {
                None
            }),
    {
        if self.header.len() == 6 {
            proof {
                assert(self@[4] == self.header@[4]);
                assert(self@[5] == self.header@[5]);
            }
            let field = (self.header[4] as u32) * 256 + self.header[5] as u32;
            if 1 <= field && field < MAX_PDU_DATA {
                Some((field + 1) as u16)
            } else {
                None
            }
        } else {
            None
        }
    }

    /// Takes as many leading bytes of `bytes` as the packet still needs: first the rest of
    /// the header, then, if the header declares a valid length, the rest of the payload.
    /// Returns how many bytes were taken.
    pub fn process_bytes(&mut self, bytes: &[u8]) -> (used: usize)
        requires
            old(self).wf(),
        ensures
            final(self).wf(),
            final(self).spec_vcid() == old(self).spec_vcid(),
            final(self)@ == absorb(old(self)@, bytes@),
            used == final(self)@.len() - old(self)@.len(),
            final(self)@ == old(self)@ + bytes@.take(used as int),
    {
        let ghost t = old(self)@ + bytes@;
        let mut used: usize = 0;
        if self.header.len() < 6 {
            let need = 6 - self.header.len();
            let take = if need < bytes.len() {
                need
            } else {
                bytes.len()
            };
            while used < take
                invariant
                    used <= take <= bytes@.len(),
                    old(self).header@.len() + take <= 6,
                    self.header@ == old(self).header@ + bytes@.take(used as int),
                    self.data@ == old(self).data@,
                    self.data@.len() == 0,
                    self.vcid == old(self).vcid,
                decreases take - used,
            {
                self.header.push(bytes[used]);
                assert(bytes@.take(used + 1) =~= bytes@.take(used as int).push(bytes@[used as int]));
                used = used + 1;
            }
        }
        let ghost mid = self@;
        assert(mid =~= old(self)@ + bytes@.take(used as int));
        if self.header.len() == 6 {
            match self.packet_length() {
                Some(len) => {
                    let need = len as usize - self.data.len();
                    let avail = bytes.len() - used;
                    let take = if need < avail {
                        need
                    } else {
                        avail
                    };
                    let start = used;
                    let stop = start + take;
                    let ghost h6 = self.header@;
                    while used < stop
                        invariant
                            start <= used <= stop <= bytes@.len(),
                            stop == start + take,
                            self.header@ == h6,
                            self.header@.len() == 6,
                            self@ == old(self)@ + bytes@.take(used as int),
                            self.vcid == old(self).vcid,
                        decreases stop - used,
                    {
                        let ghost prev = self.data@;
                        let ghost prev_all = self@;
                        self.data.push(bytes[used]);
                        assert(self.data@ == prev.push(bytes@[used as int]));
                        assert(self.header@ + self.data@ =~= (self.header@ + prev).push(
                            bytes@[used as int],
                        ));
                        assert(self@ == prev_all.push(bytes@[used as int]));
                        assert(bytes@.take(used + 1) =~= bytes@.take(used as int).push(
                            bytes@[used as int],
                        ));
                        assert(self@ =~= old(self)@ + bytes@.take(used + 1));
                        used = used + 1;
                    }
                },
                None => {},
            }
        }
        proof {
            assert(self@ =~= t.take(self@.len() as int));
            if self@.len() >= 6 {
                assert(self.header@.len() == 6);
                assert(self@[4] == t[4] && self@[5] == t[5]);
                assert(mid.len() >= 6);
                assert(mid[4] == t[4] && mid[5] == t[5]);
            }
        }
        used
    }

    /// The payload without its trailing CRC.
    pub fn body(&self) -> (r: &[u8])
        requires
            self.wf(),
            pdu_complete(self@),
        ensures
            r@ == pdu_body(self@),
    {
        let n = self.data.len();
        proof {
            assert(self.data@.subrange(0, n - 2) =~= pdu_body(self@));
        }
        &self.data.as_slice()[0..n - 2]
    }

    /// The payload without its trailing CRC.
    pub fn into_body(self) -> (r: Vec<u8>)
        requires
            self.wf(),
            pdu_complete(self@),
        ensures
            r@ == pdu_body(self@),
    {
        let mut data = self.data;
        let n = data.len();
        data.truncate(n - 2);
        proof {
            assert(data@ =~= pdu_body(self@));
        }
        data
    }
}

} // verus!
