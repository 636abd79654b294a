//! Properties that relate several operations of the library, proved over their models.
use vstd::prelude::*;
use vstd::arithmetic::div_mod::lemma_fundamental_div_mod;
use crate::bytes::{ascii_chars, be16, be32, be64, is_ascii, is_space, trim, trim_end, trim_start};
use crate::channel::{counter_gap, frame_split, routed, scan_packets, VirtualChannel, FILL_APID};
use crate::headers::{
    as_i32, spec_data_function, spec_image_structure, spec_navigation, spec_noaa, spec_primary,
    spec_rice, spec_segment, spec_text_record, spec_time_stamp, DataFunctionModel,
    ImageSegmentIdentificationRecord, ImageStructureRecord, NOAALRITHeader, NavigationModel,
    PrimaryHeader, RiceCompressionSecondaryHeader, TextModel, TimeStampRecord,
};
use crate::packet::{
    frame_counter, frame_payload, absorb, absorbed_len, declared_len, pdu_apid, pdu_body, pdu_complete, pdu_crc_ok, pdu_flags,
};
use crate::session::{finish_ok, opening_bytes, LRIT, SessionModel};

verus! {

/// Feeding a packet two pieces one after the other leaves it as feeding it both at once:
/// so feeding a frame byte by byte or whole builds the same packets.
pub proof fn lemma_absorb_in_pieces(s: Seq<u8>, a: Seq<u8>, b: Seq<u8>)
    requires
        absorbed_len(s) == s.len(),
    ensures
        absorb(absorb(s, a), b) == absorb(s, a + b),
{
    let t1 = s + a;
    let n1 = absorbed_len(t1);
    let u = t1.take(n1);
    let t2 = u + b;
    let tt = s + (a + b);
    assert(t1 + b =~= tt);
    if n1 == t1.len() {
        assert(u =~= t1);
        assert(t2 =~= tt);
    } else {
        assert(n1 >= 6);
        assert(u[4] == tt[4] && u[5] == tt[5]);
        assert(t2[4] == tt[4] && t2[5] == tt[5]);
        assert(t1[4] == tt[4] && t1[5] == tt[5]);
        assert(declared_len(t2) == declared_len(tt));
        assert(declared_len(t1) == declared_len(tt));
        assert(absorbed_len(tt) == n1);
        assert(absorbed_len(t2) == n1);
        assert(t2.take(n1) =~= tt.take(n1));
    }
}

/// The packet state after the pieces are offered to a packet holding `s`, one by one.
pub open spec fn absorb_each(s: Seq<u8>, pieces: Seq<Seq<u8>>) -> Seq<u8>
    decreases pieces.len(),
{
    if pieces.len() == 0 {
        s
    } else {
        absorb(absorb_each(s, pieces.drop_last()), pieces.last())
    }
}

/// The pieces joined end to end.
pub open spec fn joined(pieces: Seq<Seq<u8>>) -> Seq<u8>
    decreases pieces.len(),
{
    if pieces.len() == 0 {
        Seq::empty()
    } else {
        joined(pieces.drop_last()) + pieces.last()
    }
}

/// Feeding a packet any number of pieces one after the other (byte by byte, say) leaves it
/// as feeding it all of them at once.
pub proof fn lemma_absorb_piecewise(s: Seq<u8>, pieces: Seq<Seq<u8>>)
    requires
        absorbed_len(s) == s.len(),
    ensures
        absorb_each(s, pieces) == absorb(s, joined(pieces)),
    decreases pieces.len(),
{
    if pieces.len() == 0 {
        assert(s + Seq::<u8>::empty() =~= s);
        assert(s.take(s.len() as int) =~= s);
    } else {
        let front = pieces.drop_last();
        lemma_absorb_piecewise(s, front);
        lemma_absorb_in_pieces(s, joined(front), pieces.last());
    }
}

/// The packets that a scan from offset `o` completes are slices of `m` from `o` on.
proof fn lemma_scan_slices(m: Seq<u8>, o: int)
    ensures
        forall|i: int|
            #![trigger scan_packets(m, o).0[i]]
            0 <= i < scan_packets(m, o).0.len() ==> exists|x: int, y: int|
                o <= x <= y <= m.len() && scan_packets(m, o).0[i] == m.subrange(x, y),
    decreases m.len() - o,
{
    if o < 0 || o >= m.len() {
    } else {
        let t = absorb(Seq::empty(), m.subrange(o, m.len() as int));
        let n = t.len() as int;
        assert(Seq::<u8>::empty() + m.subrange(o, m.len() as int) =~= m.subrange(o, m.len() as int));
        assert(t =~= m.subrange(o, o + n));
        if pdu_complete(t) {
            if o + n >= m.len() {
                assert forall|i: int|
                    #![trigger scan_packets(m, o).0[i]]
                    0 <= i < scan_packets(m, o).0.len() implies exists|x: int, y: int|
                    o <= x <= y <= m.len() && scan_packets(m, o).0[i] == m.subrange(x, y) by {
                    assert(scan_packets(m, o).0[i] == m.subrange(o, o + n));
                }
            } else {
                lemma_scan_slices(m, o + n);
                let rest = scan_packets(m, o + n);
                assert forall|i: int|
                    #![trigger scan_packets(m, o).0[i]]
                    0 <= i < scan_packets(m, o).0.len() implies exists|x: int, y: int|
                    o <= x <= y <= m.len() && scan_packets(m, o).0[i] == m.subrange(x, y) by {
                    if i == 0 {
                        assert(scan_packets(m, o).0[i] == m.subrange(o, o + n));
                    } else {
                        assert(scan_packets(m, o).0[i] == rest.0[i - 1]);
                    }
                }
            }
        }
    }
}

/// After a lost frame no packet is in flight, and every packet that the next frame
/// completes lies wholly within that frame's payload, after its pointer bytes: no packet
/// is spliced from bytes on both sides of the gap.
pub proof fn lemma_gap_splices_nothing(m: Seq<u8>)
    requires
        m.len() >= 2,
    ensures
        forall|i: int|
            #![trigger frame_split(None, m).0[i]]
            0 <= i < frame_split(None, m).0.len() ==> exists|x: int, y: int|
                2 <= x <= y <= m.len() && frame_split(None, m).0[i] == m.subrange(x, y),
{
    let ptr = (m[0] as int % 8) * 256 + m[1] as int;
    if ptr != 2047 {
        lemma_scan_slices(m, 2 + ptr);
    }
}

/// When frames were lost before `f`, the packet in flight is gone, and every packet that
/// `f` completes on the channel lies wholly within `f`'s payload.
pub proof fn lemma_channel_gap_splices_nothing(vc: VirtualChannel, f: Seq<u8>)
    requires
        f.len() >= 8,
        counter_gap(vc.spec_last_counter() as int, frame_counter(f)),
    ensures
        vc.frame_result(f) == frame_split(None, frame_payload(f)),
        forall|i: int|
            #![trigger vc.frame_result(f).0[i]]
            0 <= i < vc.frame_result(f).0.len() ==> exists|x: int, y: int|
                2 <= x <= y <= frame_payload(f).len() && vc.frame_result(f).0[i]
                    == frame_payload(f).subrange(x, y),
{
    lemma_gap_splices_nothing(frame_payload(f));
}

/// Routing yields a file only for a terminator with a matching CRC: an unsegmented packet,
/// or a last packet of an open session. Conversely such a terminator yields a file when
/// the buffer it closes makes one (for a rice-coded session, the decoded scanline decides).
pub proof fn lemma_files_come_from_terminators(
    s: Option<SessionModel>,
    p: Seq<u8>,
    vcid: u8,
    n: Option<SessionModel>,
    r: Option<LRIT>,
)
    requires
        routed(s, p, vcid, n, r),
    ensures
        r is Some ==> pdu_apid(p) != FILL_APID && pdu_crc_ok(p) && (pdu_flags(p) == 3 || (
        pdu_flags(p) == 2 && s is Some)),
        pdu_apid(p) != FILL_APID && pdu_crc_ok(p) && pdu_flags(p) == 3 && finish_ok(
            opening_bytes(p),
        ) ==> r is Some,
        pdu_apid(p) != FILL_APID && pdu_crc_ok(p) && pdu_flags(p) == 2 && s is Some && !(
        s->0.decomp is Needed) && finish_ok(s->0.bytes + pdu_body(p)) ==> r is Some,
{
}

/// The two bytes of a 16-bit value, big-endian.
pub open spec fn enc_u16(x: u16) -> Seq<u8> {
    seq![(x as int / 256) as u8, (x as int % 256) as u8]
}

/// The four bytes of a 32-bit value, big-endian.
pub open spec fn enc_u32(x: u32) -> Seq<u8> {
    enc_u16((x as int / 65536) as u16) + enc_u16((x as int % 65536) as u16)
}

/// The eight bytes of a 64-bit value, big-endian.
pub open spec fn enc_u64(x: u64) -> Seq<u8> {
    enc_u32((x as int / 0x1_0000_0000) as u32) + enc_u32((x as int % 0x1_0000_0000) as u32)
}

/// The four bytes of a 32-bit signed value, two's complement, big-endian.
pub open spec fn enc_i32(x: i32) -> Seq<u8> {
    enc_u32((if x >= 0 { x as int } else { x as int + 0x1_0000_0000 }) as u32)
}

proof fn lemma_be16(s: Seq<u8>, i: int, x: u16)
    requires
        0 <= i,
        i + 2 <= s.len(),
        s.subrange(i, i + 2) == enc_u16(x),
    ensures
        be16(s, i) == x,
{
    assert(s[i] == s.subrange(i, i + 2)[0]);
    assert(s[i + 1] == s.subrange(i, i + 2)[1]);
    lemma_fundamental_div_mod(x as int, 256);
}

proof fn lemma_be32(s: Seq<u8>, i: int, x: u32)
    requires
        0 <= i,
        i + 4 <= s.len(),
        s.subrange(i, i + 4) == enc_u32(x),
    ensures
        be32(s, i) == x,
{
    assert(s.subrange(i, i + 2) =~= s.subrange(i, i + 4).subrange(0, 2));
    assert(s.subrange(i + 2, i + 4) =~= s.subrange(i, i + 4).subrange(2, 4));
    assert(enc_u32(x).subrange(0, 2) =~= enc_u16((x as int / 65536) as u16));
    assert(enc_u32(x).subrange(2, 4) =~= enc_u16((x as int % 65536) as u16));
    lemma_be16(s, i, (x as int / 65536) as u16);
    lemma_be16(s, i + 2, (x as int % 65536) as u16);
    lemma_fundamental_div_mod(x as int, 65536);
}

proof fn lemma_be64(s: Seq<u8>, i: int, x: u64)
    requires
        0 <= i,
        i + 8 <= s.len(),
        s.subrange(i, i + 8) == enc_u64(x),
    ensures
        be64(s, i) == x,
{
    assert(s.subrange(i, i + 4) =~= s.subrange(i, i + 8).subrange(0, 4));
    assert(s.subrange(i + 4, i + 8) =~= s.subrange(i, i + 8).subrange(4, 8));
    assert(enc_u64(x).subrange(0, 4) =~= enc_u32((x as int / 0x1_0000_0000) as u32));
    assert(enc_u64(x).subrange(4, 8) =~= enc_u32((x as int % 0x1_0000_0000) as u32));
    lemma_be32(s, i, (x as int / 0x1_0000_0000) as u32);
    lemma_be32(s, i + 4, (x as int % 0x1_0000_0000) as u32);
    lemma_fundamental_div_mod(x as int, 0x1_0000_0000);
}

proof fn lemma_i32(s: Seq<u8>, i: int, x: i32)
    requires
        0 <= i,
        i + 4 <= s.len(),
        s.subrange(i, i + 4) == enc_i32(x),
    ensures
        as_i32(be32(s, i)) == x,
{
    lemma_be32(s, i, (if x >= 0 { x as int } else { x as int + 0x1_0000_0000 }) as u32);
}

/// The bytes of a primary header.
pub open spec fn encode_primary(h: PrimaryHeader) -> Seq<u8> {
    seq![h.header_type] + enc_u16(h.header_record_lenth) + seq![h.filetype_code] + enc_u32(
        h.total_header_length,
    ) + enc_u64(h.data_field_bits)
}

/// Reading back an encoded primary header gives the header.
pub proof fn lemma_primary_round_trip(h: PrimaryHeader)
    ensures
        spec_primary(encode_primary(h)) == Some(h),
{
    let e = encode_primary(h);
    assert(e.subrange(1, 3) =~= enc_u16(h.header_record_lenth));
    assert(e.subrange(4, 8) =~= enc_u32(h.total_header_length));
    assert(e.subrange(8, 16) =~= enc_u64(h.data_field_bits));
    lemma_be16(e, 1, h.header_record_lenth);
    lemma_be32(e, 4, h.total_header_length);
    lemma_be64(e, 8, h.data_field_bits);
}

/// The bytes of an image structure record.
pub open spec fn encode_image_structure(h: ImageStructureRecord) -> Seq<u8> {
    seq![h.header_type] + enc_u16(h.header_record_lenth) + seq![h.bits_per_pixel] + enc_u16(
        h.num_columns,
    ) + enc_u16(h.num_lines) + seq![h.compression]
}

/// Reading back an encoded image structure record gives the record.
pub proof fn lemma_image_structure_round_trip(h: ImageStructureRecord)
    ensures
        spec_image_structure(encode_image_structure(h)) == Some(h),
{
    let e = encode_image_structure(h);
    assert(e.len() == 9);
    assert(e[0] == h.header_type && e[3] == h.bits_per_pixel && e[8] == h.compression);
    assert(e.subrange(1, 3) =~= enc_u16(h.header_record_lenth));
    assert(e.subrange(4, 6) =~= enc_u16(h.num_columns));
    assert(e.subrange(6, 8) =~= enc_u16(h.num_lines));
    lemma_be16(e, 1, h.header_record_lenth);
    lemma_be16(e, 4, h.num_columns);
    lemma_be16(e, 6, h.num_lines);
}

/// The bytes of a time stamp record.
pub open spec fn encode_time_stamp(h: TimeStampRecord) -> Seq<u8> {
    seq![h.header_type] + enc_u16(h.header_record_lenth) + seq![h.time_code] + enc_u16(h.days)
        + enc_u32(h.millis_of_day)
}

/// Reading back an encoded time stamp record gives the record.
pub proof fn lemma_time_stamp_round_trip(h: TimeStampRecord)
    ensures
        spec_time_stamp(encode_time_stamp(h)) == Some(h),
{
    let e = encode_time_stamp(h);
    assert(e.subrange(1, 3) =~= enc_u16(h.header_record_lenth));
    assert(e.subrange(4, 6) =~= enc_u16(h.days));
    assert(e.subrange(6, 10) =~= enc_u32(h.millis_of_day));
    lemma_be16(e, 1, h.header_record_lenth);
    lemma_be16(e, 4, h.days);
    lemma_be32(e, 6, h.millis_of_day);
}

/// The bytes of an image segment identification record.
pub open spec fn encode_segment(h: ImageSegmentIdentificationRecord) -> Seq<u8> {
    seq![h.header_type] + enc_u16(h.header_record_lenth) + enc_u16(h.image_id) + enc_u16(
        h.segment_seq,
    ) + enc_u16(h.start_col) + enc_u16(h.start_line) + enc_u16(h.max_segment) + enc_u16(
        h.max_column,
    ) + enc_u16(h.max_row)
}

/// Reading back an encoded image segment identification record gives the record.
pub proof fn lemma_segment_round_trip(h: ImageSegmentIdentificationRecord)
    ensures
        spec_segment(encode_segment(h)) == Some(h),
{
    let e = encode_segment(h);
    assert(e.subrange(1, 3) =~= enc_u16(h.header_record_lenth));
    assert(e.subrange(3, 5) =~= enc_u16(h.image_id));
    assert(e.subrange(5, 7) =~= enc_u16(h.segment_seq));
    assert(e.subrange(7, 9) =~= enc_u16(h.start_col));
    assert(e.subrange(9, 11) =~= enc_u16(h.start_line));
    assert(e.subrange(11, 13) =~= enc_u16(h.max_segment));
    assert(e.subrange(13, 15) =~= enc_u16(h.max_column));
    assert(e.subrange(15, 17) =~= enc_u16(h.max_row));
    lemma_be16(e, 1, h.header_record_lenth);
    lemma_be16(e, 3, h.image_id);
    lemma_be16(e, 5, h.segment_seq);
    lemma_be16(e, 7, h.start_col);
    lemma_be16(e, 9, h.start_line);
    lemma_be16(e, 11, h.max_segment);
    lemma_be16(e, 13, h.max_column);
    lemma_be16(e, 15, h.max_row);
}

/// The bytes of a NOAA-specific record, with the given four-byte agency signature.
pub open spec fn encode_noaa(h: NOAALRITHeader, agency: Seq<u8>) -> Seq<u8> {
    seq![h.header_type] + enc_u16(h.header_record_lenth) + agency + enc_u16(h.product_id)
        + enc_u16(h.product_subid) + enc_u16(h.parameter) + seq![h.noaa_compression]
}

/// Reading back an encoded NOAA-specific record gives the record, whatever the agency
/// signature.
pub proof fn lemma_noaa_round_trip(h: NOAALRITHeader, agency: Seq<u8>)
    requires
        agency.len() == 4,
    ensures
        spec_noaa(encode_noaa(h, agency)) == Some(h),
{
    let e = encode_noaa(h, agency);
    assert(e.subrange(1, 3) =~= enc_u16(h.header_record_lenth));
    assert(e.subrange(7, 9) =~= enc_u16(h.product_id));
    assert(e.subrange(9, 11) =~= enc_u16(h.product_subid));
    assert(e.subrange(11, 13) =~= enc_u16(h.parameter));
    lemma_be16(e, 1, h.header_record_lenth);
    lemma_be16(e, 7, h.product_id);
    lemma_be16(e, 9, h.product_subid);
    lemma_be16(e, 11, h.parameter);
}

/// The bytes of a rice compression record.
pub open spec fn encode_rice(h: RiceCompressionSecondaryHeader) -> Seq<u8> {
    seq![h.header_type] + enc_u16(h.header_record_lenth) + enc_u16(h.flags) + seq![
        h.pixels_per_block,
        h.scanlines_per_packet,
    ]
}

/// Reading back an encoded rice compression record gives the record.
pub proof fn lemma_rice_round_trip(h: RiceCompressionSecondaryHeader)
    ensures
        spec_rice(encode_rice(h)) == Some(h),
{
    let e = encode_rice(h);
    assert(e.subrange(1, 3) =~= enc_u16(h.header_record_lenth));
    assert(e.subrange(3, 5) =~= enc_u16(h.flags));
    lemma_be16(e, 1, h.header_record_lenth);
    lemma_be16(e, 3, h.flags);
}

/// The bytes of an image data function record holding the table `table`.
pub open spec fn encode_data_function(header_type: u8, table: Seq<u8>) -> Seq<u8> {
    seq![header_type] + enc_u16((table.len() + 3) as u16) + table
}

/// Reading back an encoded image data function record gives its table.
pub proof fn lemma_data_function_round_trip(header_type: u8, table: Seq<u8>)
    requires
        table.len() + 3 <= 0xffff,
    ensures
        spec_data_function(encode_data_function(header_type, table)) == Some(
            DataFunctionModel {
                header_type,
                header_record_lenth: (table.len() + 3) as u16,
                data: table,
            },
        ),
{
    let e = encode_data_function(header_type, table);
    assert(e.subrange(1, 3) =~= enc_u16((table.len() + 3) as u16));
    lemma_be16(e, 1, (table.len() + 3) as u16);
    assert(e.subrange(3, e.len() as int) =~= table);
}

/// ASCII text with no whitespace at either end.
pub open spec fn is_bare_ascii(b: Seq<u8>) -> bool {
    &&& is_ascii(b)
    &&& b.len() > 0 ==> !is_space(b[0]) && !is_space(b.last())
}

/// `k` spaces.
pub open spec fn spaces(k: nat) -> Seq<u8> {
    Seq::new(k, |i: int| 32u8)
}

proof fn lemma_trim_padded(b: Seq<u8>, k: nat)
    requires
        is_bare_ascii(b),
    ensures
        trim(b + spaces(k)) == b,
    decreases k,
{
    if k == 0 {
        assert(b + spaces(0) =~= b);
        if b.len() > 0 {
            assert(trim_start(b) == b);
            assert(trim_end(b) == b);
        }
    } else {
        lemma_trim_padded(b, (k - 1) as nat);
        let t = b + spaces(k);
        assert(t.drop_last() =~= b + spaces((k - 1) as nat));
        if b.len() > 0 {
            assert(trim_start(t) == t);
            assert(trim_start(t.drop_last()) == t.drop_last());
            assert(trim_end(t) == trim_end(t.drop_last()));
        } else {
            assert(t =~= spaces(k));
            lemma_trim_spaces(k);
        }
    }
}

proof fn lemma_trim_spaces(k: nat)
    ensures
        trim_start(spaces(k)) == Seq::<u8>::empty(),
    decreases k,
{
    if k > 0 {
        assert(spaces(k).drop_first() =~= spaces((k - 1) as nat));
        lemma_trim_spaces((k - 1) as nat);
    } else {
        assert(spaces(0) =~= Seq::<u8>::empty());
    }
}

/// The bytes of a text record (annotation, header structure or ancillary text).
pub open spec fn encode_text_record(header_type: u8, text: Seq<u8>) -> Seq<u8> {
    seq![header_type] + enc_u16((text.len() + 3) as u16) + text
}

/// Reading back an encoded text record gives its text, as long as the text is ASCII with
/// no whitespace at either end (reading trims it).
pub proof fn lemma_text_record_round_trip(header_type: u8, text: Seq<u8>)
    requires
        text.len() + 3 <= 0xffff,
        is_bare_ascii(text),
    ensures
        spec_text_record(encode_text_record(header_type, text)) == Some(
            TextModel {
                header_type,
                header_record_lenth: (text.len() + 3) as u16,
                text: ascii_chars(text),
            },
        ),
{
    let e = encode_text_record(header_type, text);
    assert(e.subrange(1, 3) =~= enc_u16((text.len() + 3) as u16));
    lemma_be16(e, 1, (text.len() + 3) as u16);
    assert(e.subrange(3, e.len() as int) =~= text);
    lemma_trim_padded(text, 0);
    assert(text + spaces(0) =~= text);
}

/// The bytes of an image navigation record whose projection name is `name`, padded with
/// spaces to 32 bytes.
pub open spec fn encode_navigation(h: NavigationModel, name: Seq<u8>) -> Seq<u8> {
    seq![h.header_type] + enc_u16(h.header_record_lenth) + name + spaces((32 - name.len()) as nat)
        + enc_i32(h.column_scaling_factor) + enc_i32(h.line_scaling_factor) + enc_i32(
        h.column_offset,
    ) + enc_i32(h.line_offset)
}

/// Reading back an encoded image navigation record gives the record, as long as its
/// projection name is ASCII with no whitespace at either end.
pub proof fn lemma_navigation_round_trip(h: NavigationModel, name: Seq<u8>)
    requires
        name.len() <= 32,
        is_bare_ascii(name),
        h.projection_name == ascii_chars(name),
    ensures
        spec_navigation(encode_navigation(h, name)) == Some(h),
{
    let e = encode_navigation(h, name);
    let pad = spaces((32 - name.len()) as nat);
    assert(e.subrange(1, 3) =~= enc_u16(h.header_record_lenth));
    assert(e.subrange(3, 35) =~= name + pad);
    assert(e.subrange(35, 39) =~= enc_i32(h.column_scaling_factor));
    assert(e.subrange(39, 43) =~= enc_i32(h.line_scaling_factor));
    assert(e.subrange(43, 47) =~= enc_i32(h.column_offset));
    assert(e.subrange(47, 51) =~= enc_i32(h.line_offset));
    lemma_be16(e, 1, h.header_record_lenth);
    lemma_trim_padded(name, (32 - name.len()) as nat);
    lemma_i32(e, 35, h.column_scaling_factor);
    lemma_i32(e, 39, h.line_scaling_factor);
    lemma_i32(e, 43, h.column_offset);
    lemma_i32(e, 47, h.line_offset);
}

} // verus!
