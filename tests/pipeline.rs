use goesbox::channel::{Demultiplexer, VirtualChannel};
use goesbox::crc::calc_crc16;
use goesbox::packet::{TP_PDU, VCDU};
use goesbox::session::{diff_with_wrap, AppendOutcome, RiceParams, ScanlineDecoder, Session, SessionKey};
use goesbox::stats::Stats;

/// Treats the first input byte as the value of every pixel of the scanline.
struct FlatDecoder;

impl ScanlineDecoder for FlatDecoder {
    fn decode(&mut self, _session: SessionKey, params: &RiceParams, input: &[u8]) -> Option<Vec<u8>> {
        input.first().map(|v| vec![*v; params.pixels_per_scanline as usize])
    }
}

fn pdu_bytes(apid: u16, flag: u8, seq: u16, body: &[u8]) -> Vec<u8> {
    let mut payload = body.to_vec();
    let crc = calc_crc16(&payload);
    payload.extend_from_slice(&crc.to_be_bytes());
    let len = (payload.len() - 1) as u16;
    let mut v = vec![(apid >> 8) as u8 & 0x7, apid as u8, (flag << 6) | ((seq >> 8) as u8 & 0x3f), seq as u8];
    v.extend_from_slice(&len.to_be_bytes());
    v.extend(payload);
    v
}

fn frame(vcid: u8, counter: u32, ptr: u16, zone: &[u8]) -> Vec<u8> {
    let mut f = vec![0u8; 892];
    f[0] = 0x40;
    f[1] = vcid & 0x3f;
    f[2] = (counter >> 16) as u8;
    f[3] = (counter >> 8) as u8;
    f[4] = counter as u8;
    f[6] = (ptr >> 8) as u8 & 0x7;
    f[7] = ptr as u8;
    let n = zone.len().min(884);
    f[8..8 + n].copy_from_slice(&zone[..n]);
    let rest = 884 - n;
    if rest >= 8 {
        let fill_len = (rest - 6 - 1) as u16;
        let at = 8 + n;
        f[at] = 0x07;
        f[at + 1] = 0xff;
        f[at + 2] = 0xc0;
        f[at + 4] = (fill_len >> 8) as u8;
        f[at + 5] = fill_len as u8;
    }
    f
}

fn primary(filetype: u8, total: u32) -> Vec<u8> {
    let mut v = vec![0u8, 0, 16, filetype];
    v.extend_from_slice(&total.to_be_bytes());
    v.extend_from_slice(&0u64.to_be_bytes());
    v
}

fn annotation(text: &str) -> Vec<u8> {
    let len = (text.len() + 3) as u16;
    let mut v = vec![4u8];
    v.extend_from_slice(&len.to_be_bytes());
    v.extend_from_slice(text.as_bytes());
    v
}

/// An opening payload: ten leading bytes, then the header records, then the body.
fn opening(headers: &[u8], body: &[u8]) -> Vec<u8> {
    let mut v = vec![0xAAu8; 10];
    v.extend_from_slice(headers);
    v.extend_from_slice(body);
    v
}

fn image_headers() -> Vec<u8> {
    let mut h = primary(0, 16 + 9 + 7);
    h.extend_from_slice(&[1, 0, 9, 8, 0, 200, 0, 2, 1]);
    h.extend_from_slice(&[131, 0, 7, 0, 0x31, 8, 1]);
    h
}

fn run(demux: &mut Demultiplexer, stats: &mut Stats, f: &[u8]) -> Vec<goesbox::session::LRIT> {
    demux.process(VCDU::new(f), stats, &mut FlatDecoder)
}

#[test]
fn diff_with_wrap_is_modular() {
    assert_eq!(diff_with_wrap(5, 9, 1 << 24), 4);
    assert_eq!(diff_with_wrap((1 << 24) - 1, 0, 1 << 24), 1);
    assert_eq!(diff_with_wrap(16383, 1, 1 << 14), 2);
    assert_eq!(diff_with_wrap(7, 7, 1 << 14), 0);
}

#[test]
fn vcdu_fields() {
    let f = frame(5, 0x012345, 0, &[]);
    let v = VCDU::new(&f);
    assert_eq!(v.version(), 1);
    assert_eq!(v.SCID(), 0);
    assert_eq!(v.VCID(), 5);
    assert_eq!(v.counter(), 0x012345);
    assert_eq!(v.len(), 886);
    assert_eq!(v.data().len(), 886);
    assert!(!v.is_fill());
    assert!(VCDU::new(&frame(63, 0, 2047, &[])).is_fill());
}

#[test]
fn tp_pdu_fields_and_crc() {
    let bytes = pdu_bytes(100, 3, 0x1234 & 0x3fff, b"payload");
    let mut p = TP_PDU::new(3);
    assert_eq!(p.APID(), None);
    assert_eq!(p.process_bytes(&bytes), bytes.len());
    assert!(p.header_complete());
    assert!(p.data_complete());
    assert!(p.is_crc_ok());
    assert_eq!(p.APID(), Some(100));
    assert_eq!(p.flags(), Some(3));
    assert_eq!(p.sequence_count(), Some(0x1234));
    assert_eq!(p.packet_length(), Some(9));
    assert_eq!(p.version(), Some(0));
    assert_eq!(p.packet_type(), Some(false));
    assert_eq!(p.secondary_flag(), Some(false));
    assert_eq!(p.vcid(), 3);
}

#[test]
fn tp_pdu_crc_mismatch_is_seen() {
    let mut bytes = pdu_bytes(100, 3, 0, b"payload");
    let last = bytes.len() - 1;
    bytes[last] ^= 1;
    let mut p = TP_PDU::new(0);
    p.process_bytes(&bytes);
    assert!(p.data_complete());
    assert!(!p.is_crc_ok());
}

#[test]
fn tp_pdu_takes_only_what_it_declares() {
    let mut bytes = pdu_bytes(1, 3, 0, b"abc");
    let n = bytes.len();
    bytes.extend_from_slice(b"next packet");
    let mut p = TP_PDU::new(0);
    assert_eq!(p.process_bytes(&bytes), n);
    assert_eq!(p.process_bytes(b"more"), 0);
}

#[test]
fn tp_pdu_byte_by_byte_equals_all_at_once() {
    let bytes = pdu_bytes(42, 1, 9, &[7u8; 50]);
    let mut whole = TP_PDU::new(0);
    whole.process_bytes(&bytes);
    let mut pieces = TP_PDU::new(0);
    let mut used = 0;
    for b in bytes.iter() {
        used += pieces.process_bytes(&[*b]);
    }
    assert_eq!(used, bytes.len());
    assert!(pieces.data_complete() && whole.data_complete());
    assert_eq!(pieces.into_body(), whole.into_body());
}

#[test]
fn tp_pdu_with_invalid_length_stops_after_header() {
    let mut p = TP_PDU::new(0);
    assert_eq!(p.process_bytes(&[0, 1, 0xc0, 0, 0xff, 0xff, 1, 2, 3]), 6);
    assert!(p.header_complete());
    assert_eq!(p.packet_length(), None);
    assert!(!p.data_complete());
}

#[test]
fn session_drops_ten_bytes_and_appends() {
    let mut headers = primary(2, 16);
    headers.extend_from_slice(b"");
    let mut first = TP_PDU::new(4);
    first.process_bytes(&pdu_bytes(7, 1, 1, &opening(&headers, b"ab")));
    let mut s = Session::new_from_pdu(first);
    assert_eq!(s.apid(), 7);
    assert_eq!(s.bytes().len(), 18);
    let mut mid = TP_PDU::new(4);
    mid.process_bytes(&pdu_bytes(7, 0, 2, b"cd"));
    assert_eq!(s.append(mid, &mut FlatDecoder), AppendOutcome::Appended);
    let mut last = TP_PDU::new(4);
    last.process_bytes(&pdu_bytes(7, 2, 5, b"ef"));
    assert_eq!(s.append(last, &mut FlatDecoder), AppendOutcome::AppendedAfterGap);
    let l = s.finish().unwrap();
    assert_eq!(l.vcid, 4);
    assert_eq!(l.data, b"abcdef".to_vec());
}

#[test]
fn session_refuses_bad_crc() {
    let mut first = TP_PDU::new(0);
    first.process_bytes(&pdu_bytes(7, 1, 1, &opening(&primary(2, 16), b"")));
    let mut s = Session::new_from_pdu(first);
    let mut bad = pdu_bytes(7, 0, 2, b"xyz");
    let n = bad.len();
    bad[n - 1] ^= 0xff;
    let mut p = TP_PDU::new(0);
    p.process_bytes(&bad);
    assert_eq!(s.append(p, &mut FlatDecoder), AppendOutcome::CrcMismatch);
    assert_eq!(s.bytes().len(), 16);
}

#[test]
fn session_finish_rejects_header_longer_than_buffer() {
    let mut first = TP_PDU::new(0);
    first.process_bytes(&pdu_bytes(7, 3, 1, &opening(&primary(2, 16), b"")));
    let mut s = Session::new_from_pdu(first);
    let _ = &mut s;
    assert!(s.finish().is_ok());
    let mut first = TP_PDU::new(0);
    let mut h = primary(2, 16);
    h[4..8].copy_from_slice(&10u32.to_be_bytes());
    first.process_bytes(&pdu_bytes(7, 3, 1, &opening(&h, b"")));
    let ok = Session::new_from_pdu(first).finish().unwrap();
    assert_eq!(ok.data, b"\0\0\0\0\0\0".to_vec());
    let mut first = TP_PDU::new(0);
    let mut h = primary(2, 16);
    h[4..8].copy_from_slice(&40u32.to_be_bytes());
    h.extend_from_slice(&[131, 0, 30, 0, 0, 8, 1]);
    first.process_bytes(&pdu_bytes(7, 3, 1, &opening(&h, b"")));
    assert_eq!(
        Session::new_from_pdu(first).finish().unwrap_err(),
        goesbox::headers::HeaderError::ExceedsBuffer
    );
}

#[test]
fn unsegmented_text_file() {
    let mut headers = primary(2, 16 + 12);
    headers.extend(annotation("HELLO.TXT"));
    let zone = pdu_bytes(100, 3, 0, &opening(&headers, b"hi\n"));
    let mut demux = Demultiplexer::new();
    let mut stats = Stats::new();
    let lrits = run(&mut demux, &mut stats, &frame(1, 0, 0, &zone));
    assert_eq!(lrits.len(), 1);
    assert_eq!(lrits[0].vcid, 1);
    assert_eq!(lrits[0].headers.primary.filetype_code, 2);
    assert_eq!(lrits[0].headers.annotation.as_ref().unwrap().text, "HELLO.TXT");
    assert_eq!(lrits[0].data, b"hi\n".to_vec());
    assert_eq!(stats.apid[100], 1);
    assert_eq!(stats.packets, 1);
}

#[test]
fn two_frame_segmented_image() {
    let first = pdu_bytes(200, 1, 10, &opening(&image_headers(), b""));
    let mid = pdu_bytes(200, 0, 11, &[0x11, 0x22, 0x33]);
    let mut zone_a = first.clone();
    zone_a.extend(mid);
    let last = pdu_bytes(200, 2, 12, &[0x44, 0x55]);
    let mut demux = Demultiplexer::new();
    let mut stats = Stats::new();
    assert!(run(&mut demux, &mut stats, &frame(0, 100, 0, &zone_a)).is_empty());
    let lrits = run(&mut demux, &mut stats, &frame(0, 101, 0, &last));
    assert_eq!(lrits.len(), 1);
    assert_eq!(lrits[0].data.len(), 400);
    assert_eq!(lrits[0].data[0], 0x11);
    assert_eq!(lrits[0].data[399], 0x44);
}

#[test]
fn crc_damaged_last_packet() {
    let first = pdu_bytes(200, 1, 10, &opening(&image_headers(), b""));
    let mid = pdu_bytes(200, 0, 11, &[0x11]);
    let mut zone_a = first.clone();
    zone_a.extend(mid);
    let mut last = pdu_bytes(200, 2, 12, &[0x44]);
    let n = last.len();
    last[n - 1] ^= 0x5a;
    let mut demux = Demultiplexer::new();
    let mut stats = Stats::new();
    assert!(run(&mut demux, &mut stats, &frame(0, 100, 0, &zone_a)).is_empty());
    assert_eq!(stats.discards, 0);
    assert!(run(&mut demux, &mut stats, &frame(0, 101, 0, &last)).is_empty());
    assert_eq!(stats.discards, 1);
    let again = pdu_bytes(200, 2, 13, &[0x44]);
    assert!(run(&mut demux, &mut stats, &frame(0, 102, 0, &again)).is_empty());
}

#[test]
fn frame_gap_drops_the_straddling_packet() {
    let mut headers = primary(2, 16);
    headers.extend_from_slice(b"");
    let big = pdu_bytes(100, 3, 0, &opening(&headers, &[b'x'; 1000]));
    let mut demux = Demultiplexer::new();
    let mut stats = Stats::new();
    assert!(run(&mut demux, &mut stats, &frame(2, 10, 0, &big[..884])).is_empty());
    let rest = &big[884..];
    let next = pdu_bytes(101, 3, 0, &opening(&primary(2, 16), b"ok"));
    let mut zone = rest.to_vec();
    zone.extend(next.clone());
    let lost = run(&mut demux, &mut stats, &frame(2, 12, rest.len() as u16, &zone));
    assert_eq!(lost.len(), 1);
    assert_eq!(lost[0].data, b"ok".to_vec());
    let mut demux2 = Demultiplexer::new();
    assert!(run(&mut demux2, &mut stats, &frame(2, 10, 0, &big[..884])).is_empty());
    let kept = run(&mut demux2, &mut stats, &frame(2, 11, rest.len() as u16, &zone));
    assert_eq!(kept.len(), 2);
    assert_eq!(kept[0].data.len(), 1000);
}

#[test]
fn interleaved_apids() {
    let h = primary(2, 16);
    let mut zone = Vec::new();
    zone.extend(pdu_bytes(100, 1, 0, &opening(&h, b"A")));
    zone.extend(pdu_bytes(101, 1, 0, &opening(&h, b"B")));
    zone.extend(pdu_bytes(100, 0, 1, b"a"));
    zone.extend(pdu_bytes(101, 0, 1, b"b"));
    zone.extend(pdu_bytes(100, 2, 2, b"!"));
    zone.extend(pdu_bytes(101, 2, 2, b"?"));
    let mut demux = Demultiplexer::new();
    let mut stats = Stats::new();
    let lrits = run(&mut demux, &mut stats, &frame(3, 0, 0, &zone));
    assert_eq!(lrits.len(), 2);
    assert_eq!(lrits[0].data, b"Aa!".to_vec());
    assert_eq!(lrits[1].data, b"Bb?".to_vec());
}

#[test]
fn fill_frame_changes_nothing() {
    let mut demux = Demultiplexer::new();
    let mut stats = Stats::new();
    let lrits = run(&mut demux, &mut stats, &frame(63, 0, 2047, &[]));
    assert!(lrits.is_empty());
    assert_eq!(stats.packets, 1);
    assert_eq!(stats.discards, 0);
    assert!(stats.apid.iter().all(|c| *c == 0));
}

#[test]
fn orphan_middle_packet_is_discarded() {
    let mut demux = Demultiplexer::new();
    let mut stats = Stats::new();
    let lrits = run(&mut demux, &mut stats, &frame(4, 0, 0, &pdu_bytes(9, 0, 3, b"zz")));
    assert!(lrits.is_empty());
    assert_eq!(stats.discards, 1);
}

#[test]
fn first_packet_evicts_open_session() {
    let h = primary(2, 16);
    let mut zone = Vec::new();
    zone.extend(pdu_bytes(100, 1, 0, &opening(&h, b"old")));
    zone.extend(pdu_bytes(100, 1, 5, &opening(&h, b"new")));
    zone.extend(pdu_bytes(100, 2, 6, b"!"));
    let mut demux = Demultiplexer::new();
    let mut stats = Stats::new();
    let lrits = run(&mut demux, &mut stats, &frame(3, 0, 0, &zone));
    assert_eq!(lrits.len(), 1);
    assert_eq!(lrits[0].data, b"new!".to_vec());
}

#[test]
fn virtual_channel_direct_use() {
    let mut vc = VirtualChannel::new(6, 0);
    assert_eq!(vc.id(), 6);
    let mut stats = Stats::new();
    let zone = pdu_bytes(100, 3, 0, &opening(&primary(2, 16), b"v"));
    let f = frame(6, 1, 0, &zone);
    let lrits = vc.process_vcdu(VCDU::new(&f), &mut stats, &mut FlatDecoder);
    assert_eq!(lrits.len(), 1);
    assert_eq!(lrits[0].data, b"v".to_vec());
}

#[test]
fn continuation_with_pointer_past_it_is_kept() {
    let big = pdu_bytes(100, 3, 0, &opening(&primary(2, 16), &[1u8; 900]));
    let mut demux = Demultiplexer::new();
    let mut stats = Stats::new();
    assert!(run(&mut demux, &mut stats, &frame(2, 0, 0, &big[..884])).is_empty());
    let rest = &big[884..];
    let lrits = run(&mut demux, &mut stats, &frame(2, 1, 2047, rest));
    assert_eq!(lrits.len(), 1);
    assert_eq!(lrits[0].data.len(), 900);
}

#[test]
fn diff_with_wrap_accepts_any_modulus() {
    assert_eq!(diff_with_wrap(u32::MAX - 1, 3, u32::MAX), 4);
}

#[test]
fn decoding_session_takes_exactly_the_decoded_line() {
    let first = pdu_bytes(200, 1, 10, &opening(&image_headers(), b""));
    let mut p = TP_PDU::new(0);
    p.process_bytes(&first);
    let mut s = Session::new_from_pdu(p);
    assert_eq!(s.key(), SessionKey { vcid: 0, apid: 200, first_seq: 10 });
    let header_len = s.bytes().len();
    let mut mid = TP_PDU::new(0);
    mid.process_bytes(&pdu_bytes(200, 0, 11, &[9]));
    assert_eq!(s.append_decoded(mid, Some(vec![1u8; 199])), AppendOutcome::DecodeFailed);
    assert_eq!(s.bytes().len(), header_len);
    let mut mid = TP_PDU::new(0);
    mid.process_bytes(&pdu_bytes(200, 0, 11, &[9]));
    let line: Vec<u8> = (0..200u32).map(|x| x as u8).collect();
    assert_eq!(s.append_decoded(mid, Some(line.clone())), AppendOutcome::Appended);
    assert_eq!(&s.bytes()[header_len..], &line[..]);
}
