use goesbox::crc::{calc_crc16, calc_crc32};
use goesbox::dcs::{parse_decimal, DcsBlock, DcsHeader, DcsPlatform, DcsSource, DcsSpacescraft};
use goesbox::handlers::HandlerError;

fn block(id: u8, data: &[u8]) -> Vec<u8> {
    let len = (41 + data.len()) as u16;
    let mut b = vec![id];
    b.extend_from_slice(&len.to_le_bytes());
    b.extend_from_slice(&[3, 2, 1]);
    b.push(2 | 8 | 16);
    b.push(1 | 64);
    b.extend_from_slice(&0x1234_5678u32.to_le_bytes());
    let time = [0x65, 0x74, 0x05, 0x43, 0x31, 0x12, 0x22];
    b.extend_from_slice(&time);
    b.extend_from_slice(&time);
    b.extend_from_slice(&[0xA7, 0xFD]);
    b.extend_from_slice(&[0xF6, 0x3F]);
    b.extend_from_slice(&[0x34, 0x12]);
    b.push(199);
    b.extend_from_slice(&[0x23, 0x21]);
    b.extend_from_slice(b"d1");
    b.extend_from_slice(&[0, 0]);
    b.extend_from_slice(data);
    let crc = calc_crc16(&b);
    b.extend_from_slice(&crc.to_le_bytes());
    b
}

fn dcs_file(blocks: &[Vec<u8>], kind: &[u8; 4]) -> Vec<u8> {
    let body_len: usize = blocks.iter().map(|b| b.len()).sum();
    let total = 64 + body_len + 4;
    let mut f = Vec::new();
    let mut name = b"pM-22123143000-000000".to_vec();
    name.resize(32, b' ');
    f.extend(name);
    f.extend_from_slice(format!("{:08}", total).as_bytes());
    f.extend_from_slice(b"XE  ");
    f.extend_from_slice(kind);
    f.extend_from_slice(&[0u8; 12]);
    let hcrc = calc_crc32(&f);
    f.extend_from_slice(&hcrc.to_le_bytes());
    for b in blocks {
        f.extend_from_slice(b);
    }
    let fcrc = calc_crc32(&f);
    f.extend_from_slice(&fcrc.to_le_bytes());
    f
}

#[test]
fn decimal_numbers() {
    assert_eq!(parse_decimal(b"00000123"), Some(123));
    assert_eq!(parse_decimal(b"+7"), Some(7));
    assert_eq!(parse_decimal(b""), None);
    assert_eq!(parse_decimal(b"+"), None);
    assert_eq!(parse_decimal(b"12a"), None);
    assert_eq!(parse_decimal(b"18446744073709551615"), Some(u64::MAX));
    assert_eq!(parse_decimal(b"18446744073709551616"), None);
}

#[test]
fn dcs_header_fields() {
    let f = dcs_file(&[block(1, b"HELLO")], b"DCSH");
    let h = DcsHeader::parse(&f).unwrap();
    assert_eq!(h.name, "pM-22123143000-000000");
    assert_eq!(h.payload_len as usize, f.len());
    assert_eq!(h.payload_source, "XE");
    assert_eq!(h.payload_type, "DCSH");
    assert!(h.is_dcsh());
    assert!(h.header_crc_ok);
    assert!(h.file_crc_ok);
}

#[test]
fn dcs_header_crc_mismatch_is_reported() {
    let mut f = dcs_file(&[], b"DCSH");
    f[0] = b'X';
    let h = DcsHeader::parse(&f).unwrap();
    assert!(!h.header_crc_ok);
    assert!(!h.file_crc_ok);
}

#[test]
fn dcs_header_errors() {
    assert!(matches!(DcsHeader::parse(&[0u8; 63]), Err(HandlerError::Parse(_))));
    let mut f = dcs_file(&[], b"DCSH");
    f[32..40].copy_from_slice(b"12x45678");
    assert!(matches!(DcsHeader::parse(&f), Err(HandlerError::Parse(_))));
    let other = dcs_file(&[], b"ABCD");
    assert!(!DcsHeader::parse(&other).unwrap().is_dcsh());
}

#[test]
fn dcs_block_fields() {
    let f = dcs_file(&[block(1, b"HELLO")], b"DCSH");
    let blocks = DcsBlock::parse(&f[64..]).unwrap();
    assert_eq!(blocks.len(), 1);
    let h = blocks[0].header;
    assert_eq!(h.block_id, 1);
    assert_eq!(h.block_len, 46);
    assert_eq!(h.sequence, 0x010203);
    assert_eq!(h.baud_rate, 300);
    assert_eq!(h.platform, DcsPlatform::CS2);
    assert!(h.parity_errors);
    assert!(!h.missing_eot);
    assert!(h.addr_corrected && h.wrong_channel && !h.bad_addr && !h.timing_error);
    assert_eq!(h.corrected_addr, 0x1234_5678);
    assert_eq!(
        (h.carrier_start.year, h.carrier_start.day_of_year, h.carrier_start.hour),
        (2022, 123, 14)
    );
    assert_eq!(
        (h.carrier_start.minute, h.carrier_start.second, h.carrier_start.millis),
        (30, 57, 456)
    );
    assert_eq!(h.carrier_end, h.carrier_start);
    assert_eq!(h.signal_strength_tenths, 423);
    assert_eq!(h.freq_offset_tenths, -10);
    assert_eq!(h.phase_noise_hundredths, 564);
    assert_eq!(h.good_phase_halves, 199);
    assert_eq!(h.space_platform, DcsSpacescraft::GoesWest);
    assert_eq!(h.channel_number, 291);
    assert_eq!(h.source_platform, DcsSource::D1);
    assert_eq!(blocks[0].data, b"HELLO".to_vec());
}

#[test]
fn dcs_blocks_skip_other_ids_and_bad_crcs() {
    let mut bad = block(1, b"BAD");
    let n = bad.len();
    bad[n - 1] ^= 0xff;
    let f = dcs_file(&[block(2, b"xx"), bad, block(1, b"GOOD")], b"DCSH");
    let blocks = DcsBlock::parse(&f[64..]).unwrap();
    assert_eq!(blocks.len(), 1);
    assert_eq!(blocks[0].data, b"GOOD".to_vec());
}

#[test]
fn dcs_block_errors() {
    assert!(DcsBlock::parse(&[1, 2, 3]).is_err());
    let f = dcs_file(&[block(1, b"HELLO")], b"DCSH");
    let cut = &f[64..f.len() - 10];
    assert!(matches!(DcsBlock::parse(cut), Err(HandlerError::Parse(_))));
    assert!(DcsBlock::parse(&[0, 0, 0, 0]).unwrap().is_empty());
}
