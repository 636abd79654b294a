use goesbox::headers::{
    read_headers, AnnotationRecord, HeaderError, ImageNavigationRecord, ImageStructureRecord,
    NOAALRITHeader, PrimaryHeader, RiceCompressionSecondaryHeader, TimeStampRecord,
};

fn primary(filetype: u8, total: u32) -> Vec<u8> {
    let mut v = vec![0u8, 0, 16, filetype];
    v.extend_from_slice(&total.to_be_bytes());
    v.extend_from_slice(&24u64.to_be_bytes());
    v
}

fn annotation(text: &str) -> Vec<u8> {
    let len = (text.len() + 3) as u16;
    let mut v = vec![4u8];
    v.extend_from_slice(&len.to_be_bytes());
    v.extend_from_slice(text.as_bytes());
    v
}

#[test]
fn primary_header_fields_are_big_endian() {
    let h = PrimaryHeader::from_bytes(&primary(2, 0x0102_0304)).unwrap();
    assert_eq!(h.header_type, 0);
    assert_eq!(h.header_record_lenth, 16);
    assert_eq!(h.filetype_code, 2);
    assert_eq!(h.total_header_length, 0x0102_0304);
    assert_eq!(h.data_field_bits, 24);
}

#[test]
fn primary_header_needs_sixteen_bytes() {
    assert!(PrimaryHeader::from_bytes(&primary(2, 16)[..15]).is_none());
}

#[test]
fn header_type_codes() {
    assert_eq!(PrimaryHeader::header_type(), 0);
    assert_eq!(ImageStructureRecord::header_type(), 1);
    assert_eq!(ImageNavigationRecord::header_type(), 2);
    assert_eq!(AnnotationRecord::header_type(), 4);
    assert_eq!(NOAALRITHeader::header_type(), 129);
    assert_eq!(RiceCompressionSecondaryHeader::header_type(), 131);
}

#[test]
fn annotation_text_is_trimmed() {
    let r = AnnotationRecord::from_bytes(&annotation("  HELLO.TXT \t")).unwrap();
    assert_eq!(r.text, "HELLO.TXT");
    assert_eq!(r.header_record_lenth, 16);
}

#[test]
fn headers_with_annotation_and_image_structure() {
    let mut d = primary(0, 16 + 12 + 9);
    d.extend(annotation("HELLO.TXT"));
    d.extend_from_slice(&[1, 0, 9, 8, 0, 200, 0, 2, 1]);
    d.extend_from_slice(b"body");
    let h = read_headers(&d).unwrap();
    assert_eq!(h.primary.filetype_code, 0);
    assert_eq!(h.annotation.unwrap().text, "HELLO.TXT");
    let ish = h.img_strucutre.unwrap();
    assert_eq!(ish.bits_per_pixel, 8);
    assert_eq!(ish.num_columns, 200);
    assert_eq!(ish.num_lines, 2);
    assert_eq!(ish.compression, 1);
    assert!(h.noaa.is_none());
}

#[test]
fn headers_of_every_numeric_type() {
    let mut d = primary(130, 16 + 14 + 10 + 7 + 17);
    d.extend_from_slice(&[129, 0, 14, b'N', b'O', b'A', b'A', 0, 8, 0, 1, 0, 2, 3]);
    d.extend_from_slice(&[5, 0, 10, 0x40, 0x5A, 0x5B, 0, 0, 0x03, 0xE8]);
    d.extend_from_slice(&[131, 0, 7, 0x00, 0x31, 16, 1]);
    d.extend_from_slice(&[128, 0, 17, 0, 7, 0, 1, 0, 0, 0, 0, 0, 9, 0x15, 0x7c, 0x15, 0x7c]);
    let h = read_headers(&d).unwrap();
    let noaa = h.noaa.unwrap();
    assert_eq!((noaa.product_id, noaa.product_subid, noaa.parameter, noaa.noaa_compression), (8, 1, 2, 3));
    let ts: TimeStampRecord = h.timestamp.unwrap();
    assert_eq!((ts.time_code, ts.days, ts.millis_of_day), (0x40, 0x5A5B, 1000));
    let rice = h.rice_compression.unwrap();
    assert_eq!((rice.flags, rice.pixels_per_block, rice.scanlines_per_packet), (0x31, 16, 1));
    let seg = h.img_segment.unwrap();
    assert_eq!((seg.image_id, seg.segment_seq, seg.max_segment, seg.max_column), (7, 1, 9, 5500));
}

#[test]
fn navigation_record_reads_signed_fields() {
    let mut d = vec![2u8, 0, 51];
    let mut name = b"GEOS(-137.0)".to_vec();
    name.resize(32, b' ');
    d.extend(name);
    d.extend_from_slice(&(-5i32).to_be_bytes());
    d.extend_from_slice(&7i32.to_be_bytes());
    d.extend_from_slice(&(-2_000_000_000i32).to_be_bytes());
    d.extend_from_slice(&i32::MAX.to_be_bytes());
    let r = ImageNavigationRecord::from_bytes(&d).unwrap();
    assert_eq!(r.projection_name, "GEOS(-137.0)");
    assert_eq!(r.column_scaling_factor, -5);
    assert_eq!(r.line_scaling_factor, 7);
    assert_eq!(r.column_offset, -2_000_000_000);
    assert_eq!(r.line_offset, i32::MAX);
}

#[test]
fn header_error_missing_primary() {
    assert_eq!(read_headers(&[0u8; 10]).unwrap_err(), HeaderError::MissingPrimary);
}

#[test]
fn header_error_bad_primary() {
    let mut d = primary(0, 16);
    d[2] = 17;
    assert_eq!(read_headers(&d).unwrap_err(), HeaderError::BadPrimary);
}

#[test]
fn header_error_repeated_primary() {
    let mut d = primary(0, 32);
    d.extend(primary(0, 32));
    assert_eq!(read_headers(&d).unwrap_err(), HeaderError::RepeatedPrimary);
}

#[test]
fn header_error_unknown_type() {
    let mut d = primary(0, 20);
    d.extend_from_slice(&[7, 0, 4, 0]);
    assert_eq!(read_headers(&d).unwrap_err(), HeaderError::UnknownType(7));
}

#[test]
fn header_error_truncated() {
    let mut d = primary(0, 28);
    d.extend_from_slice(&[4, 0, 20]);
    d.extend_from_slice(b"SHORT.TXT");
    assert_eq!(read_headers(&d).unwrap_err(), HeaderError::Truncated);
}

#[test]
fn header_error_buffer_shorter_than_total_header_length() {
    let mut d = primary(0, 100);
    d.extend_from_slice(&[1, 0, 84, 8, 0, 200, 0, 2, 1]);
    assert_eq!(d.len(), 25);
    assert_eq!(read_headers(&d).unwrap_err(), HeaderError::ExceedsBuffer);
}

#[test]
fn header_error_bad_record_length() {
    let mut d = primary(0, 20);
    d.extend_from_slice(&[4, 0, 2, 0]);
    assert_eq!(read_headers(&d).unwrap_err(), HeaderError::BadRecordLength);
}

#[test]
fn primary_only_headers() {
    let h = read_headers(&primary(2, 16)).unwrap();
    assert!(h.annotation.is_none());
    assert!(h.img_strucutre.is_none());
}
