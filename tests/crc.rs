use goesbox::crc::{calc_crc16, calc_crc32};

#[test]
fn test_crc16() {
    assert_eq!(calc_crc16(b"123456789"), 0x29B1);
}

#[test]
fn test_crc32() {
    let crc = calc_crc32(b"123456789");
    assert_eq!(crc, 0xcbf43926, "crc32: {:x}", crc);
}

#[test]
fn crc16_of_empty_input_is_the_initial_value() {
    assert_eq!(calc_crc16(b""), 0xFFFF);
}
