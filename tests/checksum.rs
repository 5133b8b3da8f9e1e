use dns_sampler::checksum::{internet_checksum, ones_complement_add};

#[test]
fn test_ones_complement_add() {
    assert_eq!(ones_complement_add(0xF000, 0x1009), 0x000A);
}

#[test]
fn test_internet_checksum() {
    let bs: [u8; 20] = [
        0x45, 0x00, 0x00, 0x5d, 0x36, 0x4d, 0x00, 0x00,
        0x3c, 0x11, 0x36, 0xb5, 0x80, 0x82, 0x04, 0x03,
        0x80, 0x82, 0x0c, 0x87,
    ];
    assert_eq!(internet_checksum(&bs), 0xFFFF);
}

#[test]
fn ones_complement_add_without_carry() {
    assert_eq!(ones_complement_add(0x1234, 0x0001), 0x1235);
    assert_eq!(ones_complement_add(0xFFFF, 0x0000), 0xFFFF);
}

#[test]
fn ones_complement_add_largest_carry() {
    assert_eq!(ones_complement_add(0xFFFF, 0xFFFF), 0xFFFF);
    assert_eq!(ones_complement_add(0x8000, 0x8000), 0x0001);
}

#[test]
fn checksum_of_empty_input() {
    // the sum of no words is 0, whose complement is 0xFFFF
    assert_eq!(internet_checksum(&[]), 0xFFFF);
}

#[test]
fn checksum_pads_odd_byte_on_the_right() {
    // one word 0xAB00: complement 0x54FF
    assert_eq!(internet_checksum(&[0xAB]), 0x54FF);
    // words 0x0102 and 0x0300 sum to 0x0402: complement 0xFBFD
    assert_eq!(internet_checksum(&[0x01, 0x02, 0x03]), 0xFBFD);
}

#[test]
fn checksum_of_all_ones_stays_all_ones() {
    assert_eq!(internet_checksum(&[0xFF, 0xFF]), 0xFFFF);
}

#[test]
fn stored_checksum_validates() {
    let mut header: [u8; 20] = [
        0x45, 0x00, 0x00, 0x5d, 0x36, 0x4d, 0x00, 0x00,
        0x3c, 0x11, 0x00, 0x00, 0x80, 0x82, 0x04, 0x03,
        0x80, 0x82, 0x0c, 0x87,
    ];
    let c = internet_checksum(&header);
    assert_eq!(c, 0x36b5);
    header[10] = (c >> 8) as u8;
    header[11] = (c & 0xFF) as u8;
    assert_eq!(internet_checksum(&header), 0xFFFF);
}

#[test]
fn stored_checksum_validates_odd_length() {
    let mut data: Vec<u8> = vec![0x00, 0x00, 0x12, 0x34, 0xAB];
    let c = internet_checksum(&data);
    data[0] = (c >> 8) as u8;
    data[1] = (c & 0xFF) as u8;
    assert_eq!(internet_checksum(&data), 0xFFFF);
}
