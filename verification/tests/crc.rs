use lorawan_nvm::crc::crc32;

#[test]
fn crc_check_value() {
    assert_eq!(crc32(0, b"123456789"), 0xCBF4_3926);
    assert_eq!(crc32(0, b""), 0);
}

#[test]
fn crc_continues() {
    assert_eq!(crc32(crc32(0, b"12345"), b"6789"), 0xCBF4_3926);
    assert_eq!(crc32(crc32(0, b""), b"123456789"), 0xCBF4_3926);
    assert_eq!(crc32(7, b""), 7);
}

#[test]
fn crc_sees_four_damaged_bytes() {
    let good = [0u8; 20];
    for at in 0..17 {
        let mut bad = good;
        bad[at] = 0x20;
        bad[at + 1] = 0x83;
        bad[at + 2] = 0xB8;
        bad[at + 3] = 0xED;
        assert_ne!(crc32(0, &good), crc32(0, &bad));
    }
}
