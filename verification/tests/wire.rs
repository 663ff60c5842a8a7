use prop_amm::wire::{get_u16_le, get_u64_le, put_u64_le};

#[test]
fn integers_are_written_low_byte_first() {
    let mut buf = [0xEEu8; 12];
    put_u64_le(&mut buf, 2, 0x1122_3344_5566_7788);
    assert_eq!(buf, [0xEE, 0xEE, 0x88, 0x77, 0x66, 0x55, 0x44, 0x33, 0x22, 0x11, 0xEE, 0xEE]);
    assert_eq!(get_u64_le(&buf, 2), 0x1122_3344_5566_7788);
    assert_eq!(get_u16_le(&buf, 2), 0x7788);
    assert_eq!(get_u16_le(&buf, 9), 0xEE11);
}

#[test]
fn written_integers_read_back_and_match_the_standard_encoding() {
    let mut x = 0x9E37_79B9_7F4A_7C15u64;
    for _ in 0..1_000 {
        x ^= x << 13;
        x ^= x >> 7;
        x ^= x << 17;
        let mut buf = [0u8; 8];
        put_u64_le(&mut buf, 0, x);
        assert_eq!(buf, x.to_le_bytes());
        assert_eq!(get_u64_le(&buf, 0), x);
        assert_eq!(get_u16_le(&buf, 3), u16::from_le_bytes([buf[3], buf[4]]));
    }
    for x in [0u64, 1, 255, 256, u64::MAX, u64::MAX - 1, 1 << 63] {
        let mut buf = [0xFFu8; 8];
        put_u64_le(&mut buf, 0, x);
        assert_eq!(buf, x.to_le_bytes());
        assert_eq!(get_u64_le(&buf, 0), x);
    }
}
