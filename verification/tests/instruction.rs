use prop_amm::instruction::{
    decode_after_swap, decode_instruction, encode_after_swap, encode_instruction,
    encode_swap_instruction, AFTER_SWAP_SIZE, INSTRUCTION_SIZE, STORAGE_SIZE,
    SWAP_INSTRUCTION_SIZE,
};

#[test]
fn instruction_test_roundtrip() {
    let side = 1u8;
    let amount = 123_456_789_000u64;
    let rx = 100_000_000_000u64;
    let ry = 10_000_000_000_000u64;

    let encoded = encode_instruction(side, amount, rx, ry);
    let (s, a, x, y) = decode_instruction(&encoded);

    assert_eq!(s, side);
    assert_eq!(a, amount);
    assert_eq!(x, rx);
    assert_eq!(y, ry);
}

#[test]
fn test_swap_instruction_with_storage() {
    let storage = [0xAB; STORAGE_SIZE];
    let data = encode_swap_instruction(0, 1000, 2000, 3000, &storage);
    assert_eq!(data.len(), SWAP_INSTRUCTION_SIZE);
    let (side, amount, rx, ry) = decode_instruction(&data);
    assert_eq!(side, 0);
    assert_eq!(amount, 1000);
    assert_eq!(rx, 2000);
    assert_eq!(ry, 3000);
    assert_eq!(&data[25..], &storage[..]);
}

#[test]
fn test_after_swap_roundtrip() {
    let storage = [0xCD; STORAGE_SIZE];
    let data = encode_after_swap(1, 100, 200, 300, 400, &storage);
    assert_eq!(data.len(), AFTER_SWAP_SIZE);
    let (side, inp, out, rx, ry, stor) = decode_after_swap(&data);
    assert_eq!(side, 1);
    assert_eq!(inp, 100);
    assert_eq!(out, 200);
    assert_eq!(rx, 300);
    assert_eq!(ry, 400);
    assert_eq!(stor, &storage[..]);
}

#[test]
fn header_bytes_are_little_endian() {
    let header = encode_instruction(1, 0x0102_0304_0506_0708, 1, u64::MAX);
    assert_eq!(header.len(), INSTRUCTION_SIZE);
    assert_eq!(header[0], 1);
    assert_eq!(&header[1..9], &[8, 7, 6, 5, 4, 3, 2, 1]);
    assert_eq!(&header[9..17], &[1, 0, 0, 0, 0, 0, 0, 0]);
    assert_eq!(&header[17..25], &[0xFF; 8]);
}

#[test]
fn short_storage_is_zero_filled_and_long_storage_is_cut() {
    let short = encode_swap_instruction(0, 1, 2, 3, &[7, 8, 9]);
    assert_eq!(short.len(), SWAP_INSTRUCTION_SIZE);
    assert_eq!(&short[25..28], &[7, 8, 9]);
    assert!(short[28..].iter().all(|b| *b == 0));

    let long = vec![0x11u8; STORAGE_SIZE + 50];
    let cut = encode_after_swap(0, 1, 2, 3, 4, &long);
    assert_eq!(cut.len(), AFTER_SWAP_SIZE);
    assert_eq!(cut[0], 2);
    assert!(cut[34..].iter().all(|b| *b == 0x11));
}
