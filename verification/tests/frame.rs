use netflow::frame::{
    checked_length, decode_length, encode_length, wrapped_length, HEADER_SIZE, LENGTH_SPAN,
};

#[test]
fn length_fields_are_big_endian() {
    assert_eq!(encode_length(0), [0, 0, 0, 0]);
    assert_eq!(encode_length(1), [0, 0, 0, 1]);
    assert_eq!(encode_length(0x0102_0304), [1, 2, 3, 4]);
    assert_eq!(encode_length(u32::MAX), [255, 255, 255, 255]);
    assert_eq!(encode_length(0).len(), HEADER_SIZE);
}

#[test]
fn length_fields_spell_lengths() {
    assert_eq!(decode_length([0, 0, 0, 0]), 0);
    assert_eq!(decode_length([0, 0, 1, 0]), 256);
    assert_eq!(decode_length([1, 2, 3, 4]), 0x0102_0304);
    assert_eq!(decode_length([255, 255, 255, 255]), u32::MAX);
}

#[test]
fn lengths_survive_the_round_trip() {
    for len in [0u32, 1, 255, 256, 65535, 65536, 16 * 1024 * 1024, u32::MAX] {
        assert_eq!(decode_length(encode_length(len)), len);
        assert_eq!(encode_length(len), len.to_be_bytes());
    }
}

#[test]
fn lengths_beyond_the_span_are_told_apart() {
    assert_eq!(LENGTH_SPAN, 4294967296);
    assert_eq!(checked_length(0), Some(0));
    assert_eq!(checked_length(0xffff_ffff), Some(u32::MAX));
    assert_eq!(checked_length(0x1_0000_0000), None);
    assert_eq!(checked_length(usize::MAX), None);
}

#[test]
fn lengths_beyond_the_span_wrap() {
    assert_eq!(wrapped_length(0xffff_ffff), u32::MAX);
    assert_eq!(wrapped_length(0x1_0000_0000), 0);
    assert_eq!(wrapped_length(0x1_0000_0003), 3);
}
