use spirv_webgpu_transform::{u32_slice_to_u8_vec, u8_slice_to_u32_vec};
use spirv_webgpu_transform::util::{
    encode_word, hiword, literal_to_string_le, loword, string_to_literal_le,
};

#[test]
fn test_literal_string_parsing() {
    let s = "GLSL.std.450".to_owned();
    let u32_vec = string_to_literal_le(&s);
    assert_eq!(u32_vec, vec![1280527431, 1685353262, 808793134]);
    let final_s = literal_to_string_le(&u32_vec);
    assert_eq!(Ok(s), final_s);
}

#[test]
fn literal_padding_with_zero_bytes() {
    // "abcde" is five bytes: the second word carries 'e' and three zero bytes.
    let words = string_to_literal_le("abcde");
    assert_eq!(words, vec![0x6463_6261, 0x0000_0065]);
    assert_eq!(literal_to_string_le(&words), Ok("abcde\0\0\0".to_owned()));
}

#[test]
fn literal_empty_string() {
    assert_eq!(string_to_literal_le(""), Vec::<u32>::new());
    assert_eq!(literal_to_string_le(&[]), Ok(String::new()));
}

#[test]
fn literal_invalid_utf8() {
    // 0xFF is never a valid UTF-8 byte.
    assert_eq!(literal_to_string_le(&[0x0000_00FF]), Err(std::str::from_utf8(&[0xFF, 0, 0, 0]).unwrap_err()));
}

#[test]
fn words_split_and_join() {
    let w = encode_word(4, 61);
    assert_eq!(w, 0x0004_003D);
    assert_eq!(hiword(w), 4);
    assert_eq!(loword(w), 61);
    assert_eq!(hiword(0xFFFF_0000), 0xFFFF);
    assert_eq!(loword(0xFFFF_0000), 0);
}

#[test]
fn bytes_and_words_convert_little_endian_both_ways() {
    let bytes = vec![0x03, 0x02, 0x23, 0x07, 0x00, 0x00, 0x01, 0x00];
    let words = u8_slice_to_u32_vec(&bytes);
    assert_eq!(words, vec![0x0723_0203, 0x0001_0000]);
    assert_eq!(u32_slice_to_u8_vec(&words), bytes);
    assert_eq!(u8_slice_to_u32_vec(&u32_slice_to_u8_vec(&[0xDEAD_BEEF, 7])), vec![0xDEAD_BEEF, 7]);
    assert!(u8_slice_to_u32_vec(&[]).is_empty());
}
