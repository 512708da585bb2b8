use typeslice::{pop, Pop};

#[test]
fn no_bytes_is_empty() {
    assert_eq!(pop(&[]), Pop::Empty);
}

#[test]
fn ascii_is_one_byte() {
    assert_eq!(pop(&[0x68]), Pop::Scalar('h'));
    assert_eq!(pop(&[0x00]), Pop::Scalar('\0'));
    assert_eq!(pop(&[0x7F]), Pop::Scalar('\u{7F}'));
    assert_eq!(pop(b"hello"), Pop::Scalar('h'));
    assert_eq!(pop(&[0x68, 0xFF, 0xFF]), Pop::Scalar('h'));
}

#[test]
fn lead_byte_without_its_continuation_is_truncated() {
    assert_eq!(pop(&[0xC2]), Pop::Truncated);
    assert_eq!(pop(&[0xE2]), Pop::Truncated);
    assert_eq!(pop(&[0xE2, 0x82]), Pop::Truncated);
    assert_eq!(pop(&[0xF0]), Pop::Truncated);
    assert_eq!(pop(&[0xF0, 0x9F]), Pop::Truncated);
    assert_eq!(pop(&[0xF0, 0x9F, 0x98]), Pop::Truncated);
}

#[test]
fn two_bytes() {
    assert_eq!(pop(&[0xC2, 0xA2]), Pop::Scalar('\u{A2}'));
    assert_eq!(pop(&[0xC3, 0xA9]), Pop::Scalar('é'));
    assert_eq!(pop(&[0xDF, 0xBF]), Pop::Scalar('\u{7FF}'));
    assert_eq!(pop("éa".as_bytes()), Pop::Scalar('é'));
}

#[test]
fn three_bytes() {
    assert_eq!(pop(&[0xE2, 0x82, 0xAC]), Pop::Scalar('€'));
    assert_eq!(pop(&[0xEF, 0xBF, 0xBF]), Pop::Scalar('\u{FFFF}'));
    assert_eq!(pop(&[0xED, 0x9F, 0xBF]), Pop::Scalar('\u{D7FF}'));
    assert_eq!(pop(&[0xEE, 0x80, 0x80]), Pop::Scalar('\u{E000}'));
}

#[test]
fn four_bytes() {
    assert_eq!(pop(&[0xF0, 0x9F, 0x98, 0x80]), Pop::Scalar('\u{1F600}'));
    assert_eq!(pop(&[0xF4, 0x8F, 0xBF, 0xBF]), Pop::Scalar('\u{10FFFF}'));
    assert_eq!(pop("😀!".as_bytes()), Pop::Scalar('😀'));
}

#[test]
fn surrogates_are_invalid() {
    assert_eq!(pop(&[0xED, 0xA0, 0x80]), Pop::Invalid);
    assert_eq!(pop(&[0xED, 0xBF, 0xBF]), Pop::Invalid);
}

#[test]
fn values_past_the_last_code_point_are_invalid() {
    assert_eq!(pop(&[0xF4, 0x90, 0x80, 0x80]), Pop::Invalid);
    assert_eq!(pop(&[0xF7, 0xBF, 0xBF, 0xBF]), Pop::Invalid);
}

#[test]
fn a_continuation_byte_in_front_is_read_as_a_lead_of_two() {
    assert_eq!(pop(&[0x80]), Pop::Truncated);
    assert_eq!(pop(&[0x80, 0x80]), Pop::Scalar('\0'));
    assert_eq!(pop(&[0xBF, 0xBF]), Pop::Scalar('\u{7FF}'));
}

#[test]
fn only_payload_bits_are_read() {
    assert_eq!(pop(&[0xC2, 0x22]), Pop::Scalar('\u{A2}'));
    assert_eq!(pop(&[0xF8, 0x9F, 0x98, 0x80]), Pop::Scalar('\u{1F600}'));
}

#[test]
fn every_char_decodes_to_itself() {
    let mut buffer = [0u8; 4];
    for scalar in ['a', 'ß', 'ग', '한', '𝄞', '\u{10FFFF}', '\u{80}', '\u{800}', '\u{10000}'] {
        let encoded = scalar.encode_utf8(&mut buffer);
        assert_eq!(pop(encoded.as_bytes()), Pop::Scalar(scalar));
    }
}
