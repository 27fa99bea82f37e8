use inferno_aoip::text::{
    decimal_text, number_text, read_0term_str_from_buffer, write_str_to_buffer, ReadTextError,
};
use inferno_aoip::wire::{make_u16, H, L};

#[test]
fn two_bytes_make_a_number() {
    assert_eq!(make_u16(0x12, 0x34), 0x1234);
    assert_eq!(make_u16(0, 0), 0);
    assert_eq!(make_u16(0xff, 0xff), 0xffff);
}

#[test]
fn a_number_splits_into_its_bytes() {
    assert_eq!(H(0x1234), 0x12);
    assert_eq!(L(0x1234), 0x34);
    for v in [0u16, 1, 255, 256, 0x8112, 0xffff] {
        assert_eq!(make_u16(H(v), L(v)), v);
    }
}

#[test]
fn numbers_are_written_without_leading_zeros() {
    assert_eq!(decimal_text(0), "0");
    assert_eq!(decimal_text(9), "9");
    assert_eq!(decimal_text(10), "10");
    assert_eq!(decimal_text(48000), "48000");
    assert_eq!(decimal_text(u64::MAX), "18446744073709551615");
    assert_eq!(number_text(0xdead, 16), "dead");
    assert_eq!(number_text(5, 2), "101");
}

#[test]
fn text_is_read_up_to_its_zero() {
    let packet = b"xxabc\0def\0";
    assert_eq!(read_0term_str_from_buffer(packet, 2), Ok("abc".to_string()));
    assert_eq!(read_0term_str_from_buffer(packet, 6), Ok("def".to_string()));
    assert_eq!(read_0term_str_from_buffer(packet, 5), Ok(String::new()));
}

#[test]
fn text_outside_ascii_is_read() {
    let packet = "\u{17c}\u{f3}\u{142}w\0".as_bytes();
    assert_eq!(read_0term_str_from_buffer(packet, 0), Ok("\u{17c}\u{f3}\u{142}w".to_string()));
}

#[test]
fn text_without_a_zero_is_refused() {
    assert_eq!(read_0term_str_from_buffer(b"abc", 0), Err(ReadTextError::Unterminated));
    assert_eq!(read_0term_str_from_buffer(b"abc\0", 4), Err(ReadTextError::Unterminated));
    assert_eq!(read_0term_str_from_buffer(b"abc\0", usize::MAX), Err(ReadTextError::Unterminated));
}

#[test]
fn bytes_that_are_no_text_are_refused() {
    assert_eq!(read_0term_str_from_buffer(&[0xff, 0xfe, 0], 0), Err(ReadTextError::NotUtf8));
    assert_eq!(read_0term_str_from_buffer(&[0xc3, 0], 0), Err(ReadTextError::NotUtf8));
}

#[test]
fn text_fills_at_most_its_field() {
    let mut buffer = vec![b'.'; 8];
    write_str_to_buffer(&mut buffer, 2, 4, "abcdefgh");
    assert_eq!(buffer, b"..abcd..");
    write_str_to_buffer(&mut buffer, 2, 4, "X");
    assert_eq!(buffer, b"..Xbcd..");
    write_str_to_buffer(&mut buffer, 8, 0, "abc");
    assert_eq!(buffer, b"..Xbcd..");
}
