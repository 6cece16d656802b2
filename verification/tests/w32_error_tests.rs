use std::collections::hash_map::DefaultHasher;
use std::hash::Hash;
use std::hash::Hasher;

use w32_error::TryFromIoError;
use w32_error::W32Error;

#[test]
fn wrap_round_trip_identity() {
    assert_eq!(W32Error::new(0).into_inner(), 0);
    assert_eq!(W32Error::new(1).into_inner(), 1);
    assert_eq!(W32Error::new(0xDEADBEEF).into_inner(), 0xDEADBEEF);
    assert_eq!(W32Error::new(u32::MAX).into_inner(), u32::MAX);
}

#[test]
fn equality_matches_raw_codes() {
    assert_eq!(W32Error::new(5), W32Error::new(5));
    assert_ne!(W32Error::new(5), W32Error::new(6));
    assert_eq!(W32Error::new(0), W32Error::from(0u32));
}

#[test]
fn ordering_matches_raw_codes() {
    assert!(W32Error::new(1) < W32Error::new(2));
    assert!(W32Error::new(2) > W32Error::new(1));
    assert!(W32Error::new(7) <= W32Error::new(7));
    let mut v = vec![W32Error::new(3), W32Error::new(1), W32Error::new(2)];
    v.sort();
    assert_eq!(v, vec![W32Error::new(1), W32Error::new(2), W32Error::new(3)]);
}

#[test]
fn hashing_matches_raw_code_hash() {
    let mut wrapped = DefaultHasher::new();
    W32Error::new(12345).hash(&mut wrapped);
    let mut raw = DefaultHasher::new();
    12345u32.hash(&mut raw);
    assert_eq!(wrapped.finish(), raw.finish());
}

#[test]
fn fallback_render_for_failed_lookup() {
    let e = W32Error::new(0xDEADBEEF);
    assert_eq!(e.render_message(&Vec::new()), "0xDEADBEEF");
}

#[test]
fn fallback_render_is_zero_padded() {
    assert_eq!(W32Error::new(0).render_message(&Vec::new()), "0x000000");
    assert_eq!(W32Error::new(0xABC).render_message(&Vec::new()), "0x000ABC");
    assert_eq!(W32Error::new(0x1000000).render_message(&Vec::new()), "0x1000000");
    assert_eq!(W32Error::new(u32::MAX).render_message(&Vec::new()), "0xFFFFFFFF");
}

#[test]
fn render_trims_whitespace() {
    let units: Vec<u16> = "  hello world\r\n".encode_utf16().collect();
    assert_eq!(units.len(), 15);
    assert_eq!(W32Error::new(1).render_message(&units), "hello world");
}

#[test]
fn render_of_whitespace_only_is_empty() {
    let units: Vec<u16> = " \t\r\n ".encode_utf16().collect();
    assert_eq!(W32Error::new(1).render_message(&units), "");
}

#[test]
fn render_replaces_invalid_units() {
    let units: Vec<u16> = vec![0x61, 0xD800, 0x62, 0xDFFF, 0x63];
    assert_eq!(W32Error::new(1).render_message(&units), "a\u{FFFD}b\u{FFFD}c");
}

#[test]
fn render_decodes_each_unit_alone() {
    // Even a well-formed surrogate pair is decoded unit by unit, one
    // character per unit: two replacement characters.
    let units: Vec<u16> = vec![0x61, 0xD83D, 0xDE00, 0x62];
    assert_eq!(W32Error::new(1).render_message(&units), "a\u{FFFD}\u{FFFD}b");
}

#[test]
fn decode_message_is_one_char_per_unit() {
    let units: Vec<u16> = vec![0x48, 0x69, 0xD800];
    let chars = w32_error::render::decode_message(&units);
    assert_eq!(chars, vec!['H', 'i', '\u{FFFD}']);
}

#[test]
fn trim_whitespace_keeps_inner_runs() {
    let chars: Vec<char> = " \t a b \n".chars().collect();
    assert_eq!(w32_error::render::trim_whitespace(&chars), vec!['a', ' ', 'b']);
}

#[test]
fn trim_whitespace_of_empty_is_empty() {
    let chars: Vec<char> = Vec::new();
    assert_eq!(w32_error::render::trim_whitespace(&chars), Vec::<char>::new());
}

#[test]
fn fallback_text_shape() {
    let t = w32_error::render::fallback_text(0x2A);
    assert_eq!(t, vec!['0', 'x', '0', '0', '0', '0', '2', 'A']);
}

#[test]
fn from_io_error_extracts_code() {
    let io_err = std::io::Error::from_raw_os_error(0);
    assert_eq!(W32Error::from_io_error(&io_err), Some(W32Error::new(0)));
    let io_err = std::io::Error::from_raw_os_error(5);
    assert_eq!(W32Error::from_io_error(&io_err), Some(W32Error::new(5)));
}

#[test]
fn from_io_error_keeps_bit_pattern() {
    let io_err = std::io::Error::from_raw_os_error(-1);
    assert_eq!(W32Error::from_io_error(&io_err), Some(W32Error::new(u32::MAX)));
}

#[test]
fn to_io_error_round_trip() {
    let e = W32Error::new(1234);
    assert_eq!(e.to_io_error().raw_os_error(), Some(1234));
    let e = W32Error::new(0xDEADBEEF);
    let io_err = e.to_io_error();
    assert_eq!(W32Error::from_io_error(&io_err), Some(e));
}

#[test]
fn try_from_io_error_extracts_code() {
    let io_err = std::io::Error::from_raw_os_error(7);
    assert_eq!(W32Error::try_from_io_error(io_err), Ok(W32Error::new(7)));
}

#[test]
fn conversion_failure_without_raw_code() {
    let io_err = std::io::Error::new(std::io::ErrorKind::Other, "no raw code");
    assert_eq!(W32Error::from_io_error(&io_err), None);
    let io_err = std::io::Error::new(std::io::ErrorKind::Other, "no raw code");
    assert_eq!(W32Error::try_from_io_error(io_err), Err(TryFromIoError));
}

#[test]
fn try_from_failure_message() {
    assert_eq!(
        TryFromIoError.message(),
        "the given `io::Error` did not contain a Windows API error code"
    );
}
