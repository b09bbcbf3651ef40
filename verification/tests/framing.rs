use salamandra::connection::{decode_message, encode_message, try_decode_message};
use salamandra::text::eq_ignore_ascii_case;

#[test]
fn decode_keeps_graphic_ascii_only() {
    let mut frame = b"OK\r".to_vec();
    assert_eq!(decode_message(&mut frame), "OK");
    let mut frame = b"hello world\r\n".to_vec();
    assert_eq!(decode_message(&mut frame), "helloworld");
    let mut frame = "h\u{e9}llo\t!~".as_bytes().to_vec();
    assert_eq!(decode_message(&mut frame), "hllo!~");
    let mut frame: Vec<u8> = Vec::new();
    assert_eq!(decode_message(&mut frame), "");
}

#[test]
fn decode_leaves_the_buffer_alone() {
    let mut frame = b" a b \r".to_vec();
    let copy = frame.clone();
    assert_eq!(decode_message(&mut frame), "ab");
    assert_eq!(frame, copy);
}

#[test]
fn try_decode_refuses_invalid_utf8() {
    assert_eq!(try_decode_message(&[0x4f, 0xff, 0x4b]), None);
    assert_eq!(try_decode_message(&[0xc0, 0x80]), None);
    assert_eq!(try_decode_message(&[0xed, 0xa0, 0x80]), None);
    assert_eq!(try_decode_message(b"downloaded\r"), Some(String::from("downloaded")));
}

#[test]
fn encode_appends_carriage_return() {
    assert_eq!(encode_message("OK").unwrap(), vec![0x4f, 0x4b, 0x0d]);
    assert_eq!(encode_message("").unwrap(), vec![0x0d]);
    assert_eq!(
        encode_message("http://192.168.1.161:8080/shared/a b").unwrap(),
        b"http://192.168.1.161:8080/shared/a b\r".to_vec()
    );
}

#[test]
fn encode_refuses_non_ascii() {
    let err = encode_message("caf\u{e9}").unwrap_err();
    assert_eq!(err.cause, "unrepresentable character");
    assert!(encode_message("\u{1f600}").is_err());
}

#[test]
fn frame_round_trip() {
    for text in ["client-record", "downloaded", "OK", "ERROR", "http://192.168.1.161:8080/shared/android.tar.gz"] {
        let mut frame = encode_message(text).unwrap();
        assert_eq!(decode_message(&mut frame), text);
    }
    let mut frame = encode_message("a b\tc").unwrap();
    assert_eq!(decode_message(&mut frame), "abc");
}

#[test]
fn ascii_case_insensitive_comparison() {
    assert!(eq_ignore_ascii_case("OK", "ok"));
    assert!(eq_ignore_ascii_case("DownLoaded", "downloaded"));
    assert!(!eq_ignore_ascii_case("OK", "OK "));
    assert!(!eq_ignore_ascii_case("OK", "NO"));
    assert!(!eq_ignore_ascii_case("\u{c9}", "\u{e9}"));
    assert!(eq_ignore_ascii_case("", ""));
    assert!(eq_ignore_ascii_case("[@]", "[@]"));
    assert!(!eq_ignore_ascii_case("[", "{"));
}
