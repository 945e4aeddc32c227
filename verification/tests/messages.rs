use syntro_rdp::protocol::{decimal_bytes, encode_init_message, is_init, ScreenSize};

#[test]
fn decimal_numerals() {
    assert_eq!(decimal_bytes(0), b"0".to_vec());
    assert_eq!(decimal_bytes(7), b"7".to_vec());
    assert_eq!(decimal_bytes(10), b"10".to_vec());
    assert_eq!(decimal_bytes(1920), b"1920".to_vec());
    assert_eq!(decimal_bytes(usize::MAX), usize::MAX.to_string().into_bytes());
}

#[test]
fn announcement_bytes() {
    assert_eq!(
        encode_init_message(1920, 1080),
        br#"{"type":"init","width":1920,"height":1080}"#.to_vec()
    );
    assert_eq!(encode_init_message(0, 2), br#"{"type":"init","width":0,"height":2}"#.to_vec());
}

#[test]
fn announcement_is_recognised() {
    for (w, h) in [(1920, 1080), (0, 0), (2, 3840), (123456, 7)] {
        assert!(is_init(&encode_init_message(w, h)));
    }
    assert!(is_init(br#"{"type":"init"}"#));
}

#[test]
fn other_payloads_are_not_announcements() {
    assert!(!is_init(b""));
    assert!(!is_init(br#"{"type":"ini"#));
    assert!(!is_init(br#"{"type":"frame","data":""}"#));
    assert!(!is_init(&[0, 0, 0, 1, 0x67, 0x42]));
    assert!(!is_init(br#" {"type":"init"}"#));
}

#[test]
fn screen_size_holds_its_sides() {
    let s = ScreenSize { width: 1280, height: 720 };
    let t = s;
    assert_eq!(t, ScreenSize { width: 1280, height: 720 });
}
