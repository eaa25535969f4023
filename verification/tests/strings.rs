use debugfs::cstr::CStr;
use debugfs::types::Mode;

#[test]
fn bytes_without_zero_make_a_c_string() {
    assert_eq!(CStr::new(b"sample").map(|s| s.as_bytes()), Some(&b"sample"[..]));
    assert_eq!(CStr::new(b"").map(|s| s.as_bytes()), Some(&b""[..]));
    assert_eq!(CStr::new(b"\xff").map(|s| s.as_bytes()), Some(&b"\xff"[..]));
}

#[test]
fn a_zero_byte_makes_no_c_string() {
    assert!(CStr::new(b"\0").is_none());
    assert!(CStr::new(b"a\0b").is_none());
    assert!(CStr::new(b"ab\0").is_none());
}

#[test]
fn mode_keeps_its_bits() {
    assert_eq!(Mode::from_int(0o644).as_int(), 0o644);
    assert_eq!(Mode::from_int(u16::MAX).as_int(), u16::MAX);
}
