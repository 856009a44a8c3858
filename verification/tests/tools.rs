use cube_convert::tools::{accept_extracted, render_dpi, DEFAULT_DPI, MAX_DPI, MIN_DPI};

#[test]
fn resolution_is_read_from_its_setting() {
    assert_eq!(render_dpi(Some(b"150")), 150);
    assert_eq!(render_dpi(Some(b"50")), 50);
    assert_eq!(render_dpi(Some(b"600")), 600);
    assert_eq!(render_dpi(Some(b"+72")), 72);
    assert_eq!(render_dpi(Some(b"0300")), 300);
}

#[test]
fn resolution_out_of_range_falls_back_to_the_default() {
    assert_eq!((MIN_DPI, DEFAULT_DPI, MAX_DPI), (50, 120, 600));
    assert_eq!(render_dpi(None), 120);
    assert_eq!(render_dpi(Some(b"49")), 120);
    assert_eq!(render_dpi(Some(b"601")), 120);
    assert_eq!(render_dpi(Some(b"")), 120);
    assert_eq!(render_dpi(Some(b" 150")), 120);
    assert_eq!(render_dpi(Some(b"150dpi")), 120);
    assert_eq!(render_dpi(Some(b"-150")), 120);
    assert_eq!(render_dpi(Some(b"99999999999999999999999999999")), 120);
}

#[test]
fn extractor_output_is_taken_when_it_says_something() {
    assert_eq!(accept_extracted(true, b"hello\n"), Some("hello\n".to_string()));
    assert_eq!(accept_extracted(true, b"  x"), Some("  x".to_string()));
    assert_eq!(accept_extracted(true, &[b'a', 0xff, b'b']), Some("a\u{fffd}b".to_string()));
    assert_eq!(accept_extracted(true, b""), None);
    assert_eq!(accept_extracted(true, b" \n\t\r\n"), None);
    assert_eq!(accept_extracted(false, b"hello"), None);
}
