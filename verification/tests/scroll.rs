use cube_convert::error::{ConvertError, InputError};
use cube_convert::scroll::{
    escape_path, flatten_text, hex_color, scroll_frames, FONT_SIZE, FRAME_RATE, SPEED,
    VIEWPORT_HEIGHT, VIEWPORT_WIDTH,
};

fn flat(text: &str) -> Result<String, ConvertError> {
    let chars: Vec<char> = text.chars().collect();
    flatten_text(&chars).map(|line| line.into_iter().collect())
}

#[test]
fn white_space_is_collapsed() {
    assert_eq!(flat("hello   world"), Ok("hello world".to_string()));
    assert_eq!(flat("  a \n\t b\r\nc  "), Ok("a b c".to_string()));
    assert_eq!(flat("one\u{a0}\u{2003}two"), Ok("one two".to_string()));
    assert_eq!(flat("plain"), Ok("plain".to_string()));
}

#[test]
fn nul_is_dropped_without_breaking_a_word() {
    assert_eq!(flat("a\0b"), Ok("ab".to_string()));
    assert_eq!(flat("a \0 b"), Ok("a b".to_string()));
    assert_eq!(flat("\0\0x\0"), Ok("x".to_string()));
}

#[test]
fn text_of_white_space_only_is_empty_data() {
    assert_eq!(flat(""), Err(ConvertError::Input(InputError::EmptyData)));
    assert_eq!(flat("  \n\t "), Err(ConvertError::Input(InputError::EmptyData)));
    assert_eq!(flat("\0"), Err(ConvertError::Input(InputError::EmptyData)));
    assert_eq!(flat(" \0 "), Err(ConvertError::Input(InputError::EmptyData)));
}

#[test]
fn frames_cover_viewport_and_text() {
    assert_eq!(scroll_frames(0), 300);
    assert_eq!(scroll_frames(1), 301);
    assert_eq!(scroll_frames(2), 301);
    assert_eq!(scroll_frames(1000), 800);
    assert_eq!(scroll_frames(1001), 801);
    assert_eq!(scroll_frames(u64::MAX), (u64::MAX / 2) + 301);
    assert_eq!((VIEWPORT_WIDTH, VIEWPORT_HEIGHT, FRAME_RATE, SPEED), (600, 224, 60, 2));
    assert_eq!(FONT_SIZE, 134);
}

#[test]
fn text_has_left_the_viewport_when_the_video_ends() {
    for width in [0u64, 1, 37, 600, 12345] {
        let frames = scroll_frames(width) as i64;
        let edge = VIEWPORT_WIDTH as i64 - SPEED as i64 * frames;
        assert!(edge + width as i64 <= 0);
        let before = VIEWPORT_WIDTH as i64 - SPEED as i64 * (frames - 1);
        assert!(before + width as i64 > 0);
    }
}

#[test]
fn colour_is_written_in_hexadecimal() {
    assert_eq!(hex_color([0, 0, 0]), b"0x000000".to_vec());
    assert_eq!(hex_color([255, 255, 255]), b"0xffffff".to_vec());
    assert_eq!(hex_color([1, 171, 16]), b"0x01ab10".to_vec());
    assert_eq!(hex_color([18, 52, 86]), b"0x123456".to_vec());
}

#[test]
fn paths_are_escaped_for_the_filter() {
    assert_eq!(escape_path(b"C:\\fonts\\a.ttf"), b"C\\:/fonts/a.ttf".to_vec());
    assert_eq!(escape_path(b"assets/font.ttf"), b"assets/font.ttf".to_vec());
    assert_eq!(escape_path(b"::"), b"\\:\\:".to_vec());
    assert_eq!(escape_path(b""), Vec::<u8>::new());
}

#[test]
fn every_white_space_character_becomes_a_blank() {
    let spaces = [
        '\u{9}', '\u{a}', '\u{b}', '\u{c}', '\u{d}', '\u{20}', '\u{85}', '\u{a0}', '\u{1680}',
        '\u{2000}', '\u{2001}', '\u{2002}', '\u{2003}', '\u{2004}', '\u{2005}', '\u{2006}',
        '\u{2007}', '\u{2008}', '\u{2009}', '\u{200a}', '\u{2028}', '\u{2029}', '\u{202f}',
        '\u{205f}', '\u{3000}',
    ];
    assert_eq!(spaces.len(), 25);
    for c in spaces {
        assert!(c.is_whitespace());
        assert_eq!(flat(&format!("a{c}{c}b")), Ok("a b".to_string()));
    }
    for c in ['\u{8}', '\u{e}', '\u{1f}', '\u{84}', '\u{86}', '\u{180e}', '\u{200b}', '\u{2060}', '\u{feff}'] {
        assert!(!c.is_whitespace());
        assert_eq!(flat(&format!("a{c}b")), Ok(format!("a{c}b")));
    }
}

#[test]
fn white_space_is_the_same_set_as_the_standard_one() {
    for code in 0..=0x10ffffu32 {
        if let Some(c) = char::from_u32(code) {
            if c == '\0' {
                continue;
            }
            let chars = vec!['a', c, 'b'];
            let line = flatten_text(&chars).unwrap();
            let expected = if c.is_whitespace() { vec!['a', ' ', 'b'] } else { vec!['a', c, 'b'] };
            assert_eq!(line, expected);
        }
    }
}

#[test]
fn flattened_line_has_single_blanks_only() {
    let line = flat(" \n one \t\t two\u{a0}\u{3000}three \r\n").unwrap();
    assert_eq!(line, "one two three");
    assert!(!line.contains("  "));
    assert!(line.chars().all(|c| c == ' ' || !c.is_whitespace()));
    assert!(!line.starts_with(' ') && !line.ends_with(' '));
}
