use cube_convert::ascii::{
    after_spaces, after_word, byte_is_space, contains_bytes, matches_at, push_decimal,
    push_padded_decimal, trim,
};
use cube_convert::cancel::{checkpoint, CancellationToken};
use cube_convert::digits::{ascii_digits, read_group};
use cube_convert::error::{ConvertError, InputError};

#[test]
fn ascii_white_space() {
    for b in [b' ', b'\t', b'\n', 0x0b, 0x0c, b'\r'] {
        assert!(byte_is_space(b));
    }
    for b in [0u8, 8, 14, b'a', b'0', 0x85, 0xa0] {
        assert!(!byte_is_space(b));
    }
}

#[test]
fn trim_cuts_both_ends() {
    assert_eq!(trim(b"  a b \r\n"), b"a b".to_vec());
    assert_eq!(trim(b"a"), b"a".to_vec());
    assert_eq!(trim(b" \t "), Vec::<u8>::new());
    assert_eq!(trim(b""), Vec::<u8>::new());
}

#[test]
fn words_and_spaces_are_skipped() {
    assert_eq!(after_spaces(b"  ab  cd", 0), 2);
    assert_eq!(after_spaces(b"  ab  cd", 2), 2);
    assert_eq!(after_word(b"  ab  cd", 2), 4);
    assert_eq!(after_spaces(b"  ab  cd", 4), 6);
    assert_eq!(after_word(b"  ab  cd", 6), 8);
    assert_eq!(after_spaces(b"   ", 0), 3);
    assert_eq!(after_word(b"abc", 3), 3);
}

#[test]
fn search_finds_a_pattern_anywhere() {
    assert!(contains_bytes(b"hello world", b"lo w"));
    assert!(contains_bytes(b"hello", b"hello"));
    assert!(contains_bytes(b"hello", b""));
    assert!(contains_bytes(b"", b""));
    assert!(!contains_bytes(b"hello", b"hello!"));
    assert!(!contains_bytes(b"", b"a"));
    assert!(contains_bytes(b"aab", b"ab"));
    assert!(matches_at(b"hello", 1, b"ell"));
    assert!(!matches_at(b"hello", 3, b"low"));
    assert!(!matches_at(b"hello", 9, b""));
    assert!(matches_at(b"hello", 5, b""));
}

#[test]
fn numbers_are_written_in_decimal() {
    let mut out = b"n=".to_vec();
    push_decimal(&mut out, 0);
    push_decimal(&mut out, 1203);
    assert_eq!(out, b"n=01203".to_vec());
    let mut big = Vec::new();
    push_decimal(&mut big, u64::MAX);
    assert_eq!(big, b"18446744073709551615".to_vec());
    let mut padded = Vec::new();
    push_padded_decimal(&mut padded, 7, 4);
    push_padded_decimal(&mut padded, 12345, 4);
    push_padded_decimal(&mut padded, 0, 0);
    assert_eq!(padded, b"0007123450".to_vec());
}

#[test]
fn digits_are_picked_out_of_text() {
    assert_eq!(ascii_digits(b"a1b22c\n333 "), b"122333".to_vec());
    assert_eq!(ascii_digits("١٢٣ ４５".as_bytes()), Vec::<u8>::new());
    assert_eq!(ascii_digits(b""), Vec::<u8>::new());
}

#[test]
fn groups_of_digits_are_numbers() {
    assert_eq!(read_group(b"123456", 0, 3), 123);
    assert_eq!(read_group(b"123456", 3, 6), 456);
    assert_eq!(read_group(b"123456", 4, 6), 56);
    assert_eq!(read_group(b"007", 0, 3), 7);
    assert_eq!(read_group(b"9", 0, 0), 0);
    assert_eq!(read_group(b"999", 0, 3), 999);
}

#[test]
fn token_starts_clear_and_stays_set() {
    let token = CancellationToken::new();
    assert!(!token.is_cancelled());
    let copy = token.clone();
    copy.cancel();
    assert!(token.is_cancelled());
    assert!(copy.is_cancelled());
    token.cancel();
    assert!(token.is_cancelled());
    assert!(!CancellationToken::new().is_cancelled());
}

#[test]
fn every_error_has_its_text() {
    assert_eq!(ConvertError::Input(InputError::NoFiles).message(), "No eligible files found");
    assert_eq!(
        ConvertError::Input(InputError::WrongFileType).message(),
        "Selected file is not of the expected type"
    );
    assert_eq!(
        ConvertError::Input(InputError::EmptyData).message(),
        "No usable data found in the source"
    );
    assert_eq!(ConvertError::Input(InputError::InvalidRate).message(), "Pulse rate out of range");
    let mismatch = InputError::DimensionMismatch {
        image: 12,
        width: 0,
        height: 4294967295,
        first_width: 10,
        first_height: 7,
    };
    assert_eq!(
        ConvertError::Input(mismatch).message(),
        "Image dimension mismatch: image 12 is 0x4294967295, but the images before it are \
         10x7. All images must have the same dimensions."
    );
    assert_eq!(
        ConvertError::AssetMissing("assets/Wind_Loop.wav".to_string()).message(),
        "assets/Wind_Loop.wav not found"
    );
    assert_eq!(
        ConvertError::Extraction("bad xref".to_string()).message(),
        "extraction failed: bad xref"
    );
    assert_eq!(
        ConvertError::Spawn("ffmpeg".to_string()).message(),
        "failed to spawn 'ffmpeg'. Hint: install it or set its path."
    );
    assert_eq!(
        ConvertError::Workspace("disk full".to_string()).message(),
        "workspace failure: disk full"
    );
    assert_eq!(ConvertError::Cancelled.message(), "Cancelled.");
}

#[test]
fn encoder_exit_shows_diagnostic_or_status() {
    let with_line = ConvertError::EncoderExit {
        status: Some(1),
        diagnostic: Some(b"Invalid data found".to_vec()),
    };
    assert_eq!(with_line.message(), "Encoder error: Invalid data found");
    let lossy = ConvertError::EncoderExit { status: None, diagnostic: Some(vec![b'a', 0xff, b'b']) };
    assert_eq!(lossy.message(), "Encoder error: a\u{fffd}b");
    let coded = ConvertError::EncoderExit { status: Some(-11), diagnostic: None };
    assert_eq!(coded.message(), "encoder exited with status -11");
    let low = ConvertError::EncoderExit { status: Some(i32::MIN), diagnostic: None };
    assert_eq!(low.message(), "encoder exited with status -2147483648");
    let zero = ConvertError::EncoderExit { status: Some(0), diagnostic: None };
    assert_eq!(zero.message(), "encoder exited with status 0");
    let killed = ConvertError::EncoderExit { status: None, diagnostic: None };
    assert_eq!(killed.message(), "encoder was stopped before it exited");
}

#[test]
fn cancellation_is_told_from_failure() {
    assert!(ConvertError::Cancelled.is_cancelled());
    assert!(!ConvertError::Input(InputError::NoFiles).is_cancelled());
    assert!(!ConvertError::Spawn("x".to_string()).is_cancelled());
}

#[test]
fn a_poll_goes_on_or_ends_in_a_cancellation() {
    assert_eq!(checkpoint(false), Ok(()));
    assert_eq!(checkpoint(true), Err(ConvertError::Cancelled));
}
