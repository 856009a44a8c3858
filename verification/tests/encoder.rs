use cube_convert::encoder::{
    after_streaming, frame_number, is_fatal_line, next_step, read_count, Directive, Exit,
    Supervisor,
};
use cube_convert::error::ConvertError;

#[test]
fn frame_counter_is_read_from_a_status_line() {
    assert_eq!(frame_number(b"frame=  123 fps= 25 q=28.0 size=     256kB time=00:00:04.92"), Some(123));
    assert_eq!(frame_number(b"frame=45 fps=25"), Some(45));
    assert_eq!(frame_number(b"  \tframe=7\r"), Some(7));
    assert_eq!(frame_number(b"fps=25 frame= 9000 q=1"), Some(9000));
    assert_eq!(frame_number(b"frame= +12"), Some(12));
    assert_eq!(frame_number(b"frame=0"), Some(0));
    assert_eq!(frame_number(b"frame=007"), Some(7));
}

#[test]
fn line_without_a_counter_gives_none() {
    assert_eq!(frame_number(b""), None);
    assert_eq!(frame_number(b"size= 256kB time=00:00:04.92"), None);
    assert_eq!(frame_number(b"xframe=5"), None);
    assert_eq!(frame_number(b"frame="), None);
    assert_eq!(frame_number(b"frame=   "), None);
    assert_eq!(frame_number(b"frame=12x"), None);
    assert_eq!(frame_number(b"frame=-3"), None);
    assert_eq!(frame_number(b"frame= fps=25"), None);
    assert_eq!(frame_number(b"frame=abc frame=5"), None);
    assert_eq!(frame_number(b"frame=99999999999999999999999999"), None);
}

#[test]
fn counts_are_decimal_digits_with_an_optional_plus() {
    assert_eq!(read_count(b"12345", 0, 5), Some(12345));
    assert_eq!(read_count(b"12345", 1, 3), Some(23));
    assert_eq!(read_count(b"+5", 0, 2), Some(5));
    assert_eq!(read_count(b"+", 0, 1), None);
    assert_eq!(read_count(b"5", 0, 0), None);
    assert_eq!(read_count(b"1 2", 0, 3), None);
    let max = usize::MAX.to_string();
    assert_eq!(read_count(max.as_bytes(), 0, max.len()), Some(usize::MAX));
    let over = format!("{}0", max);
    assert_eq!(read_count(over.as_bytes(), 0, over.len()), None);
}

#[test]
fn fatal_lines_are_recognised() {
    assert!(is_fatal_line(b"Error opening input file"));
    assert!(is_fatal_line(b"[libx264] Invalid argument"));
    assert!(is_fatal_line(b"Could not write header"));
    assert!(!is_fatal_line(b"error in lower case"));
    assert!(!is_fatal_line(b"Could  not"));
    assert!(!is_fatal_line(b"frame= 10 fps=25"));
    assert!(!is_fatal_line(b""));
}

#[test]
fn supervisor_turns_counters_into_fractions() {
    let mut sup = Supervisor::new(Some(200));
    let f = sup.observe_line(b"frame=   50 fps=25\r").unwrap();
    assert_eq!((f.numerator(), f.denominator()), (50, 200));
    let g = sup.observe_line(b"frame=  500 fps=25\r").unwrap();
    assert_eq!((g.numerator(), g.denominator()), (200, 200));
    assert!(sup.observe_line(b"size=1kB\r").is_none());
    let mut blind = Supervisor::new(None);
    assert!(blind.observe_line(b"frame=   50 fps=25\r").is_none());
    let mut empty = Supervisor::new(Some(0));
    let h = empty.observe_line(b"frame=3").unwrap();
    assert_eq!((h.numerator(), h.denominator()), (1, 1));
}

#[test]
fn exit_status_zero_is_success() {
    let mut sup = Supervisor::new(None);
    sup.observe_line(b"Error that did not matter\r");
    assert_eq!(sup.conclude(Exit::Success), Ok(()));
}

#[test]
fn failure_carries_the_last_fatal_line() {
    let mut sup = Supervisor::new(Some(10));
    sup.observe_line(b"  Error one \r");
    sup.observe_line(b"frame=3\r");
    sup.observe_line(b"\tpipe:0: Invalid data found when processing input\r\n");
    sup.observe_line(b"harmless\r");
    assert_eq!(
        sup.conclude(Exit::Failure(Some(1))),
        Err(ConvertError::EncoderExit {
            status: Some(1),
            diagnostic: Some(b"pipe:0: Invalid data found when processing input".to_vec()),
        })
    );
    let quiet = Supervisor::new(None);
    assert_eq!(
        quiet.conclude(Exit::Failure(None)),
        Err(ConvertError::EncoderExit { status: None, diagnostic: None })
    );
}

#[test]
fn cancellation_comes_before_everything_else() {
    assert_eq!(next_step(true, None), Directive::Abort(ConvertError::Cancelled));
    assert_eq!(next_step(true, Some(Exit::Success)), Directive::Abort(ConvertError::Cancelled));
    assert_eq!(next_step(false, Some(Exit::Success)), Directive::Finish(Exit::Success));
    assert_eq!(
        next_step(false, Some(Exit::Failure(Some(2)))),
        Directive::Finish(Exit::Failure(Some(2)))
    );
    assert_eq!(next_step(false, None), Directive::Wait);
}

#[test]
fn failed_stream_aborts_the_encoder() {
    assert_eq!(after_streaming(Ok(())), Directive::Wait);
    assert_eq!(
        after_streaming(Err(ConvertError::Cancelled)),
        Directive::Abort(ConvertError::Cancelled)
    );
}
