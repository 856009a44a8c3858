use cube_convert::error::{ConvertError, InputError};
use cube_convert::progress::{
    stream_progress, Fraction, JobOutcome, JobReporter, Progress, Stage, REPORT_EVERY,
};

fn named(name: &str) -> String {
    name.to_string()
}

#[test]
fn fraction_is_held_between_nought_and_one() {
    let f = Fraction::ratio(3, 12);
    assert_eq!((f.numerator(), f.denominator()), (3, 12));
    assert_eq!(f.per_mille(), 250);
    let over = Fraction::ratio(40, 12);
    assert_eq!((over.numerator(), over.denominator()), (12, 12));
    assert_eq!(over.per_mille(), 1000);
    let nothing = Fraction::ratio(0, 12);
    assert_eq!(nothing.per_mille(), 0);
    let empty = Fraction::ratio(0, 0);
    assert_eq!((empty.numerator(), empty.denominator()), (1, 1));
    let third = Fraction::ratio(1, 3);
    assert_eq!(third.per_mille(), 333);
    let huge = Fraction::ratio(usize::MAX - 1, usize::MAX);
    assert_eq!(huge.per_mille(), 999);
}

#[test]
fn half_marks_the_written_raw_media() {
    let h = Fraction::half();
    assert_eq!((h.numerator(), h.denominator()), (1, 2));
    assert_eq!(h.per_mille(), 500);
}

#[test]
fn stream_reports_every_250_frames() {
    assert_eq!(REPORT_EVERY, 250);
    assert!(stream_progress(1, 18000).is_none());
    assert!(stream_progress(249, 18000).is_none());
    let f = stream_progress(250, 18000).unwrap();
    assert_eq!((f.numerator(), f.denominator()), (250, 18000));
    let g = stream_progress(0, 18000).unwrap();
    assert_eq!(g.numerator(), 0);
    let h = stream_progress(18000, 18000).unwrap();
    assert_eq!(h.per_mille(), 1000);
}

#[test]
fn reporter_hands_out_start_updates_and_one_end() {
    let mut reporter = JobReporter::new(named("report"));
    assert_eq!(reporter.stage(), Stage::Idle);
    assert_eq!(reporter.start(), Some(Progress::Start { name: named("report") }));
    assert_eq!(reporter.stage(), Stage::Running);
    assert_eq!(
        reporter.update(Fraction::half()),
        Some(Progress::Update { name: named("report"), fraction: Fraction::half() })
    );
    assert_eq!(
        reporter.update(Fraction::ratio(3, 4)),
        Some(Progress::Update { name: named("report"), fraction: Fraction::ratio(3, 4) })
    );
    assert_eq!(
        reporter.finish(JobOutcome::Completed),
        Some(Progress::Done { name: named("report") })
    );
    assert_eq!(reporter.stage(), Stage::Finished);
}

#[test]
fn reporter_ignores_calls_out_of_turn() {
    let mut reporter = JobReporter::new(named("x"));
    assert_eq!(reporter.update(Fraction::half()), None);
    assert_eq!(reporter.finish(JobOutcome::Completed), None);
    assert_eq!(reporter.stage(), Stage::Idle);
    assert!(reporter.start().is_some());
    assert_eq!(reporter.start(), None);
    assert_eq!(
        reporter.finish(JobOutcome::Failed(ConvertError::Input(InputError::EmptyData))),
        Some(Progress::Error {
            name: named("x"),
            error: named("No usable data found in the source"),
        })
    );
    assert_eq!(reporter.finish(JobOutcome::Completed), None);
    assert_eq!(reporter.update(Fraction::half()), None);
    assert_eq!(reporter.start(), None);
    assert_eq!(reporter.stage(), Stage::Finished);
}

#[test]
fn cancellation_is_reported_with_its_own_text() {
    let mut reporter = JobReporter::new(named("x"));
    let start = reporter.start().unwrap();
    let end = reporter.finish(JobOutcome::Failed(ConvertError::Cancelled)).unwrap();
    assert_eq!(end, Progress::Error { name: named("x"), error: named("Cancelled.") });
    assert!(end.reports_cancellation());
    assert!(!start.reports_cancellation());
    assert!(!Progress::Done { name: named("x") }.reports_cancellation());
    let failure = Progress::Error { name: named("x"), error: named("Cancelled") };
    assert!(!failure.reports_cancellation());
}

#[test]
fn events_travel_over_a_channel_in_order() {
    let (tx, rx) = crossbeam_channel::unbounded();
    let mut reporter = JobReporter::new(named("job"));
    for event in [
        reporter.start(),
        reporter.update(Fraction::half()),
        reporter.start(),
        reporter.finish(JobOutcome::Completed),
        reporter.update(Fraction::half()),
    ] {
        if let Some(event) = event {
            tx.try_send(event).unwrap();
        }
    }
    drop(tx);
    let received: Vec<Progress> = rx.iter().collect();
    assert_eq!(
        received,
        vec![
            Progress::Start { name: named("job") },
            Progress::Update { name: named("job"), fraction: Fraction::half() },
            Progress::Done { name: named("job") },
        ]
    );
}
