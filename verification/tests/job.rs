use cube_convert::error::{ConvertError, InputError};
use cube_convert::job::{
    check_selected, close_batch, close_job, file_stem, find_extension, is_document_name,
    is_image_name, open_batch, screen_job, settle, Admission, BatchFailure, Closing,
};
use cube_convert::progress::{JobOutcome, Progress};

#[test]
fn extension_starts_after_the_last_dot() {
    assert_eq!(find_extension(b"report.pdf"), Some(7));
    assert_eq!(find_extension(b"a.b.c"), Some(4));
    assert_eq!(find_extension(b"trailing."), Some(9));
    assert_eq!(find_extension(b"none"), None);
    assert_eq!(find_extension(b".hidden"), None);
    assert_eq!(find_extension(b""), None);
}

#[test]
fn documents_end_in_pdf() {
    assert!(is_document_name(b"report.pdf"));
    assert!(is_document_name(b"a.b.pdf"));
    assert!(!is_document_name(b"report.PDF"));
    assert!(!is_document_name(b"report.pdfx"));
    assert!(!is_document_name(b"report.pd"));
    assert!(!is_document_name(b".pdf"));
    assert!(!is_document_name(b"pdf"));
}

#[test]
fn images_end_in_png_or_jpeg_in_any_case() {
    assert!(is_image_name(b"a.png"));
    assert!(is_image_name(b"a.PNG"));
    assert!(is_image_name(b"a.Jpg"));
    assert!(is_image_name(b"a.jpeg"));
    assert!(is_image_name(b"a.JPEG"));
    assert!(!is_image_name(b"a.gif"));
    assert!(!is_image_name(b"a.jpe"));
    assert!(!is_image_name(b"a.pngg"));
    assert!(!is_image_name(b"png"));
    assert!(!is_image_name(b".png"));
}

#[test]
fn stem_is_the_name_without_its_extension() {
    assert_eq!(file_stem(b"report.pdf"), b"report".to_vec());
    assert_eq!(file_stem(b"a.b.pdf"), b"a.b".to_vec());
    assert_eq!(file_stem(b"none"), b"none".to_vec());
    assert_eq!(file_stem(b".hidden"), b".hidden".to_vec());
}

#[test]
fn single_file_must_be_a_document() {
    assert_eq!(check_selected(b"x.pdf"), Ok(()));
    assert_eq!(check_selected(b"x.txt"), Err(ConvertError::Input(InputError::WrongFileType)));
}

#[test]
fn batch_without_jobs_cannot_begin() {
    assert_eq!(open_batch(0), Err(ConvertError::Input(InputError::NoFiles)));
    assert_eq!(open_batch(3), Ok(Progress::Init { total: 3 }));
}

#[test]
fn batch_result_aggregates_failures() {
    assert_eq!(close_batch(false, 0), Ok(()));
    assert_eq!(close_batch(false, 2), Err(BatchFailure::JobsFailed(2)));
    assert_eq!(close_batch(true, 0), Err(BatchFailure::Cancelled));
    assert_eq!(close_batch(true, 5), Err(BatchFailure::Cancelled));
}

#[test]
fn job_with_existing_output_does_no_work() {
    assert_eq!(screen_job(false, true), Admission::AlreadyDone);
    assert_eq!(screen_job(false, true), screen_job(false, true));
    assert_eq!(screen_job(false, false), Admission::Run);
    assert_eq!(screen_job(true, false), Admission::Skip);
    assert_eq!(screen_job(true, true), Admission::Skip);
}

#[test]
fn cancelled_job_commits_nothing_and_loses_its_workspace() {
    let c = close_job(Ok(()), true, true);
    assert_eq!(
        c,
        Closing {
            commit: false,
            remove_workspace: true,
            outcome: JobOutcome::Failed(ConvertError::Cancelled),
        }
    );
    let d = close_job(Err(ConvertError::Spawn("ffmpeg".to_string())), true, true);
    assert!(!d.commit);
    assert!(d.remove_workspace);
    assert_eq!(d.outcome, JobOutcome::Failed(ConvertError::Cancelled));
}

#[test]
fn successful_job_commits_its_output() {
    let c = close_job(Ok(()), false, true);
    assert_eq!(c, Closing { commit: true, remove_workspace: true, outcome: JobOutcome::Completed });
    let d = close_job(Ok(()), false, false);
    assert_eq!(d, Closing { commit: true, remove_workspace: false, outcome: JobOutcome::Completed });
}

#[test]
fn failed_job_discards_its_partial_output() {
    let e = ConvertError::EncoderExit { status: Some(1), diagnostic: None };
    let c = close_job(Err(e.clone()), false, true);
    assert_eq!(
        c,
        Closing { commit: false, remove_workspace: true, outcome: JobOutcome::Failed(e) }
    );
}

#[test]
fn failed_rename_turns_completion_into_failure() {
    let done = close_job(Ok(()), false, true);
    assert_eq!(settle(done.clone(), None), JobOutcome::Completed);
    assert_eq!(
        settle(done, Some("permission denied".to_string())),
        JobOutcome::Failed(ConvertError::Workspace("permission denied".to_string()))
    );
    let failed = close_job(Err(ConvertError::Spawn("ffmpeg".to_string())), false, true);
    assert_eq!(
        settle(failed.clone(), None),
        JobOutcome::Failed(ConvertError::Spawn("ffmpeg".to_string()))
    );
    assert_eq!(
        settle(failed, Some("ignored".to_string())),
        JobOutcome::Failed(ConvertError::Spawn("ffmpeg".to_string()))
    );
    let cancelled = close_job(Ok(()), true, false);
    assert_eq!(settle(cancelled, None), JobOutcome::Failed(ConvertError::Cancelled));
}
