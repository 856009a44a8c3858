//! The life of a job and of a batch: which files are eligible, how outputs
//! and workspaces are named, when a job runs, and how it is closed.

use crate::error::{ConvertError, InputError};
use crate::progress::{JobOutcome, Progress};
use vstd::prelude::*;

verus! {

/// The position of the last `b` in `s`, or -1 where there is none.
pub open spec fn last_index_of(s: Seq<u8>, b: u8) -> int
    decreases s.len(),
{
    if s.len() == 0 {
        -1
    } else if s.last() == b {
        s.len() - 1
    } else {
        last_index_of(s.drop_last(), b)
    }
}

/// Where the extension of a file name starts: after its last dot, unless
/// the name has no dot or its only dot is its first byte.
pub open spec fn extension_start(name: Seq<u8>) -> Option<int> {
    if last_index_of(name, 0x2e) <= 0 {
        None
    } else {
        Some(last_index_of(name, 0x2e) + 1)
    }
}

/// The extension of a file name, where it has one.
pub open spec fn extension_of(name: Seq<u8>) -> Option<Seq<u8>> {
    match extension_start(name) {
        Some(at) => Some(name.skip(at)),
        None => None,
    }
}

/// The file name without its extension and the dot before it.
pub open spec fn stem_of(name: Seq<u8>) -> Seq<u8> {
    match extension_start(name) {
        Some(at) => name.take(at - 1),
        None => name,
    }
}

/// Finds where the extension of a file name starts.
pub fn find_extension(name: &[u8]) -> (r: Option<usize>)
    ensures
        match r {
            Some(at) => extension_start(name@) == Some(at as int) && 1 < at <= name.len(),
            None => extension_start(name@) is None,
        },
{
    let mut end: usize = name.len();
    assert(name@.take(name.len() as int) =~= name@);
    while end > 0
        invariant
            end <= name.len(),
            last_index_of(name@, 0x2e) == last_index_of(name@.take(end as int), 0x2e),
        decreases end,
    {
        proof {
            assert(name@.take(end as int).drop_last() =~= name@.take(end - 1));
        }
        if name[end - 1] == 0x2e {
            if end - 1 == 0 {
                return None;
            }
            return Some(end);
        }
        end -= 1;
    }
    None
}

/// A byte with an upper-case ASCII letter turned to lower case.
pub open spec fn lower(b: u8) -> u8 {
    if 0x41 <= b && b <= 0x5a {
        (b + 0x20) as u8
    } else {
        b
    }
}

/// Whether `s` spells `word` when the case of ASCII letters is ignored.
pub open spec fn spells(s: Seq<u8>, word: Seq<u8>) -> bool {
    &&& s.len() == word.len()
    &&& forall|i: int| 0 <= i < s.len() ==> lower(#[trigger] s[i]) == word[i]
}

/// The extension `pdf`.
pub open spec fn ext_pdf() -> Seq<u8> {
    seq![0x70u8, 0x64u8, 0x66u8]
}

/// The extension `png`.
pub open spec fn ext_png() -> Seq<u8> {
    seq![0x70u8, 0x6eu8, 0x67u8]
}

/// The extension `jpg`.
pub open spec fn ext_jpg() -> Seq<u8> {
    seq![0x6au8, 0x70u8, 0x67u8]
}

/// The extension `jpeg`.
pub open spec fn ext_jpeg() -> Seq<u8> {
    seq![0x6au8, 0x70u8, 0x65u8, 0x67u8]
}

/// A document: a file name whose extension is exactly `pdf`.
pub open spec fn is_document(name: Seq<u8>) -> bool {
    extension_of(name) == Some(ext_pdf())
}

/// An image: a file name whose extension is `png`, `jpg` or `jpeg`, in
/// upper or lower case.
pub open spec fn is_image(name: Seq<u8>) -> bool {
    match extension_of(name) {
        Some(ext) => spells(ext, ext_png()) || spells(ext, ext_jpg()) || spells(ext, ext_jpeg()),
        None => false,
    }
}

fn spells_word(s: &[u8], from: usize, word: &[u8]) -> (r: bool)
    requires
        from <= s.len(),
    ensures
        r == spells(s@.skip(from as int), word@),
{
    if s.len() - from != word.len() {
        return false;
    }
    let mut i: usize = 0;
    while i < word.len()
        invariant
            i <= word.len(),
            from <= s.len(),
            s.len() - from == word.len(),
            forall|j: int| 0 <= j < i ==> lower(#[trigger] s@.skip(from as int)[j]) == word@[j],
        decreases word.len() - i,
    {
        let b: u8 = s[from + i];
        let low: u8 = if 0x41 <= b && b <= 0x5a {
            b + 0x20
        } else {
            b
        };
        assert(s@.skip(from as int)[i as int] == b);
        if low != word[i] {
            return false;
        }
        i += 1;
    }
    true
}

/// Whether a file name is that of a document.
pub fn is_document_name(name: &[u8]) -> (r: bool)
    ensures
        r == is_document(name@),
{
    match find_extension(name) {
        Some(at) => {
            let pdf: [u8; 3] = [0x70, 0x64, 0x66];
            assert(pdf@ =~= ext_pdf());
            let r: bool = crate::ascii::matches_at(name, at, pdf.as_slice()) && name.len() - at
                == 3;
            proof {
                let ext = name@.skip(at as int);
                if r {
                    assert(ext =~= name@.subrange(at as int, at + 3));
                } else if ext == ext_pdf() {
                    assert(ext.len() == 3);
                    assert(name@.subrange(at as int, at + 3) =~= ext);
                }
            }
            r
        },
        None => false,
    }
}

/// Whether a file name is that of an image.
pub fn is_image_name(name: &[u8]) -> (r: bool)
    ensures
        r == is_image(name@),
{
    match find_extension(name) {
        Some(at) => {
            let png: [u8; 3] = [0x70, 0x6e, 0x67];
            let jpg: [u8; 3] = [0x6a, 0x70, 0x67];
            let jpeg: [u8; 4] = [0x6a, 0x70, 0x65, 0x67];
            assert(png@ =~= ext_png());
            assert(jpg@ =~= ext_jpg());
            assert(jpeg@ =~= ext_jpeg());
            spells_word(name, at, png.as_slice()) || spells_word(name, at, jpg.as_slice())
                || spells_word(name, at, jpeg.as_slice())
        },
        None => false,
    }
}

/// The stem of a file name: the name without its extension.
pub fn file_stem(name: &[u8]) -> (stem: Vec<u8>)
    ensures
        stem@ == stem_of(name@),
{
    let end: usize = match find_extension(name) {
        Some(at) => at - 1,
        None => name.len(),
    };
    let mut stem: Vec<u8> = Vec::new();
    stem.extend_from_slice(&name[0..end]);
    assert(stem@ =~= stem_of(name@));
    stem
}

/// Checks a single selected file: it must be a document.
pub fn check_selected(name: &[u8]) -> (r: Result<(), ConvertError>)
    ensures
        r is Ok <==> is_document(name@),
        r matches Err(e) ==> e == ConvertError::Input(InputError::WrongFileType),
{
    if is_document_name(name) {
        Ok(())
    } else {
        Err(ConvertError::Input(InputError::WrongFileType))
    }
}

/// Opens a batch of `count` jobs: the event that announces their number.
/// Fails with `NoFiles` exactly when there is no job.
pub fn open_batch(count: usize) -> (r: Result<Progress, ConvertError>)
    ensures
        r is Ok <==> count > 0,
        r matches Ok(event) ==> event == (Progress::Init { total: count }),
        r matches Err(e) ==> e == ConvertError::Input(InputError::NoFiles),
{
    if count == 0 {
        Err(ConvertError::Input(InputError::NoFiles))
    } else {
        Ok(Progress::Init { total: count })
    }
}

/// How a whole batch ended, where it did not succeed.
#[derive(Debug, Clone, Copy, PartialEq, Eq)]
pub enum BatchFailure {
    /// Cancellation was requested.
    Cancelled,
    /// This many jobs failed.
    JobsFailed(usize),
}

/// The result of a batch: success where nothing failed and cancellation was
/// never requested; a cancellation outweighs the failures.
pub fn close_batch(cancelled: bool, failed: usize) -> (r: Result<(), BatchFailure>)
    ensures
        r is Ok <==> !cancelled && failed == 0,
        cancelled ==> r == Err::<(), BatchFailure>(BatchFailure::Cancelled),
        !cancelled && failed > 0 ==> r == Err::<(), BatchFailure>(BatchFailure::JobsFailed(failed)),
{
    if cancelled {
        Err(BatchFailure::Cancelled)
    } else if failed > 0 {
        Err(BatchFailure::JobsFailed(failed))
    } else {
        Ok(())
    }
}

/// What to do with a job that is about to begin.
#[derive(Debug, Clone, Copy, PartialEq, Eq, Structural)]
pub enum Admission {
    /// The batch is cancelled: the job is passed over and reports nothing.
    Skip,
    /// The output is already there: the job starts and is done at once,
    /// without any work and without touching the output.
    AlreadyDone,
    /// The job runs its pipeline.
    Run,
}

/// Decides what to do with a job that is about to begin.
pub fn screen_job(cancelled: bool, output_exists: bool) -> (a: Admission)
    ensures
        a == admission(cancelled, output_exists),
{
    if cancelled {
        Admission::Skip
    } else if output_exists {
        Admission::AlreadyDone
    } else {
        Admission::Run
    }
}

/// The admission of a job by the state of the batch and of its output.
pub open spec fn admission(cancelled: bool, output_exists: bool) -> Admission {
    if cancelled {
        Admission::Skip
    } else if output_exists {
        Admission::AlreadyDone
    } else {
        Admission::Run
    }
}

/// How a job that ran is closed.
#[derive(Debug, Clone, PartialEq, Eq)]
pub struct Closing {
    /// Whether the partial output is renamed to the final path. Where it is
    /// not, the partial output is removed.
    pub commit: bool,
    /// Whether there is a workspace to remove.
    pub remove_workspace: bool,
    /// What the job reports as its end.
    pub outcome: JobOutcome,
}

/// The outcome of a job whose pipeline ended with `result`, in a batch that
/// is or is not cancelled.
pub open spec fn outcome_of(result: Result<(), ConvertError>, cancelled: bool) -> JobOutcome {
    if cancelled {
        JobOutcome::Failed(ConvertError::Cancelled)
    } else {
        match result {
            Ok(_) => JobOutcome::Completed,
            Err(e) => JobOutcome::Failed(e),
        }
    }
}

/// How a job is closed whose pipeline ended with `result`.
///
/// The output is committed only where the pipeline succeeded and the batch
/// is not cancelled; in every other case the partial output is removed. A
/// workspace that was made is removed whatever happened.
pub open spec fn closing_of(
    result: Result<(), ConvertError>,
    cancelled: bool,
    workspace_made: bool,
) -> Closing {
    Closing {
        commit: result is Ok && !cancelled,
        remove_workspace: workspace_made,
        outcome: outcome_of(result, cancelled),
    }
}

/// Decides how to close a job whose pipeline has ended.
pub fn close_job(result: Result<(), ConvertError>, cancelled: bool, workspace_made: bool) -> (c:
    Closing)
    ensures
        c == closing_of(result, cancelled, workspace_made),
{
    if cancelled {
        return Closing {
            commit: false,
            remove_workspace: workspace_made,
            outcome: JobOutcome::Failed(ConvertError::Cancelled),
        };
    }
    match result {
        Ok(_) => Closing {
            commit: true,
            remove_workspace: workspace_made,
            outcome: JobOutcome::Completed,
        },
        Err(e) => Closing {
            commit: false,
            remove_workspace: workspace_made,
            outcome: JobOutcome::Failed(e),
        },
    }
}

/// The outcome of a job once the attempt to commit its output is over:
/// where the output was to be committed and the rename failed, the job has
/// failed with the system's words for it; in every other case the outcome
/// stands as the closing has it.
pub open spec fn outcome_after_commit(closing: Closing, rename_failure: Option<String>) -> JobOutcome {
    match rename_failure {
        Some(why) => if closing.commit {
            JobOutcome::Failed(ConvertError::Workspace(why))
        } else {
            closing.outcome
        },
        None => closing.outcome,
    }
}

/// Decides what a job reports as its end, once the caller has tried to
/// rename the partial output where the closing asked for it.
/// `rename_failure` holds the system's words where the rename failed.
pub fn settle(closing: Closing, rename_failure: Option<String>) -> (outcome: JobOutcome)
    ensures
        outcome == outcome_after_commit(closing, rename_failure),
{
    match rename_failure {
        Some(why) => if closing.commit {
            JobOutcome::Failed(ConvertError::Workspace(why))
        } else {
            closing.outcome
        },
        None => closing.outcome,
    }
}

/// Job law, done means in place: a job reports completion only where its
/// output was to be committed and the rename did not fail.
pub proof fn law_done_means_committed(
    result: Result<(), ConvertError>,
    cancelled: bool,
    workspace_made: bool,
    rename_failure: Option<String>,
)
    ensures
        outcome_after_commit(closing_of(result, cancelled, workspace_made), rename_failure)
            == JobOutcome::Completed <==> closing_of(result, cancelled, workspace_made).commit
            && rename_failure is None,
{
}

/// Job law, skip on exists: a job whose output is already there never runs
/// its pipeline, whether or not the batch is cancelled, and so leaves that
/// output as it is.
pub proof fn law_existing_output_is_kept(cancelled: bool)
    ensures
        admission(cancelled, true) != Admission::Run,
        admission(false, true) == Admission::AlreadyDone,
{
}

/// Job law, cancellation: a job that is closed in a cancelled batch never
/// commits its output, has its workspace removed where it made one, and
/// reports a cancellation, whatever its pipeline returned.
pub proof fn law_cancelled_job_commits_nothing(
    result: Result<(), ConvertError>,
    workspace_made: bool,
)
    ensures
        !closing_of(result, true, workspace_made).commit,
        closing_of(result, true, workspace_made).remove_workspace == workspace_made,
        closing_of(result, true, workspace_made).outcome == JobOutcome::Failed(
            ConvertError::Cancelled,
        ),
{
}

/// Job law, commit: an output is committed exactly by a job that ends in
/// completion; a failed job never leaves a final output behind.
pub proof fn law_commit_means_completed(
    result: Result<(), ConvertError>,
    cancelled: bool,
    workspace_made: bool,
)
    ensures
        closing_of(result, cancelled, workspace_made).commit <==> closing_of(
            result,
            cancelled,
            workspace_made,
        ).outcome == JobOutcome::Completed,
{
}

} // verus!
