//! Names: of outputs, of the partial files they are written to, and of the
//! temporary workspaces of jobs.

use crate::ascii::{decimal_text, digit_byte, push_decimal};
use crate::digits::{all_digits, decimal_value, is_digit};
use crate::error::ConvertError;
use vstd::prelude::*;
use vstd::string::StringExecFns;

verus! {

/// The kind of media that a job produces.
#[derive(Debug, Clone, Copy, PartialEq, Eq, Structural)]
pub enum MediaKind {
    /// Encoded audio, in a file that ends in `.mp3`.
    Audio,
    /// Encoded video, in a file that ends in `.mp4`.
    Video,
}

/// The extension of an output, with its dot: `.mp3` or `.mp4`.
pub open spec fn media_extension(kind: MediaKind) -> Seq<u8> {
    match kind {
        MediaKind::Audio => seq![0x2eu8, 0x6du8, 0x70u8, 0x33u8],
        MediaKind::Video => seq![0x2eu8, 0x6du8, 0x70u8, 0x34u8],
    }
}

/// The marker of a partial output: `.tmp`.
pub open spec fn partial_marker() -> Seq<u8> {
    seq![0x2eu8, 0x74u8, 0x6du8, 0x70u8]
}

/// The name of the output of the job with the given stem.
pub open spec fn output_name_of(stem: Seq<u8>, kind: MediaKind) -> Seq<u8> {
    stem + media_extension(kind)
}

/// The name under which the job with the given stem writes its output until
/// it commits it.
pub open spec fn partial_name_of(stem: Seq<u8>, kind: MediaKind) -> Seq<u8> {
    stem + partial_marker() + media_extension(kind)
}

fn push_extension(name: &mut Vec<u8>, kind: MediaKind)
    ensures
        final(name)@ == old(name)@ + media_extension(kind),
{
    name.push(0x2e);
    name.push(0x6d);
    name.push(0x70);
    match kind {
        MediaKind::Audio => name.push(0x33),
        MediaKind::Video => name.push(0x34),
    }
    assert(name@ =~= old(name)@ + media_extension(kind));
}

/// Names the output of a job: the stem of its source with the extension of
/// the media kind.
pub fn output_name(stem: &[u8], kind: MediaKind) -> (name: Vec<u8>)
    ensures
        name@ == output_name_of(stem@, kind),
{
    let mut name: Vec<u8> = Vec::new();
    name.extend_from_slice(stem);
    assert(name@ =~= stem@);
    push_extension(&mut name, kind);
    name
}

/// Names the partial output of a job: as the output, with `.tmp` before the
/// extension.
pub fn partial_name(stem: &[u8], kind: MediaKind) -> (name: Vec<u8>)
    ensures
        name@ == partial_name_of(stem@, kind),
{
    let mut name: Vec<u8> = Vec::new();
    name.extend_from_slice(stem);
    assert(name@ =~= stem@);
    name.push(0x2e);
    name.push(0x74);
    name.push(0x6d);
    name.push(0x70);
    assert(name@ =~= stem@ + partial_marker());
    push_extension(&mut name, kind);
    name
}

/// The stem of the one output that a whole folder gives: the folder's name,
/// an underscore and a label.
pub open spec fn folder_stem_of(folder: Seq<u8>, label: Seq<u8>) -> Seq<u8> {
    folder + seq![0x5fu8] + label
}

/// Names the stem of the output of a folder-wide job.
pub fn folder_stem(folder: &[u8], label: &[u8]) -> (stem: Vec<u8>)
    ensures
        stem@ == folder_stem_of(folder@, label@),
{
    let mut stem: Vec<u8> = Vec::new();
    stem.extend_from_slice(folder);
    stem.push(0x5f);
    stem.extend_from_slice(label);
    assert(stem@ =~= folder_stem_of(folder@, label@));
    stem
}

/// Naming law, atomic output: a job never writes its partial output under
/// the name of its own final output.
pub proof fn law_partial_is_not_final(stem: Seq<u8>, kind: MediaKind)
    ensures
        partial_name_of(stem, kind) != output_name_of(stem, kind),
{
    assert(partial_name_of(stem, kind).len() == stem.len() + 8);
    assert(output_name_of(stem, kind).len() == stem.len() + 4);
}

/// Naming law, own outputs: jobs with different stems write to different
/// outputs, and to different partial outputs, so that no job of a batch
/// overwrites what another one writes.
pub proof fn law_outputs_differ(stem_a: Seq<u8>, stem_b: Seq<u8>, kind: MediaKind)
    requires
        stem_a != stem_b,
    ensures
        output_name_of(stem_a, kind) != output_name_of(stem_b, kind),
        partial_name_of(stem_a, kind) != partial_name_of(stem_b, kind),
{
    let ext = media_extension(kind);
    let mark = partial_marker();
    assert(ext.len() == 4);
    assert(mark.len() == 4);
    if output_name_of(stem_a, kind) == output_name_of(stem_b, kind) {
        assert((stem_a + ext).len() == (stem_b + ext).len());
        assert(stem_a.len() == stem_b.len());
        assert forall|i: int| 0 <= i < stem_a.len() implies stem_a[i] == stem_b[i] by {
            assert((stem_a + ext)[i] == stem_a[i]);
            assert((stem_b + ext)[i] == stem_b[i]);
        }
        assert(stem_a =~= stem_b);
    }
    if partial_name_of(stem_a, kind) == partial_name_of(stem_b, kind) {
        assert((stem_a + mark + ext).len() == (stem_b + mark + ext).len());
        assert(stem_a.len() == stem_b.len());
        assert forall|i: int| 0 <= i < stem_a.len() implies stem_a[i] == stem_b[i] by {
            assert((stem_a + mark + ext)[i] == stem_a[i]);
            assert((stem_b + mark + ext)[i] == stem_b[i]);
        }
        assert(stem_a =~= stem_b);
    }
}

/// The prefix of every workspace name: `cube_`.
pub open spec fn workspace_prefix() -> Seq<u8> {
    seq![0x63u8, 0x75u8, 0x62u8, 0x65u8, 0x5fu8]
}

/// The name of a workspace: the prefix and the tag of the converter, then
/// the process, the thread and the time in milliseconds, each in decimal
/// and set off by an underscore.
pub open spec fn workspace_name_of(tag: Seq<u8>, process: u32, thread: u64, millis: u64) -> Seq<
    u8,
> {
    workspace_prefix() + tag + seq![0x5fu8] + decimal_text(process as nat) + seq![0x5fu8]
        + decimal_text(thread as nat) + seq![0x5fu8] + decimal_text(millis as nat)
}

/// Names the workspace of a job.
pub fn workspace_name(tag: &[u8], process: u32, thread: u64, millis: u64) -> (name: Vec<u8>)
    ensures
        name@ == workspace_name_of(tag@, process, thread, millis),
{
    let mut name: Vec<u8> = Vec::new();
    name.push(0x63);
    name.push(0x75);
    name.push(0x62);
    name.push(0x65);
    name.push(0x5f);
    assert(name@ =~= workspace_prefix());
    name.extend_from_slice(tag);
    name.push(0x5f);
    assert(name@ =~= workspace_prefix() + tag@ + seq![0x5fu8]);
    push_decimal(&mut name, process as u64);
    name.push(0x5f);
    push_decimal(&mut name, thread);
    name.push(0x5f);
    push_decimal(&mut name, millis);
    assert(name@ =~= workspace_name_of(tag@, process, thread, millis));
    name
}

/// A number written out in decimal is made of digits, at least one, and
/// reads back as the number.
pub proof fn lemma_decimal_text_reads_back(n: nat)
    ensures
        decimal_text(n).len() >= 1,
        all_digits(decimal_text(n)),
        decimal_value(decimal_text(n)) == n,
    decreases n,
{
    if n < 10 {
        let t = decimal_text(n);
        assert(t.drop_last() =~= Seq::<u8>::empty());
        assert(decimal_value(t.drop_last()) == 0);
    } else {
        lemma_decimal_text_reads_back(n / 10);
        let t = decimal_text(n);
        assert(t.drop_last() =~= decimal_text(n / 10));
        assert(t.last() == digit_byte((n % 10) as int));
    }
}

/// Two runs of digits, each followed by an underscore and more, can only
/// make the same text where the runs are the same and what follows is too.
proof fn lemma_split_at_underscore(a: Seq<u8>, x: Seq<u8>, b: Seq<u8>, y: Seq<u8>)
    requires
        all_digits(a),
        all_digits(b),
        a + seq![0x5fu8] + x == b + seq![0x5fu8] + y,
    ensures
        a == b,
        x == y,
{
    let left = a + seq![0x5fu8] + x;
    let right = b + seq![0x5fu8] + y;
    if a.len() < b.len() {
        assert(left[a.len() as int] == 0x5fu8);
        assert(right[a.len() as int] == b[a.len() as int]);
        assert(is_digit(b[a.len() as int]));
    }
    if b.len() < a.len() {
        assert(right[b.len() as int] == 0x5fu8);
        assert(left[b.len() as int] == a[b.len() as int]);
        assert(is_digit(a[b.len() as int]));
    }
    assert(a =~= b) by {
        assert forall|i: int| 0 <= i < a.len() implies a[i] == b[i] by {
            assert(left[i] == a[i]);
            assert(right[i] == b[i]);
        }
    }
    assert(x =~= y) by {
        assert(left.len() == right.len());
        assert forall|i: int| 0 <= i < x.len() implies x[i] == y[i] by {
            assert(left[a.len() + 1 + i] == x[i]);
            assert(right[b.len() + 1 + i] == y[i]);
        }
    }
}

/// Naming law, no collision: two workspaces of the same converter have the
/// same name only where process, thread and time all agree. Jobs that run
/// at once in one process run on different threads, and so never share a
/// workspace.
pub proof fn law_workspace_names_differ(
    tag: Seq<u8>,
    process_a: u32,
    thread_a: u64,
    millis_a: u64,
    process_b: u32,
    thread_b: u64,
    millis_b: u64,
)
    requires
        process_a != process_b || thread_a != thread_b || millis_a != millis_b,
    ensures
        workspace_name_of(tag, process_a, thread_a, millis_a) != workspace_name_of(
            tag,
            process_b,
            thread_b,
            millis_b,
        ),
{
    let name_a = workspace_name_of(tag, process_a, thread_a, millis_a);
    let name_b = workspace_name_of(tag, process_b, thread_b, millis_b);
    let head = workspace_prefix() + tag + seq![0x5fu8];
    let pa = decimal_text(process_a as nat);
    let pb = decimal_text(process_b as nat);
    let ta = decimal_text(thread_a as nat);
    let tb = decimal_text(thread_b as nat);
    let ma = decimal_text(millis_a as nat);
    let mb = decimal_text(millis_b as nat);
    lemma_decimal_text_reads_back(process_a as nat);
    lemma_decimal_text_reads_back(process_b as nat);
    lemma_decimal_text_reads_back(thread_a as nat);
    lemma_decimal_text_reads_back(thread_b as nat);
    lemma_decimal_text_reads_back(millis_a as nat);
    lemma_decimal_text_reads_back(millis_b as nat);
    if name_a == name_b {
        let tail_a = pa + seq![0x5fu8] + (ta + seq![0x5fu8] + ma);
        let tail_b = pb + seq![0x5fu8] + (tb + seq![0x5fu8] + mb);
        assert(name_a =~= head + tail_a);
        assert(name_b =~= head + tail_b);
        assert(tail_a =~= tail_b) by {
            assert(tail_a.len() == tail_b.len());
            assert forall|i: int| 0 <= i < tail_a.len() implies tail_a[i] == tail_b[i] by {
                assert((head + tail_a)[head.len() + i] == tail_a[i]);
                assert((head + tail_b)[head.len() + i] == tail_b[i]);
            }
        }
        lemma_split_at_underscore(pa, ta + seq![0x5fu8] + ma, pb, tb + seq![0x5fu8] + mb);
        lemma_split_at_underscore(ta, ma, tb, mb);
        assert(process_a == process_b);
        assert(thread_a == thread_b);
        assert(millis_a == millis_b);
    }
}

/// What stands behind the name of a workspace at a later attempt to make
/// it: nothing at the first attempt, then an underscore and the number of
/// the attempt.
pub open spec fn attempt_suffix(attempt: u32) -> Seq<u8> {
    if attempt == 0 {
        Seq::empty()
    } else {
        seq![0x5fu8] + decimal_text(attempt as nat)
    }
}

/// The name of a workspace at a given attempt to make it.
pub open spec fn workspace_attempt_of(
    tag: Seq<u8>,
    process: u32,
    thread: u64,
    millis: u64,
    attempt: u32,
) -> Seq<u8> {
    workspace_name_of(tag, process, thread, millis) + attempt_suffix(attempt)
}

/// Names the workspace of a job at a given attempt to make it. The first
/// attempt is number 0.
pub fn workspace_attempt(tag: &[u8], process: u32, thread: u64, millis: u64, attempt: u32) -> (name:
    Vec<u8>)
    ensures
        name@ == workspace_attempt_of(tag@, process, thread, millis, attempt),
{
    let mut name: Vec<u8> = workspace_name(tag, process, thread, millis);
    if attempt > 0 {
        let ghost base = name@;
        name.push(0x5f);
        push_decimal(&mut name, attempt as u64);
        assert(name@ =~= base + attempt_suffix(attempt));
    } else {
        assert(name@ =~= name@ + attempt_suffix(attempt));
    }
    name
}

/// How the attempt to make the directory of a workspace went.
#[derive(Debug, Clone, PartialEq, Eq)]
pub enum Creation {
    /// The directory was not there and has been made.
    Created,
    /// A directory of that name is there already.
    Exists,
    /// The directory could not be made; carries the system's words.
    Failed(String),
}

/// What to do after an attempt to make the directory of a workspace.
#[derive(Debug, Clone, PartialEq, Eq)]
pub enum WorkspaceStep {
    /// The directory is the job's own: it was made by this attempt.
    Ready,
    /// The name is taken: try again under the name of this attempt.
    TryNext(u32),
    /// No workspace can be had: the job fails with this error.
    GiveUp(ConvertError),
}

/// The text of the failure of a job that found every name taken.
pub open spec fn no_free_name_text() -> Seq<char> {
    "every workspace name is taken"@
}

/// The step after an attempt to make the directory of a workspace.
pub open spec fn step_after(creation: Creation, attempt: u32, step: WorkspaceStep) -> bool {
    match creation {
        Creation::Created => step == WorkspaceStep::Ready,
        Creation::Exists => if attempt < u32::MAX {
            step == WorkspaceStep::TryNext((attempt + 1) as u32)
        } else {
            step matches WorkspaceStep::GiveUp(ConvertError::Workspace(why)) && why@
                == no_free_name_text()
        },
        Creation::Failed(reason) => step matches WorkspaceStep::GiveUp(
            ConvertError::Workspace(why),
        ) && why@ == reason@,
    }
}

/// Decides what to do after an attempt to make the directory of a
/// workspace. A job takes a directory as its workspace only where its own
/// attempt has made it, and so never one that another job holds; a name
/// that is taken sends it on to the next attempt.
pub fn after_creation(creation: Creation, attempt: u32) -> (step: WorkspaceStep)
    ensures
        step_after(creation, attempt, step),
        step is Ready <==> creation is Created,
{
    match creation {
        Creation::Created => WorkspaceStep::Ready,
        Creation::Exists => if attempt < u32::MAX {
            WorkspaceStep::TryNext(attempt + 1)
        } else {
            WorkspaceStep::GiveUp(
                ConvertError::Workspace(String::from_str("every workspace name is taken")),
            )
        },
        Creation::Failed(reason) => WorkspaceStep::GiveUp(ConvertError::Workspace(reason)),
    }
}

/// A run of digits is the same as another run of digits with an underscore
/// and more behind it only if it is not: digits hold no underscore.
proof fn lemma_digits_hold_no_underscore(a: Seq<u8>, b: Seq<u8>, x: Seq<u8>)
    requires
        all_digits(a),
        all_digits(b),
    ensures
        a != b + seq![0x5fu8] + x,
{
    let right = b + seq![0x5fu8] + x;
    if a == right {
        assert(right[b.len() as int] == 0x5fu8);
        assert(is_digit(a[b.len() as int]));
    }
}

/// What follows a common start of two equal texts is equal too.
proof fn lemma_same_head(head: Seq<u8>, x: Seq<u8>, y: Seq<u8>)
    requires
        head + x == head + y,
    ensures
        x == y,
{
    assert((head + x).len() == head.len() + x.len());
    assert((head + y).len() == head.len() + y.len());
    assert(x.len() == y.len());
    assert forall|i: int| 0 <= i < x.len() implies x[i] == y[i] by {
        assert((head + x)[head.len() + i] == x[i]);
        assert((head + y)[head.len() + i] == y[i]);
    }
    assert(x =~= y);
}

/// The time and the attempt at the end of a name can be read back from it.
proof fn lemma_time_and_attempt(millis_a: u64, attempt_a: u32, millis_b: u64, attempt_b: u32)
    requires
        decimal_text(millis_a as nat) + attempt_suffix(attempt_a) == decimal_text(millis_b as nat)
            + attempt_suffix(attempt_b),
    ensures
        millis_a == millis_b,
        attempt_a == attempt_b,
{
    let ma = decimal_text(millis_a as nat);
    let mb = decimal_text(millis_b as nat);
    let ka = decimal_text(attempt_a as nat);
    let kb = decimal_text(attempt_b as nat);
    let rest_a = ma + attempt_suffix(attempt_a);
    let rest_b = mb + attempt_suffix(attempt_b);
    lemma_decimal_text_reads_back(millis_a as nat);
    lemma_decimal_text_reads_back(millis_b as nat);
    lemma_decimal_text_reads_back(attempt_a as nat);
    lemma_decimal_text_reads_back(attempt_b as nat);
    if attempt_a == 0 && attempt_b == 0 {
        assert(rest_a =~= ma);
        assert(rest_b =~= mb);
    } else if attempt_a == 0 {
        assert(rest_a =~= ma);
        assert(rest_b =~= mb + seq![0x5fu8] + kb);
        lemma_digits_hold_no_underscore(ma, mb, kb);
    } else if attempt_b == 0 {
        assert(rest_b =~= mb);
        assert(rest_a =~= ma + seq![0x5fu8] + ka);
        lemma_digits_hold_no_underscore(mb, ma, ka);
    } else {
        assert(rest_a =~= ma + seq![0x5fu8] + ka);
        assert(rest_b =~= mb + seq![0x5fu8] + kb);
        lemma_split_at_underscore(ma, ka, mb, kb);
    }
}

/// Naming law, attempts: two workspace names of the same converter are the
/// same only where process, thread, time and attempt all agree. So the
/// names that one job tries, attempt after attempt, are all different, and
/// differ from every name that a job on another thread tries.
pub proof fn law_workspace_attempts_differ(
    tag: Seq<u8>,
    process_a: u32,
    thread_a: u64,
    millis_a: u64,
    attempt_a: u32,
    process_b: u32,
    thread_b: u64,
    millis_b: u64,
    attempt_b: u32,
)
    requires
        process_a != process_b || thread_a != thread_b || millis_a != millis_b || attempt_a
            != attempt_b,
    ensures
        workspace_attempt_of(tag, process_a, thread_a, millis_a, attempt_a)
            != workspace_attempt_of(tag, process_b, thread_b, millis_b, attempt_b),
{
    let name_a = workspace_attempt_of(tag, process_a, thread_a, millis_a, attempt_a);
    let name_b = workspace_attempt_of(tag, process_b, thread_b, millis_b, attempt_b);
    let head = workspace_prefix() + tag + seq![0x5fu8];
    let pa = decimal_text(process_a as nat);
    let pb = decimal_text(process_b as nat);
    let ta = decimal_text(thread_a as nat);
    let tb = decimal_text(thread_b as nat);
    let rest_a = decimal_text(millis_a as nat) + attempt_suffix(attempt_a);
    let rest_b = decimal_text(millis_b as nat) + attempt_suffix(attempt_b);
    let tail_a = pa + seq![0x5fu8] + (ta + seq![0x5fu8] + rest_a);
    let tail_b = pb + seq![0x5fu8] + (tb + seq![0x5fu8] + rest_b);
    assert(name_a == head + tail_a) by {
        assert(name_a =~= head + tail_a);
    }
    assert(name_b == head + tail_b) by {
        assert(name_b =~= head + tail_b);
    }
    if name_a == name_b {
        lemma_same_head(head, tail_a, tail_b);
        lemma_decimal_text_reads_back(process_a as nat);
        lemma_decimal_text_reads_back(process_b as nat);
        lemma_decimal_text_reads_back(thread_a as nat);
        lemma_decimal_text_reads_back(thread_b as nat);
        lemma_split_at_underscore(pa, ta + seq![0x5fu8] + rest_a, pb, tb + seq![0x5fu8] + rest_b);
        lemma_split_at_underscore(ta, rest_a, tb, rest_b);
        lemma_time_and_attempt(millis_a, attempt_a, millis_b, attempt_b);
    }
}

} // verus!
