//! Progress reporting: the events of a job's life, the fraction of a job
//! that is done, and a reporter that hands out a job's events in the order
//! the protocol asks for.

use crate::error::ConvertError;
use vstd::prelude::*;
use vstd::string::StringExecFns;

verus! {

/// The denominator of `done` out of `total` as a fraction: the total, or 1
/// where there is nothing to do.
pub open spec fn ratio_den(total: usize) -> int {
    if total == 0 {
        1
    } else {
        total as int
    }
}

/// The numerator of `done` out of `total` as a fraction: what is done, but
/// no more than the total; all of it where there is nothing to do.
pub open spec fn ratio_num(done: usize, total: usize) -> int {
    if total == 0 {
        1
    } else if done <= total {
        done as int
    } else {
        total as int
    }
}

/// How much of a job is done: a fraction between 0 and 1.
#[derive(Debug, Clone, Copy, PartialEq, Eq)]
pub struct Fraction {
    num: usize,
    den: usize,
}

impl Fraction {
    #[verifier::type_invariant]
    spec fn proper(&self) -> bool {
        self.num <= self.den && self.den > 0
    }

    /// The numerator.
    pub closed spec fn num(&self) -> int {
        self.num as int
    }

    /// The denominator.
    pub closed spec fn den(&self) -> int {
        self.den as int
    }

    /// `done` out of `total`, held to the range from 0 to 1: more than the
    /// total counts as all of it. A job with nothing to do is done.
    pub fn ratio(done: usize, total: usize) -> (f: Fraction)
        ensures
            f.num() == ratio_num(done, total),
            f.den() == ratio_den(total),
    {
        if total == 0 {
            Fraction { num: 1, den: 1 }
        } else if done <= total {
            Fraction { num: done, den: total }
        } else {
            Fraction { num: total, den: total }
        }
    }

    /// One half: the mark of a job whose raw media is written and whose
    /// encoding is about to start.
    pub fn half() -> (f: Fraction)
        ensures
            f.num() == 1,
            f.den() == 2,
    {
        Fraction { num: 1, den: 2 }
    }

    /// The numerator; never more than the denominator.
    pub fn numerator(&self) -> (n: usize)
        ensures
            n == self.num(),
            0 <= self.num() <= self.den(),
    {
        proof {
            use_type_invariant(self);
        }
        self.num
    }

    /// The denominator; never zero.
    pub fn denominator(&self) -> (d: usize)
        ensures
            d == self.den(),
            0 < self.den(),
    {
        proof {
            use_type_invariant(self);
        }
        self.den
    }

    /// The fraction in thousandths, rounded down: a whole number from 0 to
    /// 1000.
    pub fn per_mille(&self) -> (p: u32)
        ensures
            p == self.num() * 1000 / self.den(),
            p <= 1000,
    {
        proof {
            use_type_invariant(self);
            assert(0 <= self.num * 1000 / (self.den as int) <= 1000) by (nonlinear_arith)
                requires
                    0 <= self.num <= self.den,
                    0 < self.den,
            ;
            assert(self.num * 1000 <= 0xffff_ffff_ffff_ffff * 1000);
        }
        ((self.num as u128) * 1000 / (self.den as u128)) as u32
    }
}

/// How often a stream of frames reports: once every 250 frames.
pub const REPORT_EVERY: usize = 250;

/// The progress to report after frame number `count` of `total` has been
/// written, if that frame is one to report after.
pub fn stream_progress(count: usize, total: usize) -> (r: Option<Fraction>)
    ensures
        r is Some <==> count % 250 == 0,
        r matches Some(f) ==> f.num() == ratio_num(count, total) && f.den() == ratio_den(total),
{
    if count % REPORT_EVERY == 0 {
        Some(Fraction::ratio(count, total))
    } else {
        None
    }
}

/// One event in the life of a batch or of one of its jobs.
#[derive(Debug, Clone, PartialEq, Eq)]
pub enum Progress {
    /// The batch has `total` jobs.
    Init { total: usize },
    /// The job `name` has started.
    Start { name: String },
    /// The job `name` has come this far.
    Update { name: String, fraction: Fraction },
    /// The job `name` has produced its output.
    Done { name: String },
    /// The job `name` has ended without output, for the reason in `error`.
    Error { name: String, error: String },
}

impl Progress {
    /// The name of the job that the event is about; a batch-wide event is
    /// about none.
    pub open spec fn job(self) -> Option<Seq<char>> {
        match self {
            Progress::Init { total } => None,
            Progress::Start { name } => Some(name@),
            Progress::Update { name, fraction } => Some(name@),
            Progress::Done { name } => Some(name@),
            Progress::Error { name, error } => Some(name@),
        }
    }

    /// Whether the event ends a job.
    pub open spec fn is_terminal(self) -> bool {
        self is Done || self is Error
    }

    /// Whether the event reports a cancellation rather than a failure.
    pub open spec fn is_cancellation(self) -> bool {
        self matches Progress::Error { name, error } && error@ == crate::error::cancelled_text()
    }

    /// Tells the end of a cancelled job from a genuine failure, so that a
    /// presentation layer can keep it off its error surfaces.
    pub fn reports_cancellation(&self) -> (r: bool)
        ensures
            r == self.is_cancellation(),
    {
        match self {
            Progress::Error { name, error } => {
                let cancelled: String = String::from_str("Cancelled.");
                *error == cancelled
            },
            _ => false,
        }
    }
}

/// How a job ended.
#[derive(Debug, Clone, PartialEq, Eq)]
pub enum JobOutcome {
    /// The output was produced and committed.
    Completed,
    /// The job failed or was cancelled.
    Failed(ConvertError),
}

/// The event that ends the job `name` with `outcome`.
pub open spec fn terminal_event(name: Seq<char>, outcome: JobOutcome, event: Progress) -> bool {
    match outcome {
        JobOutcome::Completed => event matches Progress::Done { name: n } && n@ == name,
        JobOutcome::Failed(e) => event matches Progress::Error { name: n, error: m } && n@ == name
            && m@ == e.text(),
    }
}

/// The events of one job, in the order the protocol allows: a start, then
/// any number of updates, then at most one end; all of them about the job
/// `name`.
pub open spec fn follows_protocol(log: Seq<Progress>, name: Seq<char>) -> bool {
    &&& forall|i: int| 0 <= i < log.len() ==> (#[trigger] log[i]).job() == Some(name)
    &&& log.len() > 0 ==> log[0] is Start
    &&& forall|i: int| 0 < i < log.len() - 1 ==> #[trigger] log[i] is Update
    &&& log.len() > 1 ==> log.last() is Update || log.last().is_terminal()
}

/// Protocol law: in the events of a job the start comes first and only
/// first, and an end comes last and only last; so a job starts exactly once
/// before anything else is said of it, and ends at most once.
pub proof fn law_one_start_one_end(log: Seq<Progress>, name: Seq<char>, i: int)
    requires
        follows_protocol(log, name),
        0 <= i < log.len(),
    ensures
        log[i] is Start <==> i == 0,
        log[i].is_terminal() ==> i == log.len() - 1 && i > 0,
{
    if 0 < i < log.len() - 1 {
        assert(log[i] is Update);
    }
}

/// Whether the job of this log has ended.
pub open spec fn has_ended(log: Seq<Progress>) -> bool {
    log.len() > 1 && log.last().is_terminal()
}

/// The stage of a job's reporting.
#[derive(Debug, Clone, Copy, PartialEq, Eq, Structural)]
pub enum Stage {
    /// Nothing reported yet.
    Idle,
    /// Started, not ended.
    Running,
    /// Ended.
    Finished,
}

/// Keeps the record of what has been reported of one job, and hands out
/// each event that the protocol allows, for the caller to put on the bus.
/// It keeps to the protocol whatever is asked of it: a call out of turn
/// hands out nothing.
pub struct JobReporter {
    name: String,
    track: Track,
}

/// How far the reporting has come, with the events handed out so far.
struct Track {
    stage: Stage,
    log: Ghost<Seq<Progress>>,
}

/// The event that reports how far the job `name` has come.
pub open spec fn is_update(event: Progress, name: Seq<char>, fraction: Fraction) -> bool {
    event matches Progress::Update { name: n, fraction: f } && n@ == name && f == fraction
}

/// The event that reports the start of the job `name`.
pub open spec fn is_start(event: Progress, name: Seq<char>) -> bool {
    event matches Progress::Start { name: n } && n@ == name
}

impl JobReporter {
    #[verifier::type_invariant]
    spec fn consistent(&self) -> bool {
        &&& follows_protocol(self.track.log@, self.name@)
        &&& self.track.stage == Stage::Idle <==> self.track.log@.len() == 0
        &&& self.track.stage == Stage::Finished <==> has_ended(self.track.log@)
    }

    /// The name of the job.
    pub closed spec fn job_name(&self) -> Seq<char> {
        self.name@
    }

    /// Every event that this reporter has handed out, oldest first.
    pub closed spec fn history(&self) -> Seq<Progress> {
        self.track.log@
    }

    /// The stage that the reporting has reached.
    pub closed spec fn stage_spec(&self) -> Stage {
        self.track.stage
    }

    /// A reporter for the job `name` that has handed out nothing yet.
    pub fn new(name: String) -> (r: JobReporter)
        ensures
            r.job_name() == name@,
            r.history() == Seq::<Progress>::empty(),
            r.stage_spec() == Stage::Idle,
    {
        JobReporter { name, track: Track { stage: Stage::Idle, log: Ghost(Seq::empty()) } }
    }

    /// The stage that the reporting has reached.
    pub fn stage(&self) -> (s: Stage)
        ensures
            s == self.stage_spec(),
            s == Stage::Idle <==> self.history().len() == 0,
            s == Stage::Finished <==> has_ended(self.history()),
            follows_protocol(self.history(), self.job_name()),
    {
        proof {
            use_type_invariant(self);
        }
        self.track.stage
    }

    /// Hands out the event that the job has started. Does so only once: on
    /// a job that has already started it hands out nothing.
    pub fn start(&mut self) -> (r: Option<Progress>)
        ensures
            final(self).job_name() == old(self).job_name(),
            r is Some <==> old(self).stage_spec() == Stage::Idle,
            r matches Some(event) ==> {
                &&& is_start(event, old(self).job_name())
                &&& final(self).stage_spec() == Stage::Running
                &&& final(self).history() == old(self).history().push(event)
            },
            r is None ==> final(self).history() == old(self).history() && final(self).stage_spec()
                == old(self).stage_spec(),
            follows_protocol(final(self).history(), final(self).job_name()),
    {
        proof {
            use_type_invariant(&*self);
        }
        if self.track.stage != Stage::Idle {
            return None;
        }
        let event = Progress::Start { name: self.name.clone() };
        let ghost before = self.track.log@;
        assert(before =~= Seq::<Progress>::empty());
        self.track = Track { stage: Stage::Running, log: Ghost(before.push(event)) };
        Some(event)
    }

    /// Hands out the event that says how far the job has come. Does so only
    /// between start and end: otherwise it hands out nothing.
    pub fn update(&mut self, fraction: Fraction) -> (r: Option<Progress>)
        ensures
            final(self).job_name() == old(self).job_name(),
            final(self).stage_spec() == old(self).stage_spec(),
            r is Some <==> old(self).stage_spec() == Stage::Running,
            r matches Some(event) ==> {
                &&& is_update(event, old(self).job_name(), fraction)
                &&& final(self).history() == old(self).history().push(event)
            },
            r is None ==> final(self).history() == old(self).history(),
            follows_protocol(final(self).history(), final(self).job_name()),
    {
        proof {
            use_type_invariant(&*self);
        }
        if self.track.stage != Stage::Running {
            return None;
        }
        let event = Progress::Update { name: self.name.clone(), fraction };
        let ghost before = self.track.log@;
        proof {
            assert(before.push(event).drop_last() =~= before);
        }
        self.track = Track { stage: Stage::Running, log: Ghost(before.push(event)) };
        Some(event)
    }

    /// Hands out the event that ends the job: `Done` where it completed,
    /// `Error` with the failure's text where it did not; a cancellation is
    /// an error with the text of a cancellation. Does so only once and only
    /// for a started job: otherwise it hands out nothing.
    pub fn finish(&mut self, outcome: JobOutcome) -> (r: Option<Progress>)
        ensures
            final(self).job_name() == old(self).job_name(),
            r is Some <==> old(self).stage_spec() == Stage::Running,
            r matches Some(event) ==> {
                &&& terminal_event(old(self).job_name(), outcome, event)
                &&& final(self).stage_spec() == Stage::Finished
                &&& final(self).history() == old(self).history().push(event)
            },
            r is None ==> final(self).history() == old(self).history() && final(self).stage_spec()
                == old(self).stage_spec(),
            follows_protocol(final(self).history(), final(self).job_name()),
    {
        proof {
            use_type_invariant(&*self);
        }
        if self.track.stage != Stage::Running {
            return None;
        }
        let event = match &outcome {
            JobOutcome::Completed => Progress::Done { name: self.name.clone() },
            JobOutcome::Failed(e) => Progress::Error { name: self.name.clone(), error: e.message() },
        };
        let ghost before = self.track.log@;
        proof {
            assert(before.push(event).drop_last() =~= before);
        }
        self.track = Track { stage: Stage::Finished, log: Ghost(before.push(event)) };
        Some(event)
    }
}

} // verus!
