//! Supervision of the encoder process: what its diagnostic lines say, what
//! to do when it is quiet, has exited or must be stopped, and how its exit
//! becomes the result of the job.

use crate::ascii::{
    after_spaces, after_word, contains, contains_bytes, is_space, matches_at, occurs_at,
    skip_spaces, skip_word, trim, trimmed,
};
use crate::digits::{all_digits, decimal_value, is_digit};
use crate::error::ConvertError;
use crate::progress::{ratio_den, ratio_num, Fraction};
use vstd::prelude::*;

verus! {

/// The key that stands before the frame counter in a status line: `frame=`.
pub open spec fn frame_key() -> Seq<u8> {
    seq![0x66u8, 0x72u8, 0x61u8, 0x6du8, 0x65u8, 0x3du8]
}

/// Whether a word of `s` starts at `at`: a byte that is no white space, at
/// the start of `s` or after white space.
pub open spec fn word_starts_at(s: Seq<u8>, at: int) -> bool {
    &&& 0 <= at < s.len()
    &&& !is_space(s[at])
    &&& (at == 0 || is_space(s[at - 1]))
}

/// Where the first word that begins with `frame=` starts, looking from
/// `from` on.
pub open spec fn frame_word(s: Seq<u8>, from: int) -> Option<int>
    decreases s.len() - from,
{
    if from < 0 || from >= s.len() {
        None
    } else if word_starts_at(s, from) && occurs_at(s, from, frame_key()) {
        Some(from)
    } else {
        frame_word(s, from + 1)
    }
}

/// The text of the frame counter in a status line: what follows `frame=` in
/// the first word that begins with it or, where that word ends there, the
/// word after it. `None` where no word begins with `frame=`.
pub open spec fn frame_value(s: Seq<u8>) -> Option<Seq<u8>> {
    match frame_word(s, 0) {
        None => None,
        Some(key) => {
            let end = skip_word(s, key);
            let next = skip_spaces(s, end);
            if end == key + 6 && next < s.len() {
                Some(s.subrange(next, skip_word(s, next)))
            } else {
                Some(s.subrange(key + 6, end))
            }
        },
    }
}

/// The digits of a count: the text itself, without the plus sign that may
/// stand in front.
pub open spec fn count_digits(text: Seq<u8>) -> Seq<u8> {
    if text.len() > 0 && text[0] == 0x2b {
        text.skip(1)
    } else {
        text
    }
}

/// The count that a text spells: one or more decimal digits, with or
/// without a plus sign in front, that make a number which fits `usize`.
pub open spec fn parse_count(text: Seq<u8>) -> Option<usize> {
    let digits = count_digits(text);
    if digits.len() > 0 && all_digits(digits) && decimal_value(digits) <= usize::MAX {
        Some(decimal_value(digits) as usize)
    } else {
        None
    }
}

/// The frame counter of a status line, where it has one that reads as a
/// count.
pub open spec fn frame_number_of(line: Seq<u8>) -> Option<usize> {
    match frame_value(line) {
        Some(text) => parse_count(text),
        None => None,
    }
}

/// A number only grows as digits are added behind it.
proof fn lemma_decimal_value_prefix(digits: Seq<u8>, m: int)
    requires
        all_digits(digits),
        0 <= m <= digits.len(),
    ensures
        decimal_value(digits.take(m)) <= decimal_value(digits),
    decreases digits.len() - m,
{
    if m < digits.len() {
        lemma_decimal_value_prefix(digits.drop_last(), m);
        assert(digits.drop_last().take(m) =~= digits.take(m));
        assert(is_digit(digits.last()));
    } else {
        assert(digits.take(m) =~= digits);
    }
}

/// Reads `s[start..end]` as a count.
pub fn read_count(s: &[u8], start: usize, end: usize) -> (r: Option<usize>)
    requires
        start <= end <= s.len(),
    ensures
        r == parse_count(s@.subrange(start as int, end as int)),
{
    let ghost text = s@.subrange(start as int, end as int);
    let first: usize = if start < end && s[start] == 0x2b {
        start + 1
    } else {
        start
    };
    let ghost digits = s@.subrange(first as int, end as int);
    assert(digits =~= count_digits(text));
    if first == end {
        return None;
    }
    let mut value: usize = 0;
    let mut k: usize = first;
    while k < end
        invariant
            start <= first <= k <= end <= s.len(),
            digits == s@.subrange(first as int, end as int),
            digits == count_digits(s@.subrange(start as int, end as int)),
            digits.len() > 0,
            forall|j: int| 0 <= j < k - first ==> is_digit(#[trigger] digits[j]),
            value == decimal_value(digits.take(k - first)),
        decreases end - k,
    {
        let b: u8 = s[k];
        if b < 0x30 || b > 0x39 {
            assert(!is_digit(digits[k - first]));
            return None;
        }
        let d: usize = (b - 0x30) as usize;
        proof {
            let next = digits.take(k - first + 1);
            assert(next.drop_last() =~= digits.take(k - first));
            assert(next.last() == b);
        }
        if value > (usize::MAX - d) / 10 {
            proof {
                let next = digits.take(k - first + 1);
                assert(decimal_value(next) == value * 10 + d);
                assert(decimal_value(next) > usize::MAX);
                if all_digits(digits) {
                    lemma_decimal_value_prefix(digits, k - first + 1);
                }
            }
            return None;
        }
        value = value * 10 + d;
        k += 1;
    }
    assert(digits.take(end - first) =~= digits);
    Some(value)
}

fn key_bytes() -> (key: [u8; 6])
    ensures
        key@ == frame_key(),
{
    let key: [u8; 6] = [0x66, 0x72, 0x61, 0x6d, 0x65, 0x3d];
    assert(key@ =~= frame_key());
    key
}

/// Reads the frame counter out of one line of the encoder's status output.
pub fn frame_number(line: &[u8]) -> (r: Option<usize>)
    ensures
        r == frame_number_of(line@),
{
    let key: [u8; 6] = key_bytes();
    let mut at: usize = 0;
    while at < line.len()
        invariant
            at <= line.len(),
            key@ == frame_key(),
            frame_word(line@, 0) == frame_word(line@, at as int),
        decreases line.len() - at,
    {
        let starts: bool = !crate::ascii::byte_is_space(line[at]) && (at == 0
            || crate::ascii::byte_is_space(line[at - 1]));
        if starts && matches_at(line, at, key.as_slice()) {
            let end: usize = after_word(line, at);
            let next: usize = after_spaces(line, end);
            if end == at + 6 && next < line.len() {
                let stop: usize = after_word(line, next);
                return read_count(line, next, stop);
            }
            proof {
                lemma_word_holds_key(line@, at as int);
            }
            return read_count(line, at + 6, end);
        }
        at += 1;
    }
    None
}

/// A word that begins with `frame=` does not end before the key does.
proof fn lemma_word_holds_key(s: Seq<u8>, at: int)
    requires
        occurs_at(s, at, frame_key()),
    ensures
        at + 6 <= skip_word(s, at) <= s.len(),
{
    let key = frame_key();
    assert(s.subrange(at, at + 6) == key);
    assert forall|j: int| 0 <= j < 6 implies !is_space(#[trigger] s[at + j]) by {
        assert(s.subrange(at, at + 6)[j] == s[at + j]);
        assert(key[j] == s[at + j]);
    }
    assert(!is_space(s[at + 0]));
    assert(skip_word(s, at) == skip_word(s, at + 1));
    assert(!is_space(s[at + 1]));
    assert(skip_word(s, at + 1) == skip_word(s, at + 2));
    assert(!is_space(s[at + 2]));
    assert(skip_word(s, at + 2) == skip_word(s, at + 3));
    assert(!is_space(s[at + 3]));
    assert(skip_word(s, at + 3) == skip_word(s, at + 4));
    assert(!is_space(s[at + 4]));
    assert(skip_word(s, at + 4) == skip_word(s, at + 5));
    assert(!is_space(s[at + 5]));
    assert(skip_word(s, at + 5) == skip_word(s, at + 6));
    lemma_skip_word_range(s, at + 6);
}

/// `skip_word` stops at or after where it starts, inside the text.
proof fn lemma_skip_word_range(s: Seq<u8>, from: int)
    requires
        0 <= from <= s.len(),
    ensures
        from <= skip_word(s, from) <= s.len(),
    decreases s.len() - from,
{
    if from < s.len() && !is_space(s[from]) {
        lemma_skip_word_range(s, from + 1);
    }
}

/// The word `Error`.
pub open spec fn mark_error() -> Seq<u8> {
    seq![0x45u8, 0x72u8, 0x72u8, 0x6fu8, 0x72u8]
}

/// The word `Invalid`.
pub open spec fn mark_invalid() -> Seq<u8> {
    seq![0x49u8, 0x6eu8, 0x76u8, 0x61u8, 0x6cu8, 0x69u8, 0x64u8]
}

/// The words `Could not`.
pub open spec fn mark_could_not() -> Seq<u8> {
    seq![0x43u8, 0x6fu8, 0x75u8, 0x6cu8, 0x64u8, 0x20u8, 0x6eu8, 0x6fu8, 0x74u8]
}

/// Whether a diagnostic line looks fatal: it holds `Error`, `Invalid` or
/// `Could not`.
pub open spec fn is_fatal(line: Seq<u8>) -> bool {
    contains(line, mark_error()) || contains(line, mark_invalid()) || contains(
        line,
        mark_could_not(),
    )
}

/// Decides `is_fatal`.
pub fn is_fatal_line(line: &[u8]) -> (r: bool)
    ensures
        r == is_fatal(line@),
{
    let error: [u8; 5] = [0x45, 0x72, 0x72, 0x6f, 0x72];
    let invalid: [u8; 7] = [0x49, 0x6e, 0x76, 0x61, 0x6c, 0x69, 0x64];
    let could_not: [u8; 9] = [0x43, 0x6f, 0x75, 0x6c, 0x64, 0x20, 0x6e, 0x6f, 0x74];
    assert(error@ =~= mark_error());
    assert(invalid@ =~= mark_invalid());
    assert(could_not@ =~= mark_could_not());
    contains_bytes(line, error.as_slice()) || contains_bytes(line, invalid.as_slice())
        || contains_bytes(line, could_not.as_slice())
}

/// How the encoder process ended.
#[derive(Debug, Clone, Copy, PartialEq, Eq)]
pub enum Exit {
    /// With exit status zero.
    Success,
    /// With another status; carries the exit code where there is one.
    Failure(Option<i32>),
}

/// What the supervisor does next.
#[derive(Debug, Clone, PartialEq, Eq)]
pub enum Directive {
    /// Kill the process, reap it, and fail the job with this error.
    Abort(ConvertError),
    /// The process has exited: conclude with this exit.
    Finish(Exit),
    /// Keep waiting: poll again after the polling interval.
    Wait,
}

/// Decides what to do at one turn of the polling loop. A cancellation comes
/// first: the process is killed even where it has just exited.
pub fn next_step(cancelled: bool, exited: Option<Exit>) -> (d: Directive)
    ensures
        cancelled ==> d == Directive::Abort(ConvertError::Cancelled),
        !cancelled ==> match exited {
            Some(exit) => d == Directive::Finish(exit),
            None => d == Directive::Wait,
        },
{
    if cancelled {
        return Directive::Abort(ConvertError::Cancelled);
    }
    match exited {
        Some(exit) => Directive::Finish(exit),
        None => Directive::Wait,
    }
}

/// Decides what to do once the caller has stopped writing to the encoder's
/// input: after a failed write the process is killed and the failure is the
/// job's; after a complete one the input is closed and the exit awaited.
pub fn after_streaming(written: Result<(), ConvertError>) -> (d: Directive)
    ensures
        match written {
            Ok(_) => d == Directive::Wait,
            Err(e) => d == Directive::Abort(e),
        },
{
    match written {
        Ok(_) => Directive::Wait,
        Err(e) => Directive::Abort(e),
    }
}

/// The bytes of a diagnostic, where there is one.
pub open spec fn diagnostic_view(d: Option<Vec<u8>>) -> Option<Seq<u8>> {
    match d {
        Some(line) => Some(line@),
        None => None,
    }
}

/// Watches the diagnostics of one encoder run.
pub struct Supervisor {
    total_frames: Option<usize>,
    diagnostic: Option<Vec<u8>>,
}

impl Supervisor {
    /// The number of frames that the run is expected to encode, where the
    /// caller has said it.
    pub closed spec fn expected_frames(&self) -> Option<usize> {
        self.total_frames
    }

    /// The last fatal line seen so far, trimmed.
    pub closed spec fn last_diagnostic(&self) -> Option<Seq<u8>> {
        diagnostic_view(self.diagnostic)
    }

    /// A supervisor that has seen nothing yet.
    pub fn new(total_frames: Option<usize>) -> (s: Supervisor)
        ensures
            s.expected_frames() == total_frames,
            s.last_diagnostic() == None::<Seq<u8>>,
    {
        Supervisor { total_frames, diagnostic: None }
    }

    /// Takes in one line of the encoder's diagnostics.
    ///
    /// A line that looks fatal becomes the last diagnostic. Where the
    /// expected number of frames is known and the line holds a frame
    /// counter, the result is the fraction of the frames done.
    pub fn observe_line(&mut self, line: &[u8]) -> (r: Option<Fraction>)
        ensures
            final(self).expected_frames() == old(self).expected_frames(),
            final(self).last_diagnostic() == if is_fatal(line@) {
                Some(trimmed(line@))
            } else {
                old(self).last_diagnostic()
            },
            r is Some <==> old(self).expected_frames() is Some && frame_number_of(line@) is Some,
            r matches Some(f) ==> {
                &&& f.num() == ratio_num(
                    frame_number_of(line@)->0,
                    old(self).expected_frames()->0,
                )
                &&& f.den() == ratio_den(old(self).expected_frames()->0)
            },
    {
        if is_fatal_line(line) {
            self.diagnostic = Some(trim(line));
        }
        match self.total_frames {
            Some(total) => match frame_number(line) {
                Some(frame) => Some(Fraction::ratio(frame, total)),
                None => None,
            },
            None => None,
        }
    }

    /// Turns the exit of the process into the result of the job: success
    /// for exit status zero, otherwise an `EncoderExit` that carries the
    /// exit code and the last diagnostic.
    pub fn conclude(self, exit: Exit) -> (r: Result<(), ConvertError>)
        ensures
            exit is Success <==> r is Ok,
            exit matches Exit::Failure(code) ==> (r matches Err(
                ConvertError::EncoderExit { status, diagnostic },
            ) && status == code && diagnostic_view(diagnostic) == self.last_diagnostic()),
    {
        match exit {
            Exit::Success => Ok(()),
            Exit::Failure(code) => Err(
                ConvertError::EncoderExit { status: code, diagnostic: self.diagnostic },
            ),
        }
    }
}

} // verus!
