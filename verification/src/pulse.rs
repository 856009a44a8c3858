//! Pulse synthesis: the timetable of heartbeats that fills a fixed stretch
//! of audio, and the layout of the two lobes inside one beat.

use crate::cancel::{checkpoint, CancellationToken};
use crate::digits::{all_digits, ascii_digits, decimal_value, digits_of, read_group};
use crate::error::{ConvertError, InputError};
use vstd::prelude::*;

verus! {

/// Samples per second of the synthesized audio.
pub const SAMPLE_RATE: u32 = 44100;

/// Samples in one minute of audio.
pub const SAMPLES_PER_MINUTE: usize = 2646000;

/// Samples in the finished audio: twelve minutes of it.
pub const TOTAL_SAMPLES: usize = 31752000;

/// The `k`-th rate spelled by a run of digits, three digits to a rate; the
/// last rate may have only one or two.
pub open spec fn rate_at(digits: Seq<u8>, k: int) -> nat {
    decimal_value(
        digits.subrange(
            3 * k,
            if 3 * k + 3 <= digits.len() {
                3 * k + 3
            } else {
                digits.len() as int
            },
        ),
    )
}

/// Reads the list of rates, in beats per minute, out of extracted text.
///
/// Only the ASCII digits of the text count; every three of them spell one
/// rate, and what is left at the end spells a last, shorter one.
pub fn parse_rates(text: &[u8]) -> (rates: Vec<u32>)
    ensures
        rates.len() == (digits_of(text@).len() + 2) / 3,
        forall|k: int| 0 <= k < rates.len() ==> #[trigger] rates[k] == rate_at(digits_of(text@), k),
{
    let digits: Vec<u8> = ascii_digits(text);
    let n: usize = digits.len();
    let mut rates: Vec<u32> = Vec::new();
    let mut at: usize = 0;
    while at < n
        invariant
            at <= n,
            n == digits.len(),
            at < n ==> at % 3 == 0,
            at >= n ==> rates.len() == (n + 2) / 3,
            at < n ==> rates.len() == at / 3,
            digits@ == digits_of(text@),
            all_digits(digits@),
            forall|k: int| 0 <= k < rates.len() ==> #[trigger] rates[k] == rate_at(digits@, k),
        decreases n - at,
    {
        let end: usize = if n - at >= 3 {
            at + 3
        } else {
            n
        };
        let value: u32 = read_group(digits.as_slice(), at, end);
        rates.push(value);
        at = end;
    }
    rates
}

/// A rate that can be played: at least one beat a minute, and no more than
/// one beat a sample.
pub open spec fn valid_rate(rate: u32) -> bool {
    1 <= rate <= SAMPLES_PER_MINUTE
}

/// Samples in one beat at `rate` beats a minute: a minute's samples shared
/// out among the beats, rounded down.
pub open spec fn beat_len(rate: u32) -> int {
    SAMPLES_PER_MINUTE as int / rate as int
}

/// How many beats the `rate` of one list entry is played for, in a list of
/// `n` entries: the beats that fit its share of the total time, stretched
/// by 1.0255, rounded to the nearest whole beat.
pub open spec fn pulses(rate: u32, n: int) -> int {
    (rate * 12306 + 500 * n) / (1000 * n)
}

/// The rate of beat `k`, counted from entry `j` of the list on: each entry
/// is played for its `pulses`, and the last entry for as long as needed.
pub open spec fn rate_from(rates: Seq<u32>, j: int, k: int) -> u32
    decreases rates.len() - j,
{
    if j >= rates.len() - 1 {
        rates[rates.len() - 1]
    } else if k < pulses(rates[j], rates.len() as int) {
        rates[j]
    } else {
        rate_from(rates, j + 1, k - pulses(rates[j], rates.len() as int))
    }
}

/// The rate of the `k`-th beat of the audio.
pub open spec fn beat_rate(rates: Seq<u32>, k: int) -> u32 {
    rate_from(rates, 0, k)
}

/// The sample at which the `k`-th beat starts: the beats before it, laid end
/// to end.
pub open spec fn beat_start(rates: Seq<u32>, k: int) -> int
    decreases k,
{
    if k <= 0 {
        0
    } else {
        beat_start(rates, k - 1) + beat_len(beat_rate(rates, k - 1))
    }
}

/// One beat of the timetable.
#[derive(Debug, Clone, Copy, PartialEq, Eq, Structural)]
pub struct Beat {
    /// The sample at which the beat starts.
    pub start: usize,
    /// Samples of the beat that are played; fewer than a whole beat only
    /// where the audio ends.
    pub len: usize,
    /// Beats per minute.
    pub rate: u32,
}

/// Beat `k` of `plan` is the `k`-th beat of the audio for `rates`.
pub open spec fn is_beat(beat: Beat, rates: Seq<u32>, k: int) -> bool {
    &&& beat.rate == beat_rate(rates, k)
    &&& beat.start == beat_start(rates, k)
    &&& beat.start < TOTAL_SAMPLES
    &&& beat.len == if beat_len(beat.rate) <= TOTAL_SAMPLES - beat.start {
        beat_len(beat.rate)
    } else {
        TOTAL_SAMPLES - beat.start
    }
}

/// `plan` is the timetable for `rates`: beat after beat from sample 0 on,
/// each at its scheduled rate, the last one cut where the audio ends.
pub open spec fn is_plan(plan: Seq<Beat>, rates: Seq<u32>) -> bool {
    &&& plan.len() > 0
    &&& forall|k: int| 0 <= k < plan.len() ==> is_beat(#[trigger] plan[k], rates, k)
    &&& plan.last().start + plan.last().len == TOTAL_SAMPLES
}

/// Every rate of the list can be played.
pub open spec fn all_valid(rates: Seq<u32>) -> bool {
    forall|i: int| 0 <= i < rates.len() ==> valid_rate(#[trigger] rates[i])
}

/// Whether every rate of the list can be played.
pub fn rates_are_valid(rates: &Vec<u32>) -> (ok: bool)
    ensures
        ok == all_valid(rates@),
{
    let mut i: usize = 0;
    while i < rates.len()
        invariant
            i <= rates.len(),
            forall|k: int| 0 <= k < i ==> valid_rate(#[trigger] rates[k]),
        decreases rates.len() - i,
    {
        if rates[i] == 0 || rates[i] as usize > SAMPLES_PER_MINUTE {
            return false;
        }
        i += 1;
    }
    true
}

fn pulses_for(rate: u32, n: usize) -> (p: u128)
    requires
        n >= 1,
    ensures
        p == pulses(rate, n as int),
{
    ((rate as u128) * 12306 + 500 * (n as u128)) / (1000 * (n as u128))
}

fn plan_with(rates: &Vec<u32>, token: Option<&CancellationToken>) -> (r: Result<
    Vec<Beat>,
    ConvertError,
>)
    ensures
        r matches Ok(plan) ==> is_plan(plan@, rates@),
        r is Ok ==> rates.len() > 0 && all_valid(rates@),
        r matches Err(e) ==> {
            ||| e == ConvertError::Input(InputError::EmptyData) && rates.len() == 0
            ||| e == ConvertError::Input(InputError::InvalidRate) && rates.len() > 0 && !all_valid(
                rates@,
            )
            ||| e is Cancelled && token is Some && rates.len() > 0 && all_valid(rates@)
        },
        token is None && rates.len() > 0 && all_valid(rates@) ==> r is Ok,
{
    let n: usize = rates.len();
    if n == 0 {
        return Err(ConvertError::Input(InputError::EmptyData));
    }
    if !rates_are_valid(rates) {
        return Err(ConvertError::Input(InputError::InvalidRate));
    }
    let mut plan: Vec<Beat> = Vec::new();
    let mut written: usize = 0;
    let mut j: usize = 0;
    let mut played: u128 = 0;
    while written < TOTAL_SAMPLES
        invariant
            n == rates.len(),
            n > 0,
            all_valid(rates@),
            j < n,
            written <= TOTAL_SAMPLES,
            plan.len() <= written,
            written > 0 ==> plan.len() > 0,
            played <= plan.len(),
            written < TOTAL_SAMPLES ==> written == beat_start(rates@, plan.len() as int),
            forall|k: int| 0 <= k < plan.len() ==> is_beat(#[trigger] plan[k], rates@, k),
            plan.len() > 0 ==> plan@.last().start + plan@.last().len == written,
            forall|m: int|
                0 <= m ==> #[trigger] rate_from(rates@, 0, plan.len() + m) == rate_from(
                    rates@,
                    j as int,
                    played + m,
                ),
            j + 1 < n ==> played <= pulses(rates[j as int], n as int),
        decreases TOTAL_SAMPLES - written,
    {
        if let Some(t) = token {
            match checkpoint(t.is_cancelled()) {
                Ok(_) => {},
                Err(e) => {
                    return Err(e);
                },
            }
        }
        while j + 1 < n && played >= pulses_for(rates[j], n)
            invariant
                n == rates.len(),
                j < n,
                played <= plan.len(),
                forall|m: int|
                    0 <= m ==> #[trigger] rate_from(rates@, 0, plan.len() + m) == rate_from(
                        rates@,
                        j as int,
                        played + m,
                    ),
                j + 1 < n ==> played <= pulses(rates[j as int], n as int),
            decreases n - j,
        {
            proof {
                let p = pulses(rates[j as int], n as int);
                assert(0 <= p) by (nonlinear_arith)
                    requires
                        p == (rates[j as int] * 12306 + 500 * n) / (1000 * n),
                        n > 0,
                        rates[j as int] >= 0,
                ;
                assert forall|m: int| 0 <= m implies #[trigger] rate_from(
                    rates@,
                    0,
                    plan.len() + m,
                ) == rate_from(rates@, j + 1, 0 + m) by {
                    assert(rate_from(rates@, j as int, played + m) == rate_from(
                        rates@,
                        j + 1,
                        played + m - p,
                    ));
                }
                if j + 2 < n {
                    let q = pulses(rates[j + 1], n as int);
                    assert(0 <= q) by (nonlinear_arith)
                        requires
                            q == (rates[j + 1] * 12306 + 500 * n) / (1000 * n),
                            n > 0,
                            rates[j + 1] >= 0,
                    ;
                }
            }
            j += 1;
            played = 0;
        }
        let rate: u32 = rates[j];
        let whole: usize = SAMPLES_PER_MINUTE / (rate as usize);
        let len: usize = if whole <= TOTAL_SAMPLES - written {
            whole
        } else {
            TOTAL_SAMPLES - written
        };
        proof {
            let k = plan.len() as int;
            assert(rate_from(rates@, 0, k + 0) == rate_from(rates@, j as int, played + 0));
            assert(rate_from(rates@, j as int, played as int) == rate);
            assert(beat_rate(rates@, k) == rate);
            assert(valid_rate(rate));
            assert(whole >= 1) by (nonlinear_arith)
                requires
                    whole == 2646000int / (rate as int),
                    1 <= rate <= 2646000,
            ;
            assert(beat_start(rates@, k + 1) == beat_start(rates@, k) + beat_len(rate));
            assert forall|m: int| 0 <= m implies #[trigger] rate_from(rates@, 0, k + 1 + m)
                == rate_from(rates@, j as int, played + 1 + m) by {
                assert(rate_from(rates@, 0, k + (m + 1)) == rate_from(
                    rates@,
                    j as int,
                    played + (m + 1),
                ));
            }
        }
        plan.push(Beat { start: written, len, rate });
        written = written + len;
        played = played + 1;
    }
    Ok(plan)
}

/// Lays out the beats of the whole audio.
///
/// Each entry of `rates` is played for its share of the time and the last
/// entry for whatever time is left, so that the beats fill the audio
/// exactly. Fails with `EmptyData` exactly when the list is empty, and with
/// `InvalidRate` exactly when it is not empty and holds a rate that cannot
/// be played.
pub fn plan_beats(rates: &Vec<u32>) -> (r: Result<Vec<Beat>, ConvertError>)
    ensures
        r is Ok <==> rates.len() > 0 && all_valid(rates@),
        r matches Ok(plan) ==> is_plan(plan@, rates@),
        r matches Err(e) ==> e == if rates.len() == 0 {
            ConvertError::Input(InputError::EmptyData)
        } else {
            ConvertError::Input(InputError::InvalidRate)
        },
{
    plan_with(rates, None)
}

/// As `plan_beats`, but gives up as soon as the token is seen cancelled.
///
/// The token is polled once before each beat, and each poll decides as
/// `checkpoint` says. Input errors come first and
/// do not depend on the token; past them, an `Ok` holds the complete
/// timetable and an `Err` is a cancellation.
pub fn plan_beats_until_cancelled(rates: &Vec<u32>, token: &CancellationToken) -> (r: Result<
    Vec<Beat>,
    ConvertError,
>)
    ensures
        r matches Ok(plan) ==> is_plan(plan@, rates@),
        rates.len() == 0 ==> r == Err::<Vec<Beat>, ConvertError>(
            ConvertError::Input(InputError::EmptyData),
        ),
        rates.len() > 0 && !all_valid(rates@) ==> r == Err::<Vec<Beat>, ConvertError>(
            ConvertError::Input(InputError::InvalidRate),
        ),
        rates.len() > 0 && all_valid(rates@) ==> (r matches Err(e) ==> e is Cancelled),
{
    plan_with(rates, Some(token))
}

/// The samples that a timetable covers, from its start to the end of its
/// last beat.
pub open spec fn plan_duration(plan: Seq<Beat>) -> int {
    plan.last().start + plan.last().len
}

/// Pulse law, tiling: the beats of a timetable start at sample 0, follow one
/// another without gap or overlap, and end where the audio ends.
pub proof fn law_plan_tiles_audio(plan: Seq<Beat>, rates: Seq<u32>)
    requires
        is_plan(plan, rates),
    ensures
        plan[0].start == 0,
        forall|k: int|
            0 <= k < plan.len() - 1 ==> (#[trigger] plan[k + 1]).start == plan[k].start
                + plan[k].len,
        plan_duration(plan) == TOTAL_SAMPLES,
{
    assert(is_beat(plan[0], rates, 0));
    assert forall|k: int| 0 <= k < plan.len() - 1 implies (#[trigger] plan[k + 1]).start
        == plan[k].start + plan[k].len by {
        assert(is_beat(plan[k], rates, k));
        assert(is_beat(plan[k + 1], rates, k + 1));
        assert(beat_start(rates, k + 1) == beat_start(rates, k) + beat_len(beat_rate(rates, k)));
    }
}

/// Pulse law, duration: whatever the lists of rates, long or short, their
/// timetables cover the same stretch of audio, the fixed total.
pub proof fn law_duration_is_fixed(
    plan_a: Seq<Beat>,
    rates_a: Seq<u32>,
    plan_b: Seq<Beat>,
    rates_b: Seq<u32>,
)
    requires
        is_plan(plan_a, rates_a),
        is_plan(plan_b, rates_b),
    ensures
        plan_duration(plan_a) == TOTAL_SAMPLES,
        plan_duration(plan_a) == plan_duration(plan_b),
{
}

/// Pulse law, spacing: with a single rate in the list every beat has that
/// rate, and beat `k` starts `k` whole beats into the audio.
pub proof fn law_fixed_rate_spacing(rates: Seq<u32>, k: int)
    requires
        rates.len() == 1,
        0 <= k,
    ensures
        beat_rate(rates, k) == rates[0],
        beat_start(rates, k) == k * beat_len(rates[0]),
    decreases k,
{
    if k > 0 {
        law_fixed_rate_spacing(rates, k - 1);
        assert(k * beat_len(rates[0]) == (k - 1) * beat_len(rates[0]) + beat_len(rates[0]))
            by (nonlinear_arith);
    } else {
        assert(0 * beat_len(rates[0]) == 0) by (nonlinear_arith);
    }
}

/// How the samples of one beat are shared out: the first lobe, a short gap,
/// the second lobe, then silence to the end of the beat.
#[derive(Debug, Clone, Copy, PartialEq, Eq, Structural)]
pub struct BeatLayout {
    /// Samples of the first lobe: 8% of the beat.
    pub lub: usize,
    /// Samples of silence between the lobes: 5% of the beat.
    pub gap: usize,
    /// Samples of the second lobe: 6% of the beat.
    pub dub: usize,
    /// Samples of silence after the second lobe: the rest of the beat.
    pub rest: usize,
}

/// The layout of one beat at `rate`; each share is rounded down.
pub open spec fn layout_of(rate: u32) -> BeatLayout {
    let whole = beat_len(rate);
    BeatLayout {
        lub: (whole * 8 / 100) as usize,
        gap: (whole * 5 / 100) as usize,
        dub: (whole * 6 / 100) as usize,
        rest: (whole - whole * 8 / 100 - whole * 5 / 100 - whole * 6 / 100) as usize,
    }
}

/// Lays out one beat at `rate`. Gives `None` exactly for a rate that cannot
/// be played.
pub fn beat_layout(rate: u32) -> (r: Option<BeatLayout>)
    ensures
        r is Some <==> valid_rate(rate),
        r matches Some(layout) ==> {
            &&& layout == layout_of(rate)
            &&& layout.lub + layout.gap + layout.dub + layout.rest == beat_len(rate)
        },
{
    if rate == 0 || rate as usize > SAMPLES_PER_MINUTE {
        return None;
    }
    let whole: usize = SAMPLES_PER_MINUTE / (rate as usize);
    assert(0 <= whole <= 2646000) by (nonlinear_arith)
        requires
            whole == 2646000int / (rate as int),
            1 <= rate,
    ;
    let lub: usize = whole * 8 / 100;
    let gap: usize = whole * 5 / 100;
    let dub: usize = whole * 6 / 100;
    Some(BeatLayout { lub, gap, dub, rest: whole - lub - gap - dub })
}

/// Where in a beat a sample falls.
#[derive(Debug, Clone, Copy, PartialEq, Eq, Structural)]
pub enum Phase {
    /// In the first lobe: sample `pos` of its `len`.
    Lub { pos: usize, len: usize },
    /// In the silence between the lobes.
    Gap,
    /// In the second lobe: sample `pos` of its `len`.
    Dub { pos: usize, len: usize },
    /// In the silence after the second lobe.
    Rest,
}

/// The phase of sample `i` of a beat with the given layout.
pub open spec fn phase_of(layout: BeatLayout, i: int) -> Phase {
    if i < layout.lub {
        Phase::Lub { pos: i as usize, len: layout.lub }
    } else if i - layout.lub < layout.gap {
        Phase::Gap
    } else if i - layout.lub - layout.gap < layout.dub {
        Phase::Dub { pos: (i - layout.lub - layout.gap) as usize, len: layout.dub }
    } else {
        Phase::Rest
    }
}

/// Finds the phase of sample `i` of a beat.
pub fn phase_at(layout: &BeatLayout, i: usize) -> (phase: Phase)
    ensures
        phase == phase_of(*layout, i as int),
{
    if i < layout.lub {
        return Phase::Lub { pos: i, len: layout.lub };
    }
    let past_lub: usize = i - layout.lub;
    if past_lub < layout.gap {
        return Phase::Gap;
    }
    let past_gap: usize = past_lub - layout.gap;
    if past_gap < layout.dub {
        return Phase::Dub { pos: past_gap, len: layout.dub };
    }
    Phase::Rest
}

} // verus!
