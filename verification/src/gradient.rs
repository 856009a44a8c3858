//! Colour gradients: linear interpolation between control colours and
//! nearest-index resampling of the interpolated timeline.

use crate::arguments::raw_frame_len;
use crate::cancel::CancellationToken;
use crate::digits::{all_digits, ascii_digits, decimal_value, digits_of, read_group};
use crate::error::{ConvertError, InputError};
use vstd::prelude::*;

verus! {

/// Steps interpolated between two consecutive control colours.
pub const STEPS_PER_PAIR: usize = 3000;

/// Frames of a finished gradient video: 720 seconds at 25 frames a second.
pub const GRADIENT_FRAMES: usize = 18000;

/// Digits that spell one colour: three for each channel.
pub const DIGITS_PER_COLOR: usize = 9;

/// Width of a frame of the gradient video, in pixels.
pub const FRAME_WIDTH: u32 = 520;

/// Height of a frame of the gradient video, in pixels.
pub const FRAME_HEIGHT: u32 = 520;

/// Bytes in one raw frame of the gradient video.
pub const FRAME_BYTES: usize = 811200;

/// One channel of the linear blend from `a` to `b`, at step `i` of `steps`.
///
/// The blend is the convex combination `a + (b - a) * i / steps`, rounded
/// down to an integer.
pub open spec fn lerp_channel(a: int, b: int, i: int, steps: int) -> int
    recommends
        0 <= i <= steps,
        0 < steps,
{
    (a * (steps - i) + b * i) / steps
}

/// The colour at step `i` of `steps` on the way from `a` to `b`.
pub open spec fn lerp_at(a: [u8; 3], b: [u8; 3], i: int, steps: int) -> Seq<u8> {
    seq![
        lerp_channel(a[0] as int, b[0] as int, i, steps) as u8,
        lerp_channel(a[1] as int, b[1] as int, i, steps) as u8,
        lerp_channel(a[2] as int, b[2] as int, i, steps) as u8,
    ]
}

/// A blended channel lies between its two endpoints.
pub proof fn lemma_lerp_channel_bounds(a: int, b: int, i: int, steps: int)
    requires
        0 <= i <= steps,
        0 < steps,
    ensures
        a <= b ==> a <= lerp_channel(a, b, i, steps) <= b,
        b <= a ==> b <= lerp_channel(a, b, i, steps) <= a,
{
    let num = a * (steps - i) + b * i;
    assert(num == a * steps + (b - a) * i) by (nonlinear_arith)
        requires
            num == a * (steps - i) + b * i,
    ;
    assert(num == b * steps - (b - a) * (steps - i)) by (nonlinear_arith)
        requires
            num == a * (steps - i) + b * i,
    ;
    if a <= b {
        assert(a * steps <= num <= b * steps) by (nonlinear_arith)
            requires
                num == a * steps + (b - a) * i,
                num == b * steps - (b - a) * (steps - i),
                a <= b,
                0 <= i <= steps,
        ;
        assert(a <= num / steps <= b) by (nonlinear_arith)
            requires
                a * steps <= num <= b * steps,
                0 < steps,
        ;
    }
    if b <= a {
        assert(b * steps <= num <= a * steps) by (nonlinear_arith)
            requires
                num == a * steps + (b - a) * i,
                num == b * steps - (b - a) * (steps - i),
                b <= a,
                0 <= i <= steps,
        ;
        assert(b <= num / steps <= a) by (nonlinear_arith)
            requires
                b * steps <= num <= a * steps,
                0 < steps,
        ;
    }
}

/// A blend starts at `a` and, taken to the last step, arrives at `b`.
pub proof fn lemma_lerp_channel_endpoints(a: int, b: int, steps: int)
    requires
        0 < steps,
    ensures
        lerp_channel(a, b, 0, steps) == a,
        lerp_channel(a, b, steps, steps) == b,
{
    assert((a * (steps - 0) + b * 0) / steps == a) by (nonlinear_arith)
        requires
            0 < steps,
    ;
    assert((a * (steps - steps) + b * steps) / steps == b) by (nonlinear_arith)
        requires
            0 < steps,
    ;
}

/// A blend moves in one direction only: towards `b`.
pub proof fn lemma_lerp_channel_monotonic(a: int, b: int, i: int, j: int, steps: int)
    requires
        0 <= i <= j <= steps,
        0 < steps,
    ensures
        a <= b ==> lerp_channel(a, b, i, steps) <= lerp_channel(a, b, j, steps),
        b <= a ==> lerp_channel(a, b, i, steps) >= lerp_channel(a, b, j, steps),
{
    let ni = a * (steps - i) + b * i;
    let nj = a * (steps - j) + b * j;
    assert(nj - ni == (b - a) * (j - i)) by (nonlinear_arith)
        requires
            ni == a * (steps - i) + b * i,
            nj == a * (steps - j) + b * j,
    ;
    if a <= b {
        assert(ni <= nj) by (nonlinear_arith)
            requires
                nj - ni == (b - a) * (j - i),
                a <= b,
                i <= j,
        ;
        assert(ni / steps <= nj / steps) by (nonlinear_arith)
            requires
                ni <= nj,
                0 < steps,
        ;
    }
    if b <= a {
        assert(nj <= ni) by (nonlinear_arith)
            requires
                nj - ni == (b - a) * (j - i),
                b <= a,
                i <= j,
        ;
        assert(nj / steps <= ni / steps) by (nonlinear_arith)
            requires
                nj <= ni,
                0 < steps,
        ;
    }
}

/// With at least as many steps as the two endpoints are apart, the step
/// before the last is at most one away from `b`.
pub proof fn lemma_lerp_channel_last_step(a: int, b: int, steps: int)
    requires
        0 < steps,
        a - b <= steps,
        b - a <= steps,
    ensures
        b - 1 <= lerp_channel(a, b, steps - 1, steps) <= b + 1,
{
    let num = a * (steps - (steps - 1)) + b * (steps - 1);
    assert(num == b * steps + (a - b)) by (nonlinear_arith)
        requires
            num == a * (steps - (steps - 1)) + b * (steps - 1),
    ;
    assert(b - 1 <= num / steps <= b + 1) by (nonlinear_arith)
        requires
            num == b * steps + (a - b),
            0 < steps,
            a - b <= steps,
            b - a <= steps,
    ;
}

fn blend(a: u8, b: u8, i: usize, steps: usize) -> (r: u8)
    requires
        i <= steps,
        0 < steps,
    ensures
        r as int == lerp_channel(a as int, b as int, i as int, steps as int),
{
    proof {
        lemma_lerp_channel_bounds(a as int, b as int, i as int, steps as int);
        assert(0 <= (a as int) * (steps - i) <= 255 * (steps as int)) by (nonlinear_arith)
            requires
                0 <= a <= 255,
                0 <= i <= steps,
        ;
        assert(0 <= (b as int) * (i as int) <= 255 * (steps as int)) by (nonlinear_arith)
            requires
                0 <= b <= 255,
                0 <= i <= steps,
        ;
    }
    let num: u128 = (a as u128) * ((steps - i) as u128) + (b as u128) * (i as u128);
    let q: u128 = num / (steps as u128);
    q as u8
}

/// Interpolates from `a` towards `b` in `steps` equal steps.
///
/// The result holds the colours at steps `0, 1, .., steps - 1`; the first
/// one is `a` itself, and `b` is the colour that step `steps` would have.
pub fn lerp_color(a: [u8; 3], b: [u8; 3], steps: usize) -> (out: Vec<[u8; 3]>)
    ensures
        out.len() == steps,
        forall|i: int| 0 <= i < steps ==> (#[trigger] out[i])@ == lerp_at(a, b, i, steps as int),
{
    let mut out: Vec<[u8; 3]> = Vec::new();
    let mut i: usize = 0;
    while i < steps
        invariant
            i <= steps,
            out.len() == i,
            forall|k: int| 0 <= k < i ==> (#[trigger] out[k])@ == lerp_at(a, b, k, steps as int),
        decreases steps - i,
    {
        let c: [u8; 3] = [
            blend(a[0], b[0], i, steps),
            blend(a[1], b[1], i, steps),
            blend(a[2], b[2], i, steps),
        ];
        assert(c@ =~= lerp_at(a, b, i as int, steps as int));
        out.push(c);
        i += 1;
    }
    out
}

/// The channel that a group of three digits spells: its value, or 0 where
/// the value does not fit a byte.
pub open spec fn channel_of(group: Seq<u8>) -> u8 {
    if decimal_value(group) <= 255 {
        decimal_value(group) as u8
    } else {
        0
    }
}

/// The `k`-th colour spelled by a run of digits, nine digits to a colour.
pub open spec fn color_at(digits: Seq<u8>, k: int) -> Seq<u8> {
    seq![
        channel_of(digits.subrange(9 * k, 9 * k + 3)),
        channel_of(digits.subrange(9 * k + 3, 9 * k + 6)),
        channel_of(digits.subrange(9 * k + 6, 9 * k + 9)),
    ]
}

fn read_channel(digits: &[u8], start: usize) -> (c: u8)
    requires
        start + 3 <= digits.len(),
        all_digits(digits@),
    ensures
        c == channel_of(digits@.subrange(start as int, start + 3)),
{
    let v: u32 = read_group(digits, start, start + 3);
    if v <= 255 {
        v as u8
    } else {
        0
    }
}

/// Reads the control colours out of extracted text.
///
/// Only the ASCII digits of the text count. Each full group of nine digits
/// is one colour, three digits to a channel; a channel above 255 reads as 0,
/// and a trailing group of fewer than nine digits is dropped.
pub fn parse_colors(text: &[u8]) -> (colors: Vec<[u8; 3]>)
    ensures
        colors.len() == digits_of(text@).len() / 9,
        forall|k: int|
            0 <= k < colors.len() ==> (#[trigger] colors[k])@ == color_at(digits_of(text@), k),
{
    let digits: Vec<u8> = ascii_digits(text);
    let count: usize = digits.len() / DIGITS_PER_COLOR;
    let mut colors: Vec<[u8; 3]> = Vec::new();
    let mut k: usize = 0;
    while k < count
        invariant
            k <= count,
            count == digits.len() / 9,
            digits@ == digits_of(text@),
            all_digits(digits@),
            colors.len() == k,
            forall|j: int| 0 <= j < k ==> (#[trigger] colors[j])@ == color_at(digits@, j),
        decreases count - k,
    {
        let base: usize = k * DIGITS_PER_COLOR;
        let c: [u8; 3] = [
            read_channel(digits.as_slice(), base),
            read_channel(digits.as_slice(), base + 3),
            read_channel(digits.as_slice(), base + 6),
        ];
        assert(c@ =~= color_at(digits@, k as int));
        colors.push(c);
        k += 1;
    }
    colors
}

/// How many colours the timeline of `n` control colours holds: 3000 steps
/// for each pair of neighbours, and the last control colour to close it.
pub open spec fn timeline_len(n: int) -> int {
    if n <= 0 {
        0
    } else {
        (n - 1) * 3000 + 1
    }
}

/// The `k`-th colour of the timeline: step `k % 3000` on the way from
/// control colour `k / 3000` to the next one; at the very end, where there
/// is no next one, the last control colour itself.
pub open spec fn timeline_at(colors: Seq<[u8; 3]>, k: int) -> Seq<u8> {
    if k / 3000 + 1 < colors.len() {
        lerp_at(colors[k / 3000], colors[k / 3000 + 1], k % 3000, 3000)
    } else {
        colors[colors.len() - 1]@
    }
}

/// `out` is the timeline up to, and without, control colour `pairs`: the
/// steps of the first `pairs` pairs.
pub open spec fn is_timeline_prefix(out: Seq<[u8; 3]>, colors: Seq<[u8; 3]>, pairs: int) -> bool {
    &&& out.len() == pairs * 3000
    &&& forall|k: int| 0 <= k < out.len() ==> (#[trigger] out[k])@ == timeline_at(colors, k)
}

/// `out` is the whole timeline of `colors`.
pub open spec fn is_timeline(out: Seq<[u8; 3]>, colors: Seq<[u8; 3]>) -> bool {
    &&& out.len() == timeline_len(colors.len() as int)
    &&& forall|k: int| 0 <= k < out.len() ==> (#[trigger] out[k])@ == timeline_at(colors, k)
}

/// Inside pair `p` the timeline is the blend from control colour `p` to
/// the next, and at step 3000 it has arrived there.
pub proof fn lemma_timeline_in_pair(colors: Seq<[u8; 3]>, p: int, step: int)
    requires
        0 <= p,
        p + 1 < colors.len(),
        0 <= step <= 3000,
    ensures
        timeline_at(colors, 3000 * p + step) == lerp_at(colors[p], colors[p + 1], step, 3000),
{
    if step < 3000 {
        assert((3000 * p + step) / 3000 == p);
        assert((3000 * p + step) % 3000 == step);
    } else {
        let k = 3000 * p + step;
        assert(k / 3000 == p + 1);
        assert(k % 3000 == 0);
        law_gradient_endpoints(colors[p], colors[p + 1], 3000);
        if p + 2 < colors.len() {
            law_gradient_endpoints(colors[p + 1], colors[p + 2], 3000);
        }
    }
}

/// One step of the interpolation: adds the 3000 steps of pair `p` to the
/// timeline, unless the batch is cancelled; then the timeline stays as it
/// is and the interpolation ends in a cancellation. `cancelled` is what the
/// token said when it was polled.
pub fn interpolate_pair(
    out: &mut Vec<[u8; 3]>,
    colors: &Vec<[u8; 3]>,
    p: usize,
    cancelled: bool,
) -> (r: Result<(), ConvertError>)
    requires
        p + 1 < colors.len(),
        colors.len() <= usize::MAX / 3000,
        is_timeline_prefix(old(out)@, colors@, p as int),
    ensures
        cancelled ==> r == Err::<(), ConvertError>(ConvertError::Cancelled) && final(out)@ == old(
            out,
        )@,
        !cancelled ==> r == Ok::<(), ConvertError>(()) && is_timeline_prefix(
            final(out)@,
            colors@,
            p + 1,
        ),
{
    if cancelled {
        return Err(ConvertError::Cancelled);
    }
    let mut segment: Vec<[u8; 3]> = lerp_color(colors[p], colors[p + 1], STEPS_PER_PAIR);
    let ghost before = out@;
    let ghost seg = segment@;
    out.append(&mut segment);
    proof {
        assert(out@ == before + seg);
        assert forall|k: int| 0 <= k < out@.len() implies (#[trigger] out@[k])@ == timeline_at(
            colors@,
            k,
        ) by {
            if k >= p * 3000 {
                assert(k / 3000 == p as int);
                assert(k % 3000 == k - p * 3000);
                assert(out@[k] == seg[k - p * 3000]);
            } else {
                assert(out@[k] == before[k]);
            }
        }
    }
    Ok(())
}

/// Closes a timeline with the last control colour.
fn close_timeline(out: &mut Vec<[u8; 3]>, colors: &Vec<[u8; 3]>)
    requires
        colors.len() >= 1,
        colors.len() <= usize::MAX / 3000,
        is_timeline_prefix(old(out)@, colors@, colors.len() - 1),
    ensures
        is_timeline(final(out)@, colors@),
{
    let last: [u8; 3] = colors[colors.len() - 1];
    let ghost before = out@;
    out.push(last);
    proof {
        let n = colors.len() as int;
        assert forall|k: int| 0 <= k < out@.len() implies (#[trigger] out@[k])@ == timeline_at(
            colors@,
            k,
        ) by {
            if k < before.len() {
                assert(out@[k] == before[k]);
            } else {
                assert(k == (n - 1) * 3000);
                assert(k / 3000 == n - 1);
            }
        }
    }
}

/// Interpolates every consecutive pair of `colors`, strings the results
/// together and closes them with the last colour.
///
/// No colour gives an empty timeline, and a single colour the timeline of
/// that one colour.
pub fn interpolate(colors: &Vec<[u8; 3]>) -> (out: Vec<[u8; 3]>)
    requires
        colors.len() <= usize::MAX / 3000,
    ensures
        is_timeline(out@, colors@),
{
    let mut out: Vec<[u8; 3]> = Vec::new();
    if colors.len() == 0 {
        return out;
    }
    let mut p: usize = 0;
    while p + 1 < colors.len()
        invariant
            p + 1 <= colors.len(),
            colors.len() <= usize::MAX / 3000,
            is_timeline_prefix(out@, colors@, p as int),
        decreases colors.len() - p,
    {
        let _ = interpolate_pair(&mut out, colors, p, false);
        p += 1;
    }
    close_timeline(&mut out, colors);
    out
}

/// As `interpolate`, but gives up as soon as the token is seen cancelled.
///
/// The token is polled once before each pair, and each poll decides as
/// `interpolate_pair` says. Whatever the token says, an `Ok` holds the
/// complete timeline and an `Err` is a cancellation; fewer than two colours
/// have no pair and always succeed.
pub fn interpolate_until_cancelled(colors: &Vec<[u8; 3]>, token: &CancellationToken) -> (r: Result<
    Vec<[u8; 3]>,
    ConvertError,
>)
    requires
        colors.len() <= usize::MAX / 3000,
    ensures
        r matches Ok(out) ==> is_timeline(out@, colors@),
        r matches Err(e) ==> e is Cancelled,
        colors.len() < 2 ==> r is Ok,
{
    let mut out: Vec<[u8; 3]> = Vec::new();
    if colors.len() == 0 {
        return Ok(out);
    }
    let mut p: usize = 0;
    while p + 1 < colors.len()
        invariant
            p + 1 <= colors.len(),
            colors.len() <= usize::MAX / 3000,
            is_timeline_prefix(out@, colors@, p as int),
        decreases colors.len() - p,
    {
        match interpolate_pair(&mut out, colors, p, token.is_cancelled()) {
            Ok(_) => {},
            Err(e) => {
                return Err(e);
            },
        }
        p += 1;
    }
    close_timeline(&mut out, colors);
    Ok(out)
}

/// The index into a timeline of `len` colours that frame `i` of
/// `num_frames` shows: the frames are spread evenly from the first colour
/// of the timeline to its last, each frame on the nearest colour at or
/// before its place. A video of one frame shows the first colour.
pub open spec fn resample_index(len: int, num_frames: int, i: int) -> int {
    if num_frames <= 1 {
        0
    } else {
        i * (len - 1) / (num_frames - 1)
    }
}

/// The index that `resample_index` names lies inside the timeline; the
/// first frame shows its first colour and, where there are two frames or
/// more, the last frame its last.
pub proof fn lemma_resample_index_in_range(len: int, num_frames: int, i: int)
    requires
        0 < len,
        0 <= i < num_frames,
    ensures
        0 <= resample_index(len, num_frames, i) < len,
        resample_index(len, num_frames, 0) == 0,
        num_frames >= 2 ==> resample_index(len, num_frames, num_frames - 1) == len - 1,
{
    if num_frames >= 2 {
        let span = len - 1;
        let last = num_frames - 1;
        assert(0 <= i * span <= last * span) by (nonlinear_arith)
            requires
                0 <= i <= last,
                0 <= span,
        ;
        assert(0 <= (i * span) / last <= span) by (nonlinear_arith)
            requires
                0 <= i * span <= last * span,
                0 < last,
        ;
        assert((0 * span) / last == 0) by (nonlinear_arith)
            requires
                0 < last,
        ;
        assert((last * span) / last == span) by (nonlinear_arith)
            requires
                0 < last,
        ;
    }
}

/// Later frames never show an earlier index.
pub proof fn lemma_resample_index_monotonic(len: int, num_frames: int, i: int, j: int)
    requires
        0 < len,
        0 <= i <= j,
        0 < num_frames,
    ensures
        resample_index(len, num_frames, i) <= resample_index(len, num_frames, j),
{
    if num_frames >= 2 {
        let span = len - 1;
        let last = num_frames - 1;
        assert(i * span <= j * span) by (nonlinear_arith)
            requires
                0 <= i <= j,
                0 <= span,
        ;
        assert((i * span) / last <= (j * span) / last) by (nonlinear_arith)
            requires
                i * span <= j * span,
                0 < last,
        ;
    }
}

/// Resamples a timeline down (or up) to `num_frames` frames by nearest
/// index: frame `i` shows the timeline at `resample_index`.
pub fn resample(timeline: &Vec<[u8; 3]>, num_frames: usize) -> (frames: Vec<[u8; 3]>)
    requires
        timeline.len() > 0,
    ensures
        frames.len() == num_frames,
        forall|i: int|
            0 <= i < num_frames ==> #[trigger] frames[i] == timeline[resample_index(
                timeline.len() as int,
                num_frames as int,
                i,
            )],
{
    let len: usize = timeline.len();
    let mut frames: Vec<[u8; 3]> = Vec::new();
    let mut i: usize = 0;
    while i < num_frames
        invariant
            i <= num_frames,
            len == timeline.len(),
            len > 0,
            frames.len() == i,
            forall|k: int|
                0 <= k < i ==> #[trigger] frames[k] == timeline[resample_index(
                    len as int,
                    num_frames as int,
                    k,
                )],
        decreases num_frames - i,
    {
        proof {
            lemma_resample_index_in_range(len as int, num_frames as int, i as int);
            assert(0 <= (i as int) * (len - 1) <= 0xffff_ffff_ffff_ffff * 0xffff_ffff_ffff_ffff)
                by (nonlinear_arith)
                requires
                    0 <= i <= 0xffff_ffff_ffff_ffff,
                    0 <= len - 1 <= 0xffff_ffff_ffff_ffff,
            ;
        }
        let idx: usize = if num_frames <= 1 {
            0
        } else {
            ((i as u128) * ((len - 1) as u128) / ((num_frames - 1) as u128)) as usize
        };
        frames.push(timeline[idx]);
        i += 1;
    }
    frames
}

/// The colour of frame `i` of a gradient video of `num_frames` frames: the
/// timeline of the control colours, resampled.
pub open spec fn frame_color(colors: Seq<[u8; 3]>, num_frames: int, i: int) -> Seq<u8> {
    timeline_at(colors, resample_index(timeline_len(colors.len() as int), num_frames, i))
}

/// `frames` is the gradient video of `colors`: every frame has its colour.
pub open spec fn is_gradient(frames: Seq<[u8; 3]>, colors: Seq<[u8; 3]>, num_frames: int) -> bool {
    &&& frames.len() == num_frames
    &&& forall|i: int|
        0 <= i < num_frames ==> (#[trigger] frames[i])@ == frame_color(colors, num_frames, i)
}

/// The video opens on the first control colour and, where it has two
/// frames or more, closes on the last.
pub open spec fn opens_and_closes(frames: Seq<[u8; 3]>, colors: Seq<[u8; 3]>) -> bool {
    &&& frames.len() >= 1 ==> frames[0]@ == colors[0]@
    &&& frames.len() >= 2 ==> frames.last()@ == colors.last()@
}

/// A gradient video opens and closes on the ends of its list of colours.
pub proof fn lemma_opens_and_closes(frames: Seq<[u8; 3]>, colors: Seq<[u8; 3]>)
    requires
        colors.len() >= 1,
        is_gradient(frames, colors, frames.len() as int),
    ensures
        opens_and_closes(frames, colors),
{
    let n = frames.len() as int;
    if n >= 1 {
        law_first_frame(colors, n);
        assert(frames[0]@ == frame_color(colors, n, 0));
    }
    if n >= 2 {
        law_last_frame(colors, n);
        assert(frames[n - 1]@ == frame_color(colors, n, n - 1));
    }
}

fn frames_with(colors: &Vec<[u8; 3]>, num_frames: usize, token: Option<&CancellationToken>) -> (r:
    Result<Vec<[u8; 3]>, ConvertError>)
    requires
        colors.len() <= usize::MAX / 3000,
    ensures
        r matches Ok(frames) ==> colors.len() > 0 && is_gradient(
            frames@,
            colors@,
            num_frames as int,
        ),
        r matches Err(e) ==> {
            ||| colors.len() == 0 && e == ConvertError::Input(InputError::EmptyData)
            ||| colors.len() > 1 && token is Some && e is Cancelled
        },
{
    if colors.len() == 0 {
        return Err(ConvertError::Input(InputError::EmptyData));
    }
    let timeline: Vec<[u8; 3]> = match token {
        Some(t) => match interpolate_until_cancelled(colors, t) {
            Ok(timeline) => timeline,
            Err(e) => {
                return Err(e);
            },
        },
        None => interpolate(colors),
    };
    let frames: Vec<[u8; 3]> = resample(&timeline, num_frames);
    proof {
        assert forall|i: int| 0 <= i < num_frames implies (#[trigger] frames[i])@ == frame_color(
            colors@,
            num_frames as int,
            i,
        ) by {
            lemma_resample_index_in_range(timeline.len() as int, num_frames as int, i);
        }
    }
    Ok(frames)
}

/// Turns control colours into the colour of each frame of the video.
///
/// Fails with `EmptyData` exactly when there is no colour at all. The video
/// opens on the first colour and, where it has two frames or more, closes
/// on the last.
pub fn gradient_frames(colors: &Vec<[u8; 3]>, num_frames: usize) -> (r: Result<
    Vec<[u8; 3]>,
    ConvertError,
>)
    requires
        colors.len() <= usize::MAX / 3000,
    ensures
        colors.len() == 0 <==> r is Err,
        r matches Err(e) ==> e == ConvertError::Input(InputError::EmptyData),
        r matches Ok(frames) ==> is_gradient(frames@, colors@, num_frames as int),
        r matches Ok(frames) ==> opens_and_closes(frames@, colors@),
{
    let r = frames_with(colors, num_frames, None);
    proof {
        if r is Ok {
            lemma_opens_and_closes(r->Ok_0@, colors@);
        }
    }
    r
}

/// As `gradient_frames`, but gives up as soon as the token is seen
/// cancelled.
///
/// The token is polled once before each pair of colours. An empty list
/// fails with `EmptyData` whatever the token says; past that, an `Ok` holds
/// every frame and an `Err` is a cancellation. A single colour has no pair
/// and always succeeds.
pub fn gradient_frames_until_cancelled(
    colors: &Vec<[u8; 3]>,
    num_frames: usize,
    token: &CancellationToken,
) -> (r: Result<Vec<[u8; 3]>, ConvertError>)
    requires
        colors.len() <= usize::MAX / 3000,
    ensures
        colors.len() == 0 ==> r == Err::<Vec<[u8; 3]>, ConvertError>(
            ConvertError::Input(InputError::EmptyData),
        ),
        colors.len() == 1 ==> r is Ok,
        colors.len() > 0 ==> (r matches Err(e) ==> e is Cancelled),
        r matches Ok(frames) ==> is_gradient(frames@, colors@, num_frames as int),
        r matches Ok(frames) ==> opens_and_closes(frames@, colors@),
{
    let r = frames_with(colors, num_frames, Some(token));
    proof {
        if r is Ok {
            lemma_opens_and_closes(r->Ok_0@, colors@);
        }
    }
    r
}

/// Gradient law, ends: between two control colours the gradient starts on
/// the first and, at the far end, lands on the second.
pub proof fn law_gradient_endpoints(a: [u8; 3], b: [u8; 3], steps: int)
    requires
        0 < steps,
    ensures
        lerp_at(a, b, 0, steps) == a@,
        lerp_at(a, b, steps, steps) == b@,
{
    lemma_lerp_channel_endpoints(a[0] as int, b[0] as int, steps);
    lemma_lerp_channel_endpoints(a[1] as int, b[1] as int, steps);
    lemma_lerp_channel_endpoints(a[2] as int, b[2] as int, steps);
    assert(lerp_at(a, b, 0, steps) =~= a@);
    assert(lerp_at(a, b, steps, steps) =~= b@);
}

/// Gradient law, direction: between two control colours each channel only
/// ever moves towards the second colour, never back.
pub proof fn law_gradient_monotonic(a: [u8; 3], b: [u8; 3], i: int, j: int, steps: int)
    requires
        0 <= i <= j <= steps,
        0 < steps,
    ensures
        forall|c: int|
            #![trigger lerp_at(a, b, i, steps)[c]]
            0 <= c < 3 ==> {
                &&& a[c] <= b[c] ==> lerp_at(a, b, i, steps)[c] <= lerp_at(a, b, j, steps)[c]
                &&& b[c] <= a[c] ==> lerp_at(a, b, i, steps)[c] >= lerp_at(a, b, j, steps)[c]
            },
{
    assert forall|c: int|
        #![trigger lerp_at(a, b, i, steps)[c]]
        0 <= c < 3 implies {
        &&& a[c] <= b[c] ==> lerp_at(a, b, i, steps)[c] <= lerp_at(a, b, j, steps)[c]
        &&& b[c] <= a[c] ==> lerp_at(a, b, i, steps)[c] >= lerp_at(a, b, j, steps)[c]
    } by {
        lemma_lerp_channel_bounds(a[c] as int, b[c] as int, i, steps);
        lemma_lerp_channel_bounds(a[c] as int, b[c] as int, j, steps);
        lemma_lerp_channel_monotonic(a[c] as int, b[c] as int, i, j, steps);
    }
}

/// Gradient law, last step: the colours that `lerp_color` hands out stop one
/// step short of the second colour, and with 255 steps or more that last
/// colour is within one of it in every channel.
pub proof fn law_gradient_last_step(a: [u8; 3], b: [u8; 3], steps: int)
    requires
        255 <= steps,
    ensures
        forall|c: int|
            #![trigger lerp_at(a, b, steps - 1, steps)[c]]
            0 <= c < 3 ==> b[c] - 1 <= lerp_at(a, b, steps - 1, steps)[c] <= b[c] + 1,
{
    assert forall|c: int|
        #![trigger lerp_at(a, b, steps - 1, steps)[c]]
        0 <= c < 3 implies b[c] - 1 <= lerp_at(a, b, steps - 1, steps)[c] <= b[c] + 1 by {
        lemma_lerp_channel_bounds(a[c] as int, b[c] as int, steps - 1, steps);
        lemma_lerp_channel_last_step(a[c] as int, b[c] as int, steps);
    }
}

/// Gradient law, first frame: the video opens on the first control colour.
pub proof fn law_first_frame(colors: Seq<[u8; 3]>, num_frames: int)
    requires
        colors.len() >= 1,
        0 < num_frames,
    ensures
        frame_color(colors, num_frames, 0) == colors[0]@,
{
    let len = timeline_len(colors.len() as int);
    lemma_resample_index_in_range(len, num_frames, 0);
    if colors.len() > 1 {
        lemma_timeline_in_pair(colors, 0, 0);
        law_gradient_endpoints(colors[0], colors[1], 3000);
    }
}

/// Gradient law, last frame: a video of two frames or more closes on the
/// last control colour, however many colours there are; and so does every
/// video of a single colour.
pub proof fn law_last_frame(colors: Seq<[u8; 3]>, num_frames: int)
    requires
        colors.len() >= 1,
        0 < num_frames,
        num_frames >= 2 || colors.len() == 1,
    ensures
        frame_color(colors, num_frames, num_frames - 1) == colors.last()@,
{
    let n = colors.len() as int;
    let len = timeline_len(n);
    lemma_resample_index_in_range(len, num_frames, num_frames - 1);
    let k = resample_index(len, num_frames, num_frames - 1);
    assert(k == len - 1);
    assert(k / 3000 == n - 1);
}

/// Gradient law, frames: of two frames that lie between the same two
/// control colours, the later one is nearer the second colour in every
/// channel, or as near.
pub proof fn law_frames_monotonic(
    colors: Seq<[u8; 3]>,
    num_frames: int,
    i: int,
    j: int,
    p: int,
)
    requires
        0 <= p,
        p + 1 < colors.len(),
        0 <= i <= j < num_frames,
        3000 * p <= resample_index(timeline_len(colors.len() as int), num_frames, i),
        resample_index(timeline_len(colors.len() as int), num_frames, j) <= 3000 * (p + 1),
    ensures
        forall|c: int|
            #![trigger frame_color(colors, num_frames, i)[c]]
            0 <= c < 3 ==> {
                &&& colors[p][c] <= colors[p + 1][c] ==> frame_color(colors, num_frames, i)[c]
                    <= frame_color(colors, num_frames, j)[c]
                &&& colors[p + 1][c] <= colors[p][c] ==> frame_color(colors, num_frames, i)[c]
                    >= frame_color(colors, num_frames, j)[c]
            },
{
    let len = timeline_len(colors.len() as int);
    let ki = resample_index(len, num_frames, i);
    let kj = resample_index(len, num_frames, j);
    lemma_resample_index_monotonic(len, num_frames, i, j);
    lemma_timeline_in_pair(colors, p, ki - 3000 * p);
    lemma_timeline_in_pair(colors, p, kj - 3000 * p);
    law_gradient_monotonic(colors[p], colors[p + 1], ki - 3000 * p, kj - 3000 * p, 3000);
    assert forall|c: int|
        #![trigger frame_color(colors, num_frames, i)[c]]
        0 <= c < 3 implies {
        &&& colors[p][c] <= colors[p + 1][c] ==> frame_color(colors, num_frames, i)[c]
            <= frame_color(colors, num_frames, j)[c]
        &&& colors[p + 1][c] <= colors[p][c] ==> frame_color(colors, num_frames, i)[c]
            >= frame_color(colors, num_frames, j)[c]
    } by {
        let x = lerp_at(colors[p], colors[p + 1], ki - 3000 * p, 3000)[c];
    }
}

/// A raw RGB frame in which every pixel has the one colour `color`.
pub open spec fn is_solid(raw: Seq<u8>, color: [u8; 3]) -> bool {
    forall|k: int| 0 <= k < raw.len() ==> #[trigger] raw[k] == color[k % 3]
}

/// Paints every pixel of a raw RGB frame with `color`, keeping its size.
pub fn fill_solid(raw: &mut Vec<u8>, color: [u8; 3])
    ensures
        final(raw).len() == old(raw).len(),
        is_solid(final(raw)@, color),
{
    let n: usize = raw.len();
    let mut k: usize = 0;
    while k < n
        invariant
            k <= n,
            raw.len() == n,
            forall|j: int| 0 <= j < k ==> #[trigger] raw[j] == color[j % 3],
        decreases n - k,
    {
        raw[k] = color[k % 3];
        k += 1;
    }
}

/// Makes one raw frame of the gradient video, every pixel in `color`: 520
/// by 520 pixels of three bytes, the size that the encoder is told.
pub fn solid_frame(color: [u8; 3]) -> (raw: Vec<u8>)
    ensures
        raw.len() == raw_frame_len(FRAME_WIDTH, FRAME_HEIGHT),
        raw.len() == FRAME_BYTES,
        is_solid(raw@, color),
{
    let mut raw: Vec<u8> = vec![0u8; FRAME_BYTES];
    fill_solid(&mut raw, color);
    assert(3 * 520 * 520 == 811200) by (nonlinear_arith);
    assert(raw_frame_len(FRAME_WIDTH, FRAME_HEIGHT) == 3 * 520 * 520);
    raw
}

} // verus!
