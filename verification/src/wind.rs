//! Intensity-modulated noise: the grammar of the intensity table, the
//! length of the output, and where each output sample reads its intensity
//! and its noise from.

use crate::ascii::pieces_view;
use crate::error::{ConvertError, InputError};
use vstd::prelude::*;

verus! {

/// Seconds of audio for each day of intensities.
pub const SECONDS_PER_DAY: usize = 30;

/// Samples of audio for each day: 30 seconds at 44100 samples a second.
pub const SAMPLES_PER_DAY: usize = 1323000;

/// Samples per second of the output.
pub const OUTPUT_RATE: usize = 44100;

/// The pieces of `s` between occurrences of `sep`, in order. There is one
/// piece more than there are separators, so an empty `s` has one empty
/// piece.
pub open spec fn split(s: Seq<u8>, sep: u8) -> Seq<Seq<u8>>
    decreases s.len(),
{
    if s.len() == 0 {
        seq![Seq::empty()]
    } else {
        let before = split(s.drop_last(), sep);
        if s.last() == sep {
            before.push(Seq::empty())
        } else {
            before.drop_last().push(before.last().push(s.last()))
        }
    }
}

/// `split` always gives at least one piece.
pub proof fn lemma_split_nonempty(s: Seq<u8>, sep: u8)
    ensures
        split(s, sep).len() >= 1,
    decreases s.len(),
{
    if s.len() > 0 {
        lemma_split_nonempty(s.drop_last(), sep);
    }
}

/// Splits `text` at every occurrence of `sep`.
pub fn split_on(text: &[u8], sep: u8) -> (pieces: Vec<Vec<u8>>)
    ensures
        pieces_view(pieces@) == split(text@, sep),
{
    let mut pieces: Vec<Vec<u8>> = Vec::new();
    let mut current: Vec<u8> = Vec::new();
    let mut i: usize = 0;
    while i < text.len()
        invariant
            i <= text.len(),
            pieces_view(pieces@).push(current@) == split(text@.take(i as int), sep),
        decreases text.len() - i,
    {
        let b: u8 = text[i];
        proof {
            let next = text@.take(i + 1);
            assert(next.drop_last() =~= text@.take(i as int));
            assert(next.last() == b);
            let before = split(text@.take(i as int), sep);
            assert(before.last() == current@);
            assert(before.drop_last() =~= pieces_view(pieces@));
        }
        if b == sep {
            let ghost old_pieces = pieces@;
            let ghost old_current = current@;
            pieces.push(current);
            current = Vec::new();
            proof {
                assert(pieces_view(pieces@) =~= pieces_view(old_pieces).push(old_current));
            }
        } else {
            current.push(b);
        }
        i += 1;
    }
    proof {
        assert(text@.take(text.len() as int) =~= text@);
    }
    let ghost old_pieces = pieces@;
    pieces.push(current);
    proof {
        assert(pieces_view(pieces@) =~= pieces_view(old_pieces).push(current@));
    }
    pieces
}

/// A line of the table without its two-byte prefix; a line of two bytes or
/// fewer has no prefix to lose.
pub open spec fn line_body(line: Seq<u8>) -> Seq<u8> {
    if line.len() > 2 {
        line.skip(2)
    } else {
        line
    }
}

/// The fields of line `k` of the table: the line's body, split at commas.
pub open spec fn fields_of_line(text: Seq<u8>, k: int) -> Seq<Seq<u8>> {
    split(line_body(split(text, 0x0a)[k]), 0x2c)
}

/// Splits an intensity table into lines and each line into its fields.
///
/// Lines end at a line feed. The first two bytes of a line longer than two
/// are a prefix and are dropped; what is left is split at commas. The
/// fields are handed out as they stand: which of them spell a number is for
/// the caller to say.
pub fn table_fields(text: &[u8]) -> (table: Vec<Vec<Vec<u8>>>)
    ensures
        table.len() == split(text@, 0x0a).len(),
        table.len() >= 1,
        forall|k: int|
            0 <= k < table.len() ==> pieces_view((#[trigger] table[k])@) == fields_of_line(text@, k),
{
    proof {
        lemma_split_nonempty(text@, 0x0a);
    }
    let lines: Vec<Vec<u8>> = split_on(text, 0x0a);
    let mut table: Vec<Vec<Vec<u8>>> = Vec::new();
    let mut k: usize = 0;
    while k < lines.len()
        invariant
            k <= lines.len(),
            pieces_view(lines@) == split(text@, 0x0a),
            table.len() == k,
            forall|j: int|
                0 <= j < k ==> pieces_view((#[trigger] table[j])@) == fields_of_line(text@, j),
        decreases lines.len() - k,
    {
        let line: &[u8] = lines[k].as_slice();
        assert(line@ == pieces_view(lines@)[k as int]);
        let body: &[u8] = if line.len() > 2 {
            &line[2..line.len()]
        } else {
            line
        };
        assert(body@ =~= line_body(line@));
        let fields: Vec<Vec<u8>> = split_on(body, 0x2c);
        table.push(fields);
        k += 1;
    }
    assert(pieces_view(lines@).len() == lines.len());
    table
}

/// The number of output samples for `days` days of intensities: 30 seconds
/// for each day, however many intensities the day holds.
///
/// Fails with `EmptyData` exactly when there is no day.
pub fn sample_count(days: usize) -> (r: Result<usize, ConvertError>)
    requires
        days <= usize::MAX / SAMPLES_PER_DAY,
    ensures
        r is Err <==> days == 0,
        r matches Err(e) ==> e == ConvertError::Input(InputError::EmptyData),
        r matches Ok(n) ==> n == days * SECONDS_PER_DAY * OUTPUT_RATE,
{
    if days == 0 {
        return Err(ConvertError::Input(InputError::EmptyData));
    }
    Ok(days * SAMPLES_PER_DAY)
}

/// Where an output sample takes its intensity from: between entry `from`
/// and entry `to` of its day, `num / den` of the way.
#[derive(Debug, Clone, Copy, PartialEq, Eq, Structural)]
pub struct Blend {
    pub from: usize,
    pub to: usize,
    pub num: usize,
    pub den: usize,
}

/// The blend for sample `i` of a day with `entries` intensities: the day's
/// 30 seconds are shared out evenly among the entries, and the intensity
/// moves in a straight line from each entry to the next over that entry's
/// share. The last entry has no next and holds its value.
pub open spec fn blend_of(i: int, entries: int) -> Blend {
    let from = i * entries / 1323000;
    Blend {
        from: from as usize,
        to: (if from + 1 < entries {
            from + 1
        } else {
            from
        }) as usize,
        num: ((i * entries) % 1323000) as usize,
        den: SAMPLES_PER_DAY,
    }
}

/// Finds the blend for sample `i` of a day with `entries` intensities.
/// Gives `None` exactly when the day is empty or `i` is past the day's end.
pub fn intensity_blend(i: usize, entries: usize) -> (r: Option<Blend>)
    ensures
        r is Some <==> entries > 0 && i < SAMPLES_PER_DAY,
        r matches Some(b) ==> {
            &&& b == blend_of(i as int, entries as int)
            &&& b.from <= b.to < entries
            &&& b.num < b.den
        },
{
    if entries == 0 || i >= SAMPLES_PER_DAY {
        return None;
    }
    assert(0 <= (i as int) * (entries as int) < 1323000 * (entries as int)) by (nonlinear_arith)
        requires
            0 <= i < 1323000,
            0 < entries,
    ;
    assert(1323000 * (entries as int) <= 1323000 * 0xffff_ffff_ffff_ffff) by (nonlinear_arith)
        requires
            entries <= 0xffff_ffff_ffff_ffff,
    ;
    let product: u128 = (i as u128) * (entries as u128);
    let from: u128 = product / 1323000;
    let num: u128 = product % 1323000;
    let to: u128 = if from + 1 < entries as u128 {
        from + 1
    } else {
        from
    };
    Some(Blend { from: from as usize, to: to as usize, num: num as usize, den: SAMPLES_PER_DAY })
}

/// The sample of a noise loop that output sample `i` of a day reads: the
/// loop is played at its own rate from the start of each day and begins
/// again whenever it runs out.
pub open spec fn loop_position(i: int, loop_rate: int, loop_len: int) -> int {
    (i * loop_rate / 44100) % loop_len
}

/// Finds the sample of the noise loop for output sample `i` of a day. Gives
/// `None` exactly when the loop is empty.
pub fn loop_index(i: usize, loop_rate: u32, loop_len: usize) -> (r: Option<usize>)
    ensures
        r is Some <==> loop_len > 0,
        r matches Some(at) ==> at == loop_position(i as int, loop_rate as int, loop_len as int)
            && at < loop_len,
{
    if loop_len == 0 {
        return None;
    }
    assert(0 <= (i as int) * (loop_rate as int) <= 0xffff_ffff_ffff_ffff * 0xffff_ffff)
        by (nonlinear_arith)
        requires
            0 <= i <= 0xffff_ffff_ffff_ffff,
            0 <= loop_rate <= 0xffff_ffff,
    ;
    let played: u128 = (i as u128) * (loop_rate as u128) / 44100;
    let at: u128 = played % (loop_len as u128);
    Some(at as usize)
}

/// The day and the sample within it that output sample `n` belongs to.
pub fn locate(n: usize) -> (at: (usize, usize))
    ensures
        at.0 == n / SAMPLES_PER_DAY,
        at.1 == n % SAMPLES_PER_DAY,
        at.0 * SAMPLES_PER_DAY + at.1 == n,
{
    (n / SAMPLES_PER_DAY, n % SAMPLES_PER_DAY)
}

} // verus!
