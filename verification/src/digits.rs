//! ASCII decimal digits: picking them out of extracted text and reading
//! short groups of them as numbers.

use vstd::prelude::*;

verus! {

/// Whether `b` is one of the bytes `'0'..='9'`.
pub open spec fn is_digit(b: u8) -> bool {
    0x30 <= b && b <= 0x39
}

/// The digits of `text`, in order, everything else dropped.
pub open spec fn digits_of(text: Seq<u8>) -> Seq<u8>
    decreases text.len(),
{
    if text.len() == 0 {
        Seq::empty()
    } else if is_digit(text.last()) {
        digits_of(text.drop_last()).push(text.last())
    } else {
        digits_of(text.drop_last())
    }
}

/// The number that a run of digits spells in base ten.
pub open spec fn decimal_value(digits: Seq<u8>) -> nat
    decreases digits.len(),
{
    if digits.len() == 0 {
        0
    } else {
        decimal_value(digits.drop_last()) * 10 + (digits.last() - 0x30) as nat
    }
}

/// Every byte of `s` is a digit.
pub open spec fn all_digits(s: Seq<u8>) -> bool {
    forall|i: int| 0 <= i < s.len() ==> is_digit(#[trigger] s[i])
}

/// What `digits_of` keeps is made of digits only.
pub proof fn lemma_digits_of_all_digits(text: Seq<u8>)
    ensures
        all_digits(digits_of(text)),
    decreases text.len(),
{
    if text.len() > 0 {
        lemma_digits_of_all_digits(text.drop_last());
    }
}

/// How `digits_of` grows when one byte is appended.
pub proof fn lemma_digits_of_push(s: Seq<u8>, b: u8)
    ensures
        digits_of(s.push(b)) == if is_digit(b) {
            digits_of(s).push(b)
        } else {
            digits_of(s)
        },
{
    assert(s.push(b).drop_last() =~= s);
}

/// Keeps the ASCII digits of `text`.
pub fn ascii_digits(text: &[u8]) -> (out: Vec<u8>)
    ensures
        out@ == digits_of(text@),
        all_digits(out@),
{
    let mut out: Vec<u8> = Vec::new();
    let mut i: usize = 0;
    while i < text.len()
        invariant
            i <= text.len(),
            out@ == digits_of(text@.take(i as int)),
        decreases text.len() - i,
    {
        let b: u8 = text[i];
        proof {
            assert(text@.take(i + 1) =~= text@.take(i as int).push(b));
            lemma_digits_of_push(text@.take(i as int), b);
        }
        if b >= 0x30 && b <= 0x39 {
            out.push(b);
        }
        i += 1;
    }
    proof {
        assert(text@.take(text.len() as int) =~= text@);
        lemma_digits_of_all_digits(text@);
    }
    out
}

/// Reads the digits `digits[start..end]`, at most three of them, as a number.
pub fn read_group(digits: &[u8], start: usize, end: usize) -> (value: u32)
    requires
        start <= end <= digits.len(),
        end - start <= 3,
        all_digits(digits@),
    ensures
        value == decimal_value(digits@.subrange(start as int, end as int)),
        value <= 999,
{
    let mut value: u32 = 0;
    let mut k: usize = start;
    while k < end
        invariant
            start <= k <= end <= digits.len(),
            end - start <= 3,
            all_digits(digits@),
            value == decimal_value(digits@.subrange(start as int, k as int)),
            k - start == 0 ==> value == 0,
            k - start == 1 ==> value <= 9,
            k - start == 2 ==> value <= 99,
            k - start == 3 ==> value <= 999,
        decreases end - k,
    {
        let d: u8 = digits[k];
        proof {
            assert(is_digit(digits@[k as int]));
            let next = digits@.subrange(start as int, k + 1);
            assert(next.drop_last() =~= digits@.subrange(start as int, k as int));
            assert(next.last() == d);
        }
        value = value * 10 + (d - 0x30) as u32;
        k += 1;
    }
    value
}

} // verus!
