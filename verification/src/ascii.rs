//! Byte strings: white space, trimming, searching, and numbers written out
//! in decimal.

use vstd::prelude::*;
use vstd::string::StringExecFns;

verus! {

/// Whether `b` is ASCII white space: a blank, or one of tab, line feed,
/// vertical tab, form feed and carriage return.
pub open spec fn is_space(b: u8) -> bool {
    b == 0x20 || (0x09 <= b && b <= 0x0d)
}

/// Decides `is_space`.
pub fn byte_is_space(b: u8) -> (r: bool)
    ensures
        r == is_space(b),
{
    b == 0x20 || (0x09 <= b && b <= 0x0d)
}

/// The first position at or after `from` that holds no white space, or the
/// length of `s` where only white space follows.
pub open spec fn skip_spaces(s: Seq<u8>, from: int) -> int
    decreases s.len() - from,
{
    if from < 0 || from >= s.len() || !is_space(s[from]) {
        from
    } else {
        skip_spaces(s, from + 1)
    }
}

/// The first position at or after `from` that holds white space, or the
/// length of `s` where none follows.
pub open spec fn skip_word(s: Seq<u8>, from: int) -> int
    decreases s.len() - from,
{
    if from < 0 || from >= s.len() || is_space(s[from]) {
        from
    } else {
        skip_word(s, from + 1)
    }
}

/// The end of `s[floor..to]` once the white space at its end is dropped.
pub open spec fn drop_trailing_spaces(s: Seq<u8>, floor: int, to: int) -> int
    decreases to,
{
    if to <= floor || to <= 0 || to > s.len() || !is_space(s[to - 1]) {
        to
    } else {
        drop_trailing_spaces(s, floor, to - 1)
    }
}

/// `s` without the white space at its two ends.
pub open spec fn trimmed(s: Seq<u8>) -> Seq<u8> {
    let start = skip_spaces(s, 0);
    s.subrange(start, drop_trailing_spaces(s, start, s.len() as int))
}

/// Finds `skip_spaces(s, from)`.
pub fn after_spaces(s: &[u8], from: usize) -> (at: usize)
    requires
        from <= s.len(),
    ensures
        at == skip_spaces(s@, from as int),
        from <= at <= s.len(),
{
    let mut at: usize = from;
    while at < s.len() && byte_is_space(s[at])
        invariant
            from <= at <= s.len(),
            skip_spaces(s@, from as int) == skip_spaces(s@, at as int),
        decreases s.len() - at,
    {
        at += 1;
    }
    at
}

/// Finds `skip_word(s, from)`.
pub fn after_word(s: &[u8], from: usize) -> (at: usize)
    requires
        from <= s.len(),
    ensures
        at == skip_word(s@, from as int),
        from <= at <= s.len(),
{
    let mut at: usize = from;
    while at < s.len() && !byte_is_space(s[at])
        invariant
            from <= at <= s.len(),
            skip_word(s@, from as int) == skip_word(s@, at as int),
        decreases s.len() - at,
    {
        at += 1;
    }
    at
}

/// Cuts the white space off both ends of `s`.
pub fn trim(s: &[u8]) -> (out: Vec<u8>)
    ensures
        out@ == trimmed(s@),
{
    let start: usize = after_spaces(s, 0);
    let mut end: usize = s.len();
    while end > start && byte_is_space(s[end - 1])
        invariant
            start <= end <= s.len(),
            drop_trailing_spaces(s@, start as int, s.len() as int) == drop_trailing_spaces(
                s@,
                start as int,
                end as int,
            ),
        decreases end,
    {
        end -= 1;
    }
    let mut out: Vec<u8> = Vec::new();
    out.extend_from_slice(&s[start..end]);
    assert(out@ =~= s@.subrange(start as int, end as int));
    out
}

/// Whether `pat` stands in `s` at position `at`.
pub open spec fn occurs_at(s: Seq<u8>, at: int, pat: Seq<u8>) -> bool {
    &&& 0 <= at
    &&& at + pat.len() <= s.len()
    &&& s.subrange(at, at + pat.len()) == pat
}

/// Whether `pat` stands somewhere in `s`.
pub open spec fn contains(s: Seq<u8>, pat: Seq<u8>) -> bool {
    exists|at: int| occurs_at(s, at, pat)
}

/// Decides `occurs_at`.
pub fn matches_at(s: &[u8], at: usize, pat: &[u8]) -> (r: bool)
    ensures
        r == occurs_at(s@, at as int, pat@),
{
    if at > s.len() || pat.len() > s.len() - at {
        return false;
    }
    let mut k: usize = 0;
    while k < pat.len()
        invariant
            k <= pat.len(),
            at + pat.len() <= s.len(),
            forall|j: int| 0 <= j < k ==> s@[at + j] == pat@[j],
        decreases pat.len() - k,
    {
        if s[at + k] != pat[k] {
            proof {
                assert(s@.subrange(at as int, at + pat.len())[k as int] == s@[at + k]);
            }
            return false;
        }
        k += 1;
    }
    assert(s@.subrange(at as int, at + pat.len()) =~= pat@);
    true
}

/// Decides `contains`.
pub fn contains_bytes(s: &[u8], pat: &[u8]) -> (r: bool)
    ensures
        r == contains(s@, pat@),
{
    let mut at: usize = 0;
    loop
        invariant
            at <= s.len(),
            forall|j: int| 0 <= j < at ==> !occurs_at(s@, j, pat@),
        decreases s.len() - at,
    {
        if matches_at(s, at, pat) {
            return true;
        }
        if at == s.len() {
            return false;
        }
        at += 1;
    }
}

/// A list of byte strings, each as the sequence of its bytes.
pub open spec fn pieces_view(pieces: Seq<Vec<u8>>) -> Seq<Seq<u8>> {
    Seq::new(pieces.len(), |i: int| pieces[i]@)
}

/// A number below ten as its digit.
pub open spec fn digit_byte(d: int) -> u8 {
    (0x30 + d) as u8
}

/// `n` written out in decimal, without leading zeros.
pub open spec fn decimal_text(n: nat) -> Seq<u8>
    decreases n,
{
    if n < 10 {
        seq![digit_byte(n as int)]
    } else {
        decimal_text(n / 10).push(digit_byte((n % 10) as int))
    }
}

/// Appends `n`, written out in decimal, to `out`.
pub fn push_decimal(out: &mut Vec<u8>, n: u64)
    ensures
        final(out)@ == old(out)@ + decimal_text(n as nat),
    decreases n,
{
    if n >= 10 {
        push_decimal(out, n / 10);
    }
    out.push(0x30 + (n % 10) as u8);
    proof {
        if n >= 10 {
            assert(out@ =~= old(out)@ + decimal_text(n as nat));
        } else {
            assert(out@ =~= old(out)@ + decimal_text(n as nat));
        }
    }
}

/// `n` written out in decimal with at least `width` digits, zeros in front
/// where it has fewer.
pub open spec fn padded_decimal(n: nat, width: nat) -> Seq<u8> {
    let digits = decimal_text(n);
    if digits.len() >= width {
        digits
    } else {
        Seq::new((width - digits.len()) as nat, |i: int| 0x30u8) + digits
    }
}

/// Appends `n` to `out`, in decimal and padded with zeros to `width` digits.
pub fn push_padded_decimal(out: &mut Vec<u8>, n: u64, width: usize)
    ensures
        final(out)@ == old(out)@ + padded_decimal(n as nat, width as nat),
{
    let mut digits: Vec<u8> = Vec::new();
    push_decimal(&mut digits, n);
    assert(digits@ =~= decimal_text(n as nat));
    let ghost start = out@;
    let mut have: usize = digits.len();
    while have < width
        invariant
            digits.len() <= have <= width || have == digits.len(),
            out@ == start + Seq::new((have - digits.len()) as nat, |i: int| 0x30u8),
        decreases width - have,
    {
        out.push(0x30);
        have += 1;
        assert(out@ =~= start + Seq::new((have - digits.len()) as nat, |i: int| 0x30u8));
    }
    let ghost padded = out@;
    out.append(&mut digits);
    proof {
        if decimal_text(n as nat).len() >= width {
            assert(padded =~= start);
        }
        assert(out@ =~= start + padded_decimal(n as nat, width as nat));
    }
}

/// A number below ten as the character of its digit.
pub open spec fn digit_char(d: int) -> char {
    if d == 0 {
        '0'
    } else if d == 1 {
        '1'
    } else if d == 2 {
        '2'
    } else if d == 3 {
        '3'
    } else if d == 4 {
        '4'
    } else if d == 5 {
        '5'
    } else if d == 6 {
        '6'
    } else if d == 7 {
        '7'
    } else if d == 8 {
        '8'
    } else {
        '9'
    }
}

/// `n` written out in decimal as text, without leading zeros.
pub open spec fn decimal_chars(n: nat) -> Seq<char>
    decreases n,
{
    if n < 10 {
        seq![digit_char(n as int)]
    } else {
        decimal_chars(n / 10).push(digit_char((n % 10) as int))
    }
}

fn digit_str(d: u64) -> (s: &'static str)
    requires
        d < 10,
    ensures
        s@ == seq![digit_char(d as int)],
{
    proof {
        reveal_strlit("0");
        reveal_strlit("1");
        reveal_strlit("2");
        reveal_strlit("3");
        reveal_strlit("4");
        reveal_strlit("5");
        reveal_strlit("6");
        reveal_strlit("7");
        reveal_strlit("8");
        reveal_strlit("9");
    }
    let s: &'static str = if d == 0 {
        "0"
    } else if d == 1 {
        "1"
    } else if d == 2 {
        "2"
    } else if d == 3 {
        "3"
    } else if d == 4 {
        "4"
    } else if d == 5 {
        "5"
    } else if d == 6 {
        "6"
    } else if d == 7 {
        "7"
    } else if d == 8 {
        "8"
    } else {
        "9"
    };
    assert(s@ =~= seq![digit_char(d as int)]);
    s
}

/// Appends `n`, written out in decimal, to a text.
pub fn push_decimal_chars(text: &mut String, n: u64)
    ensures
        final(text)@ == old(text)@ + decimal_chars(n as nat),
    decreases n,
{
    if n >= 10 {
        push_decimal_chars(text, n / 10);
    }
    text.append(digit_str(n % 10));
    assert(text@ =~= old(text)@ + decimal_chars(n as nat));
}

/// The text that a run of bytes spells when it is read as UTF-8, with each
/// ill-formed stretch replaced by U+FFFD.
pub uninterp spec fn lossy_text(bytes: Seq<u8>) -> Seq<char>;

/// Reads bytes as text.
///
/// Calls `String::from_utf8_lossy` and takes the result as an owned string.
/// Trusted: the text depends on the bytes alone.
#[verifier::external_body]
pub(crate) fn text_of(bytes: &[u8]) -> (text: String)
    ensures
        text@ == lossy_text(bytes@),
{
    String::from_utf8_lossy(bytes).into_owned()
}

} // verus!
