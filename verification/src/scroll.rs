//! Scrolling text: the text flattened to one line, the colour written the
//! way the encoder reads it, and the number of frames it takes the text to
//! cross the viewport.

use crate::error::{ConvertError, InputError};
use vstd::prelude::*;

verus! {

/// Width of the viewport, in pixels.
pub const VIEWPORT_WIDTH: u64 = 600;

/// Height of the viewport, in pixels.
pub const VIEWPORT_HEIGHT: u64 = 224;

/// Frames per second of the video.
pub const FRAME_RATE: u64 = 60;

/// Pixels that the text moves to the left from one frame to the next.
pub const SPEED: u64 = 2;

/// Height of the font, in pixels: six tenths of the viewport's, rounded.
pub const FONT_SIZE: u64 = 134;

/// Whether a character is white space: one of the 25 code points that have
/// the Unicode property `White_Space`. These are the blank, the controls
/// from tab to carriage return, next line, the no-break blanks, and the
/// blanks and separators of the general punctuation block.
pub open spec fn is_white_space(c: char) -> bool {
    let u = c as u32;
    ||| 0x09 <= u <= 0x0d
    ||| u == 0x20
    ||| u == 0x85
    ||| u == 0xa0
    ||| u == 0x1680
    ||| 0x2000 <= u <= 0x200a
    ||| u == 0x2028
    ||| u == 0x2029
    ||| u == 0x202f
    ||| u == 0x205f
    ||| u == 0x3000
}

/// Tells whether a character is white space.
///
/// Calls `char::is_whitespace`. Trusted: the standard library answers by
/// the Unicode property `White_Space`, whose code points are the ones that
/// `is_white_space` lists.
#[verifier::external_body]
fn is_whitespace(c: char) -> (r: bool)
    ensures
        r == is_white_space(c),
{
    c.is_whitespace()
}

/// Whether a blank is pending at the end of `s`: the last character of `s`
/// that is not NUL is white space.
pub open spec fn ends_in_space(s: Seq<char>) -> bool
    decreases s.len(),
{
    if s.len() == 0 {
        false
    } else if s.last() == '\0' {
        ends_in_space(s.drop_last())
    } else {
        is_white_space(s.last())
    }
}

/// `s` with every NUL dropped and every run of white space turned into one
/// blank.
pub open spec fn squeezed(s: Seq<char>) -> Seq<char>
    decreases s.len(),
{
    if s.len() == 0 {
        Seq::empty()
    } else if s.last() == '\0' {
        squeezed(s.drop_last())
    } else if is_white_space(s.last()) {
        if ends_in_space(s.drop_last()) {
            squeezed(s.drop_last())
        } else {
            squeezed(s.drop_last()).push(' ')
        }
    } else {
        squeezed(s.drop_last()).push(s.last())
    }
}

/// `t` without the blank at its start and the blank at its end, where it
/// has them.
pub open spec fn without_end_blanks(t: Seq<char>) -> Seq<char> {
    let start: int = if t.len() > 0 && t[0] == ' ' {
        1
    } else {
        0
    };
    let end: int = if t.len() > start && t.last() == ' ' {
        t.len() - 1
    } else {
        t.len() as int
    };
    t.subrange(start, end)
}

/// The text flattened to one line: no NUL, one blank for each run of white
/// space, and no blank at either end.
pub open spec fn flattened(s: Seq<char>) -> Seq<char> {
    without_end_blanks(squeezed(s))
}

/// Flattens extracted text to the one line that scrolls.
///
/// Fails with `EmptyData` exactly when nothing is left of the text.
pub fn flatten_text(text: &[char]) -> (r: Result<Vec<char>, ConvertError>)
    ensures
        r is Err <==> flattened(text@).len() == 0,
        r matches Err(e) ==> e == ConvertError::Input(InputError::EmptyData),
        r matches Ok(line) ==> line@ == flattened(text@),
{
    let mut squeezed_text: Vec<char> = Vec::new();
    let mut pending: bool = false;
    let mut i: usize = 0;
    while i < text.len()
        invariant
            i <= text.len(),
            squeezed_text@ == squeezed(text@.take(i as int)),
            pending == ends_in_space(text@.take(i as int)),
        decreases text.len() - i,
    {
        let c: char = text[i];
        proof {
            assert(text@.take(i + 1).drop_last() =~= text@.take(i as int));
            assert(text@.take(i + 1).last() == c);
        }
        if c != '\0' {
            if is_whitespace(c) {
                if !pending {
                    squeezed_text.push(' ');
                    pending = true;
                }
            } else {
                squeezed_text.push(c);
                pending = false;
            }
        }
        i += 1;
    }
    proof {
        assert(text@.take(text.len() as int) =~= text@);
    }
    let n: usize = squeezed_text.len();
    let start: usize = if n > 0 && squeezed_text[0] == ' ' {
        1
    } else {
        0
    };
    let end: usize = if n > start && squeezed_text[n - 1] == ' ' {
        n - 1
    } else {
        n
    };
    if start >= end {
        return Err(ConvertError::Input(InputError::EmptyData));
    }
    let mut line: Vec<char> = Vec::new();
    let mut k: usize = start;
    while k < end
        invariant
            start <= k <= end <= squeezed_text.len(),
            line@ == squeezed_text@.subrange(start as int, k as int),
        decreases end - k,
    {
        line.push(squeezed_text[k]);
        assert(squeezed_text@.subrange(start as int, k + 1) =~= squeezed_text@.subrange(
            start as int,
            k as int,
        ).push(squeezed_text@[k as int]));
        k += 1;
    }
    Ok(line)
}

/// The number of frames that the text scrolls for: it enters at the right
/// edge of the viewport and moves `SPEED` pixels a frame, and the video
/// ends with the first frame at which the text has left at the left edge.
/// That is the width of the viewport and of the text together, over the
/// speed, rounded up.
pub open spec fn scroll_frames_of(text_width: int) -> int {
    (text_width + VIEWPORT_WIDTH + SPEED - 1) / (SPEED as int)
}

/// Where the left edge of the text stands at a frame, in pixels from the
/// left edge of the viewport.
pub open spec fn text_left_edge(frame: int) -> int {
    VIEWPORT_WIDTH - SPEED * frame
}

/// Counts the frames of the video for a text that is `text_width` pixels
/// wide.
pub fn scroll_frames(text_width: u64) -> (frames: u64)
    ensures
        frames == scroll_frames_of(text_width as int),
{
    let span: u128 = text_width as u128 + (VIEWPORT_WIDTH + SPEED - 1) as u128;
    (span / (SPEED as u128)) as u64
}

/// Scroll law: the text starts wholly to the right of the viewport, moves
/// left by the same distance every frame, and when the video ends its right
/// edge has reached the left edge of the viewport or passed it; one frame
/// earlier it had not. So the text enters once and leaves once.
pub proof fn law_text_crosses_once(text_width: int, frame: int)
    requires
        0 <= text_width,
        0 <= frame,
    ensures
        text_left_edge(0) == VIEWPORT_WIDTH,
        text_left_edge(frame + 1) == text_left_edge(frame) - SPEED,
        text_left_edge(scroll_frames_of(text_width)) + text_width <= 0,
        text_left_edge(scroll_frames_of(text_width) - 1) + text_width > 0,
{
}

/// What holds of squeezed text: it has no NUL, its only white space is the
/// blank, no two blanks stand side by side, and it ends in a blank exactly
/// when the text it was made from ends in white space.
pub open spec fn is_squeezed(t: Seq<char>) -> bool {
    &&& forall|i: int| 0 <= i < t.len() ==> #[trigger] t[i] != '\0'
    &&& forall|i: int| 0 <= i < t.len() && is_white_space(#[trigger] t[i]) ==> t[i] == ' '
    &&& forall|i: int| 0 <= i < t.len() - 1 ==> !(#[trigger] t[i] == ' ' && t[i + 1] == ' ')
}

/// Squeezing gives squeezed text.
pub proof fn lemma_squeezed(s: Seq<char>)
    ensures
        is_squeezed(squeezed(s)),
        ends_in_space(s) <==> squeezed(s).len() > 0 && squeezed(s).last() == ' ',
    decreases s.len(),
{
    if s.len() > 0 {
        lemma_squeezed(s.drop_last());
        let before = squeezed(s.drop_last());
        let c = s.last();
        assert(is_white_space(' '));
        if c != '\0' {
            if is_white_space(c) {
                if !ends_in_space(s.drop_last()) {
                    let t = before.push(' ');
                    assert forall|i: int| 0 <= i < t.len() - 1 implies !(#[trigger] t[i] == ' '
                        && t[i + 1] == ' ') by {
                        if i + 1 < before.len() {
                            assert(t[i] == before[i] && t[i + 1] == before[i + 1]);
                        }
                    }
                }
            } else {
                let t = before.push(c);
                assert forall|i: int| 0 <= i < t.len() - 1 implies !(#[trigger] t[i] == ' '
                    && t[i + 1] == ' ') by {
                    if i + 1 < before.len() {
                        assert(t[i] == before[i] && t[i + 1] == before[i + 1]);
                    }
                }
            }
        }
    }
}

/// Flattening law: the line that scrolls holds no NUL and no white space
/// but single blanks between words; no line feed, no tab, no two blanks
/// side by side, and no blank at its start or at its end.
pub proof fn law_flattened_is_one_line(s: Seq<char>)
    ensures
        is_squeezed(flattened(s)),
        flattened(s).len() > 0 ==> flattened(s)[0] != ' ' && flattened(s).last() != ' ',
{
    lemma_squeezed(s);
    let t = squeezed(s);
    let f = flattened(s);
    let start: int = if t.len() > 0 && t[0] == ' ' {
        1
    } else {
        0
    };
    assert forall|i: int| 0 <= i < f.len() implies #[trigger] f[i] == t[start + i] by {}
    assert forall|i: int| 0 <= i < f.len() - 1 implies !(#[trigger] f[i] == ' ' && f[i + 1]
        == ' ') by {
        assert(f[i] == t[start + i]);
        assert(f[i + 1] == t[start + i + 1]);
    }
    if f.len() > 0 {
        if start == 1 {
            assert(!(t[0] == ' ' && t[1] == ' '));
        }
        if t.len() > start && t.last() == ' ' {
            assert(!(t[t.len() - 2] == ' ' && t[t.len() - 2 + 1] == ' '));
        }
    }
}

/// The character of a hexadecimal digit, in lower case.
pub open spec fn hex_digit(nibble: int) -> u8 {
    if nibble < 10 {
        (0x30 + nibble) as u8
    } else {
        (0x61 + nibble - 10) as u8
    }
}

/// A colour written the way the encoder reads it: `0x` and two hexadecimal
/// digits for each channel.
pub open spec fn hex_color_of(color: [u8; 3]) -> Seq<u8> {
    seq![
        0x30u8,
        0x78u8,
        hex_digit(color[0] as int / 16),
        hex_digit(color[0] as int % 16),
        hex_digit(color[1] as int / 16),
        hex_digit(color[1] as int % 16),
        hex_digit(color[2] as int / 16),
        hex_digit(color[2] as int % 16),
    ]
}

fn hex_byte(nibble: u8) -> (b: u8)
    requires
        nibble < 16,
    ensures
        b == hex_digit(nibble as int),
{
    if nibble < 10 {
        0x30 + nibble
    } else {
        0x61 + (nibble - 10)
    }
}

/// Writes a colour the way the encoder reads it.
pub fn hex_color(color: [u8; 3]) -> (text: Vec<u8>)
    ensures
        text@ == hex_color_of(color),
{
    let mut text: Vec<u8> = Vec::new();
    text.push(0x30);
    text.push(0x78);
    text.push(hex_byte(color[0] / 16));
    text.push(hex_byte(color[0] % 16));
    text.push(hex_byte(color[1] / 16));
    text.push(hex_byte(color[1] % 16));
    text.push(hex_byte(color[2] / 16));
    text.push(hex_byte(color[2] % 16));
    assert(text@ =~= hex_color_of(color));
    text
}

/// One byte of a path as it stands inside a filter description: a
/// backslash becomes a slash, and a colon gets a backslash in front.
pub open spec fn escaped_byte(b: u8) -> Seq<u8> {
    if b == 0x5c {
        seq![0x2fu8]
    } else if b == 0x3a {
        seq![0x5cu8, 0x3au8]
    } else {
        seq![b]
    }
}

/// A path as it stands inside a filter description.
pub open spec fn escaped_path(path: Seq<u8>) -> Seq<u8>
    decreases path.len(),
{
    if path.len() == 0 {
        Seq::empty()
    } else {
        escaped_path(path.drop_last()) + escaped_byte(path.last())
    }
}

/// Escapes a path for use inside a filter description.
pub fn escape_path(path: &[u8]) -> (out: Vec<u8>)
    ensures
        out@ == escaped_path(path@),
{
    let mut out: Vec<u8> = Vec::new();
    let mut i: usize = 0;
    while i < path.len()
        invariant
            i <= path.len(),
            out@ == escaped_path(path@.take(i as int)),
        decreases path.len() - i,
    {
        let b: u8 = path[i];
        let ghost before = out@;
        proof {
            assert(path@.take(i + 1).drop_last() =~= path@.take(i as int));
            assert(path@.take(i + 1).last() == b);
        }
        if b == 0x5c {
            out.push(0x2f);
        } else if b == 0x3a {
            out.push(0x5c);
            out.push(0x3a);
        } else {
            out.push(b);
        }
        assert(out@ =~= before + escaped_byte(b));
        i += 1;
    }
    proof {
        assert(path@.take(path.len() as int) =~= path@);
    }
    out
}

} // verus!
