//! The outside tools: which of their output is taken, and how their
//! settings are read.

use crate::ascii::{after_spaces, lossy_text, skip_spaces, text_of};
use crate::encoder::{parse_count, read_count};
use vstd::prelude::*;

verus! {

/// The resolution at which pages are rendered where no other is set, in
/// dots per inch.
pub const DEFAULT_DPI: u32 = 120;

/// The lowest resolution that can be set.
pub const MIN_DPI: u32 = 50;

/// The highest resolution that can be set.
pub const MAX_DPI: u32 = 600;

/// The resolution that a setting spells: its number, where it is a whole
/// number from 50 to 600; the default for every other text.
pub open spec fn dpi_of(setting: Seq<u8>) -> u32 {
    match parse_count(setting) {
        Some(v) => if 50 <= v <= 600 {
            v as u32
        } else {
            DEFAULT_DPI
        },
        None => DEFAULT_DPI,
    }
}

/// Reads the rendering resolution from its setting, where there is one.
pub fn render_dpi(setting: Option<&[u8]>) -> (dpi: u32)
    ensures
        dpi == match setting {
            Some(text) => dpi_of(text@),
            None => DEFAULT_DPI,
        },
        MIN_DPI <= dpi <= MAX_DPI,
{
    match setting {
        Some(text) => {
            assert(text@.subrange(0, text.len() as int) =~= text@);
            match read_count(text, 0, text.len()) {
                Some(v) => if 50 <= v && v <= 600 {
                    v as u32
                } else {
                    DEFAULT_DPI
                },
                None => DEFAULT_DPI,
            }
        },
        None => DEFAULT_DPI,
    }
}

/// Whether a run of bytes holds nothing but ASCII white space.
pub open spec fn is_blank(s: Seq<u8>) -> bool {
    skip_spaces(s, 0) == s.len()
}

/// Takes what the text extractor printed, if it is of use: the tool must
/// have succeeded and must have printed more than white space. The bytes
/// are read as UTF-8, ill-formed stretches replaced, so that one odd byte
/// does not lose the whole text.
pub fn accept_extracted(success: bool, printed: &[u8]) -> (r: Option<String>)
    ensures
        r is Some <==> success && !is_blank(printed@),
        r matches Some(text) ==> text@ == lossy_text(printed@),
{
    if !success {
        return None;
    }
    if after_spaces(printed, 0) == printed.len() {
        return None;
    }
    Some(text_of(printed))
}

} // verus!
