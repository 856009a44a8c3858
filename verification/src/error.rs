//! The failures a conversion job can end in.

use crate::ascii::{decimal_chars, lossy_text, push_decimal_chars, text_of};
use vstd::prelude::*;
use vstd::string::StringExecFns;

verus! {

/// What was wrong with the input of a job or of a whole batch.
#[derive(Debug, Clone, Copy, PartialEq, Eq, Structural)]
pub enum InputError {
    /// No eligible file was found under the selected path.
    NoFiles,
    /// The selected file is not of the kind the converter reads.
    WrongFileType,
    /// The source held none of the data the converter looks for.
    EmptyData,
    /// A pulse rate was zero, or so high that a beat would hold no sample.
    InvalidRate,
    /// The images of a slideshow do not all have the same dimensions:
    /// image number `image`, counted from 1 in the order shown, is `width`
    /// by `height` pixels where the images before it are `first_width` by
    /// `first_height`.
    DimensionMismatch { image: usize, width: u32, height: u32, first_width: u32, first_height: u32 },
}

/// Why a job did not produce its output.
#[derive(Debug, Clone, PartialEq, Eq)]
pub enum ConvertError {
    /// The input was unusable.
    Input(InputError),
    /// A fixed asset that the converter needs is absent; carries its path.
    AssetMissing(String),
    /// A document or image could not be decoded; carries the decoder's words.
    Extraction(String),
    /// The encoder could not be launched; carries the program's name.
    Spawn(String),
    /// The job's workspace or an intermediate file in it could not be
    /// written; carries the system's words.
    Workspace(String),
    /// The encoder ran and reported failure; carries its exit code, where it
    /// had one, and the last fatal line of its diagnostics, where it wrote
    /// one.
    EncoderExit { status: Option<i32>, diagnostic: Option<Vec<u8>> },
    /// The batch was cancelled while the job was running.
    Cancelled,
}

/// The text shown for a cancelled job.
pub open spec fn cancelled_text() -> Seq<char> {
    "Cancelled."@
}

/// An exit code written out in decimal, with a minus sign where negative.
pub open spec fn signed_decimal_chars(code: i32) -> Seq<char> {
    if code < 0 {
        seq!['-'] + decimal_chars((-code) as nat)
    } else {
        decimal_chars(code as nat)
    }
}

fn push_signed_decimal(text: &mut String, code: i32)
    ensures
        final(text)@ == old(text)@ + signed_decimal_chars(code),
{
    if code < 0 {
        proof {
            reveal_strlit("-");
        }
        text.append("-");
        let magnitude: u64 = (-(code as i64)) as u64;
        push_decimal_chars(text, magnitude);
    } else {
        push_decimal_chars(text, code as u64);
    }
    assert(text@ =~= old(text)@ + signed_decimal_chars(code));
}

/// The size of an image as text: width, `x`, height.
pub open spec fn size_chars(width: u32, height: u32) -> Seq<char> {
    decimal_chars(width as nat) + "x"@ + decimal_chars(height as nat)
}

fn push_size(text: &mut String, width: u32, height: u32)
    ensures
        final(text)@ == old(text)@ + size_chars(width, height),
{
    push_decimal_chars(text, width as u64);
    text.append("x");
    push_decimal_chars(text, height as u64);
    assert(text@ =~= old(text)@ + size_chars(width, height));
}

impl InputError {
    /// The text shown for this error.
    pub open spec fn text(self) -> Seq<char> {
        match self {
            InputError::NoFiles => "No eligible files found"@,
            InputError::WrongFileType => "Selected file is not of the expected type"@,
            InputError::EmptyData => "No usable data found in the source"@,
            InputError::InvalidRate => "Pulse rate out of range"@,
            InputError::DimensionMismatch { image, width, height, first_width, first_height } =>
                "Image dimension mismatch: image "@ + decimal_chars(image as nat) + " is "@
                    + size_chars(width, height) + ", but the images before it are "@ + size_chars(
                    first_width,
                    first_height,
                ) + ". All images must have the same dimensions."@,
        }
    }

    /// Writes out the text shown for this error.
    pub fn message(&self) -> (s: String)
        ensures
            s@ == self.text(),
    {
        match self {
            InputError::NoFiles => String::from_str("No eligible files found"),
            InputError::WrongFileType => String::from_str(
                "Selected file is not of the expected type",
            ),
            InputError::EmptyData => String::from_str("No usable data found in the source"),
            InputError::InvalidRate => String::from_str("Pulse rate out of range"),
            InputError::DimensionMismatch { image, width, height, first_width, first_height } => {
                let mut s = String::from_str("Image dimension mismatch: image ");
                push_decimal_chars(&mut s, *image as u64);
                s.append(" is ");
                push_size(&mut s, *width, *height);
                s.append(", but the images before it are ");
                push_size(&mut s, *first_width, *first_height);
                s.append(". All images must have the same dimensions.");
                s
            },
        }
    }
}

impl ConvertError {
    /// Whether this is the outcome of a cancellation rather than a failure.
    pub open spec fn is_cancellation(self) -> bool {
        self is Cancelled
    }

    /// The text shown for this error.
    pub open spec fn text(self) -> Seq<char> {
        match self {
            ConvertError::Input(e) => e.text(),
            ConvertError::AssetMissing(path) => path@ + " not found"@,
            ConvertError::Extraction(why) => "extraction failed: "@ + why@,
            ConvertError::Spawn(program) => "failed to spawn '"@ + program@
                + "'. Hint: install it or set its path."@,
            ConvertError::Workspace(why) => "workspace failure: "@ + why@,
            ConvertError::EncoderExit { status, diagnostic } => match diagnostic {
                Some(line) => "Encoder error: "@ + lossy_text(line@),
                None => match status {
                    Some(code) => "encoder exited with status "@ + signed_decimal_chars(code),
                    None => "encoder was stopped before it exited"@,
                },
            },
            ConvertError::Cancelled => cancelled_text(),
        }
    }

    /// Tells a cancellation from a genuine failure, so that a presentation
    /// layer can keep it off its error surfaces.
    pub fn is_cancelled(&self) -> (b: bool)
        ensures
            b == self.is_cancellation(),
    {
        match self {
            ConvertError::Cancelled => true,
            _ => false,
        }
    }

    /// Writes out the text shown for this error.
    pub fn message(&self) -> (s: String)
        ensures
            s@ == self.text(),
    {
        match self {
            ConvertError::Input(e) => e.message(),
            ConvertError::AssetMissing(path) => {
                let mut s = path.clone();
                s.append(" not found");
                s
            },
            ConvertError::Extraction(why) => {
                let mut s = String::from_str("extraction failed: ");
                s.append(why.as_str());
                s
            },
            ConvertError::Spawn(program) => {
                let mut s = String::from_str("failed to spawn '");
                s.append(program.as_str());
                s.append("'. Hint: install it or set its path.");
                s
            },
            ConvertError::Workspace(why) => {
                let mut s = String::from_str("workspace failure: ");
                s.append(why.as_str());
                s
            },
            ConvertError::EncoderExit { status, diagnostic } => match diagnostic {
                Some(line) => {
                    let mut s = String::from_str("Encoder error: ");
                    s.append(text_of(line.as_slice()).as_str());
                    s
                },
                None => match status {
                    Some(code) => {
                        let mut s = String::from_str("encoder exited with status ");
                        push_signed_decimal(&mut s, *code);
                        s
                    },
                    None => String::from_str("encoder was stopped before it exited"),
                },
            },
            ConvertError::Cancelled => String::from_str("Cancelled."),
        }
    }
}

} // verus!
