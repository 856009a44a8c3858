//! The slideshow: every image of a folder shown for four seconds, handed to
//! the encoder as a numbered list of files.

use crate::ascii::{padded_decimal, push_padded_decimal};
use crate::error::{ConvertError, InputError};
use vstd::prelude::*;
use vstd::string::StringSliceAdditionalSpecFns;

verus! {

/// Seconds that each image is shown.
pub const SECONDS_PER_IMAGE: usize = 4;

/// Frames per second of the video.
pub const FRAME_RATE: usize = 25;

/// Frames that each image is shown for.
pub const FRAMES_PER_IMAGE: usize = 100;

/// The first dimensions known among the first `upto` images.
pub open spec fn reference_of(dims: Seq<Option<(u32, u32)>>, upto: int) -> Option<(u32, u32)>
    decreases upto,
{
    if upto <= 0 {
        None
    } else {
        match reference_of(dims, upto - 1) {
            Some(d) => Some(d),
            None => dims[upto - 1],
        }
    }
}

/// Whether image `i` has known dimensions that differ from the first known
/// ones before it.
pub open spec fn mismatch_at(dims: Seq<Option<(u32, u32)>>, i: int) -> bool {
    &&& dims[i] is Some
    &&& reference_of(dims, i) is Some
    &&& dims[i] != reference_of(dims, i)
}

/// Finds the first image whose dimensions differ from those of the images
/// before it. An image whose dimensions are not known (`None`: it could not
/// be decoded) neither sets nor breaks the rule.
pub fn first_mismatch(dims: &Vec<Option<(u32, u32)>>) -> (r: Option<usize>)
    ensures
        match r {
            Some(i) => i < dims.len() && mismatch_at(dims@, i as int) && forall|j: int|
                0 <= j < i ==> !mismatch_at(dims@, j),
            None => forall|j: int| 0 <= j < dims.len() ==> !mismatch_at(dims@, j),
        },
{
    let mut reference: Option<(u32, u32)> = None;
    let mut i: usize = 0;
    while i < dims.len()
        invariant
            i <= dims.len(),
            reference == reference_of(dims@, i as int),
            forall|j: int| 0 <= j < i ==> !mismatch_at(dims@, j),
        decreases dims.len() - i,
    {
        match dims[i] {
            Some(d) => match reference {
                Some(first) => {
                    if d.0 != first.0 || d.1 != first.1 {
                        return Some(i);
                    }
                },
                None => {
                    reference = Some(d);
                },
            },
            None => {},
        }
        i += 1;
    }
    None
}

/// The error for a slideshow whose image `i`, counted from 0, is the first
/// that differs from the images before it: it names the image, counted
/// from 1, its size, and the size of the images before it.
pub open spec fn mismatch_error(dims: Seq<Option<(u32, u32)>>, i: int) -> ConvertError {
    ConvertError::Input(
        InputError::DimensionMismatch {
            image: (i + 1) as usize,
            width: width_of(dims[i]),
            height: height_of(dims[i]),
            first_width: width_of(reference_of(dims, i)),
            first_height: height_of(reference_of(dims, i)),
        },
    )
}

/// The width of an image's dimensions, where they are known.
pub open spec fn width_of(size: Option<(u32, u32)>) -> u32 {
    match size {
        Some(pair) => pair.0,
        None => 0,
    }
}

/// The height of an image's dimensions, where they are known.
pub open spec fn height_of(size: Option<(u32, u32)>) -> u32 {
    match size {
        Some(pair) => pair.1,
        None => 0,
    }
}

/// Whether image `i` is the first that differs from the images before it.
pub open spec fn is_first_mismatch(dims: Seq<Option<(u32, u32)>>, i: int) -> bool {
    &&& 0 <= i < dims.len()
    &&& mismatch_at(dims, i)
    &&& forall|j: int| 0 <= j < i ==> !mismatch_at(dims, j)
}

/// Checks that the images of a slideshow all have the same dimensions.
///
/// Fails exactly when one of them differs from the images before it, with
/// the error that names the first such image and both sizes.
pub fn check_dimensions(dims: &Vec<Option<(u32, u32)>>) -> (r: Result<(), ConvertError>)
    ensures
        r is Ok <==> forall|j: int| 0 <= j < dims.len() ==> !mismatch_at(dims@, j),
        r matches Err(e) ==> exists|i: int|
            is_first_mismatch(dims@, i) && e == mismatch_error(dims@, i),
{
    let mut reference: Option<(u32, u32)> = None;
    let mut i: usize = 0;
    while i < dims.len()
        invariant
            i <= dims.len(),
            reference == reference_of(dims@, i as int),
            forall|j: int| 0 <= j < i ==> !mismatch_at(dims@, j),
        decreases dims.len() - i,
    {
        match dims[i] {
            Some(d) => match reference {
                Some(first) => {
                    if d.0 != first.0 || d.1 != first.1 {
                        assert(is_first_mismatch(dims@, i as int));
                        return Err(
                            ConvertError::Input(
                                InputError::DimensionMismatch {
                                    image: i + 1,
                                    width: d.0,
                                    height: d.1,
                                    first_width: first.0,
                                    first_height: first.1,
                                },
                            ),
                        );
                    }
                },
                None => {
                    reference = Some(d);
                },
            },
            None => {},
        }
        i += 1;
    }
    Ok(())
}

/// The frames of a slideshow of `images` images.
pub fn slideshow_frames(images: usize) -> (frames: usize)
    requires
        images <= usize::MAX / 100,
    ensures
        frames == images * 4 * 25,
{
    images * FRAMES_PER_IMAGE
}

/// The name under which image number `number` is copied into the
/// workspace: `img_`, the number in four digits or more, a dot and the
/// image's extension.
pub open spec fn entry_name_of(number: nat, ext: Seq<u8>) -> Seq<u8> {
    "img_".spec_bytes() + padded_decimal(number, 4) + ".".spec_bytes() + ext
}

fn push_entry_name(out: &mut Vec<u8>, number: u64, ext: &[u8])
    ensures
        final(out)@ == old(out)@ + entry_name_of(number as nat, ext@),
{
    let ghost start = out@;
    out.extend_from_slice("img_".as_bytes());
    push_padded_decimal(out, number, 4);
    out.extend_from_slice(".".as_bytes());
    out.extend_from_slice(ext);
    assert(out@ =~= start + entry_name_of(number as nat, ext@));
}

/// Names image number `number` of the slideshow.
pub fn entry_name(number: u64, ext: &[u8]) -> (name: Vec<u8>)
    ensures
        name@ == entry_name_of(number as nat, ext@),
{
    let mut name: Vec<u8> = Vec::new();
    push_entry_name(&mut name, number, ext);
    assert(name@ =~= entry_name_of(number as nat, ext@));
    name
}

/// The line of the list that names image number `number`.
pub open spec fn file_line(number: nat, ext: Seq<u8>) -> Seq<u8> {
    "file '".spec_bytes() + entry_name_of(number, ext) + "'\n".spec_bytes()
}

/// The line of the list that gives an image its four seconds.
pub open spec fn duration_line() -> Seq<u8> {
    "duration 4.0\n".spec_bytes()
}

/// The list for the first `n` images: for each its name and its duration.
pub open spec fn listing_body(exts: Seq<Vec<u8>>, n: int) -> Seq<u8>
    decreases n,
{
    if n <= 0 {
        Seq::empty()
    } else {
        listing_body(exts, n - 1) + file_line(n as nat, exts[n - 1]@) + duration_line()
    }
}

/// The whole list: every image with its duration, and the last image named
/// once more at the end, without a duration, so that it is shown to the
/// end. No image, no list.
pub open spec fn listing_of(exts: Seq<Vec<u8>>) -> Seq<u8> {
    if exts.len() == 0 {
        Seq::empty()
    } else {
        listing_body(exts, exts.len() as int) + file_line(exts.len(), exts.last()@)
    }
}

fn push_file_line(out: &mut Vec<u8>, number: u64, ext: &[u8])
    ensures
        final(out)@ == old(out)@ + file_line(number as nat, ext@),
{
    let ghost start = out@;
    out.extend_from_slice("file '".as_bytes());
    push_entry_name(out, number, ext);
    out.extend_from_slice("'\n".as_bytes());
    assert(out@ =~= start + file_line(number as nat, ext@));
}

/// Writes the list of images that the encoder reads, from the extensions of
/// the images in the order they are shown.
pub fn concat_listing(exts: &Vec<Vec<u8>>) -> (out: Vec<u8>)
    requires
        exts.len() < u64::MAX,
    ensures
        out@ == listing_of(exts@),
{
    let mut out: Vec<u8> = Vec::new();
    let n: usize = exts.len();
    if n == 0 {
        return out;
    }
    let mut i: usize = 0;
    while i < n
        invariant
            i <= n,
            n == exts.len(),
            n < u64::MAX,
            out@ == listing_body(exts@, i as int),
        decreases n - i,
    {
        let ghost before = out@;
        push_file_line(&mut out, (i + 1) as u64, exts[i].as_slice());
        out.extend_from_slice("duration 4.0\n".as_bytes());
        assert(out@ =~= before + file_line((i + 1) as nat, exts@[i as int]@) + duration_line());
        i += 1;
    }
    push_file_line(&mut out, n as u64, exts[n - 1].as_slice());
    out
}

} // verus!
