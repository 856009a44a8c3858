//! The argument vectors that the encoder is run with: for raw video read
//! from its input, for audio read from a file, for a list of images, and
//! for text that it draws itself.

use crate::ascii::{decimal_text, padded_decimal, pieces_view, push_decimal, push_padded_decimal};
use crate::scroll::{escaped_path, hex_color_of};
use vstd::prelude::*;
use vstd::string::StringSliceAdditionalSpecFns;

verus! {

/// The bytes of a word of ASCII text.
pub open spec fn word(text: &str) -> Seq<u8> {
    text.spec_bytes()
}

fn push_word(args: &mut Vec<Vec<u8>>, text: &str)
    ensures
        pieces_view(final(args)@) == pieces_view(old(args)@).push(word(text)),
{
    let mut bytes: Vec<u8> = Vec::new();
    bytes.extend_from_slice(text.as_bytes());
    assert(bytes@ =~= word(text));
    args.push(bytes);
    assert(pieces_view(args@) =~= pieces_view(old(args)@).push(word(text)));
}

fn push_bytes(args: &mut Vec<Vec<u8>>, bytes: Vec<u8>)
    ensures
        pieces_view(final(args)@) == pieces_view(old(args)@).push(bytes@),
{
    args.push(bytes);
    assert(pieces_view(args@) =~= pieces_view(old(args)@).push(bytes@));
}

fn push_copy(args: &mut Vec<Vec<u8>>, bytes: &[u8])
    ensures
        pieces_view(final(args)@) == pieces_view(old(args)@).push(bytes@),
{
    let mut copy: Vec<u8> = Vec::new();
    copy.extend_from_slice(bytes);
    assert(copy@ =~= bytes@);
    push_bytes(args, copy);
}

/// The arguments that every run starts with: overwrite the output, print no
/// banner, log errors only.
pub open spec fn common_head() -> Seq<Seq<u8>> {
    seq![word("-y"), word("-hide_banner"), word("-loglevel"), word("error")]
}

fn begin() -> (args: Vec<Vec<u8>>)
    ensures
        pieces_view(args@) == common_head(),
{
    let mut args: Vec<Vec<u8>> = Vec::new();
    assert(pieces_view(args@) =~= Seq::<Seq<u8>>::empty());
    push_word(&mut args, "-y");
    push_word(&mut args, "-hide_banner");
    push_word(&mut args, "-loglevel");
    push_word(&mut args, "error");
    assert(pieces_view(args@) =~= common_head());
    args
}

/// The arguments of a run as the encoder is started with them: a larger
/// input queue first, then the caller's own.
pub open spec fn encoder_arguments_of(args: Seq<Seq<u8>>) -> Seq<Seq<u8>> {
    seq![word("-thread_queue_size"), word("512")] + args
}

/// Puts the setting of the input queue in front of the arguments of a run.
pub fn encoder_arguments(args: Vec<Vec<u8>>) -> (out: Vec<Vec<u8>>)
    ensures
        pieces_view(out@) == encoder_arguments_of(pieces_view(args@)),
{
    let mut args = args;
    let mut out: Vec<Vec<u8>> = Vec::new();
    assert(pieces_view(out@) =~= Seq::<Seq<u8>>::empty());
    push_word(&mut out, "-thread_queue_size");
    push_word(&mut out, "512");
    let ghost head = out@;
    let ghost tail = args@;
    assert(pieces_view(head) =~= seq![word("-thread_queue_size"), word("512")]);
    out.append(&mut args);
    proof {
        assert(out@ == head + tail);
        let want = encoder_arguments_of(pieces_view(tail));
        assert(pieces_view(out@).len() == want.len());
        assert forall|i: int| 0 <= i < want.len() implies pieces_view(out@)[i] == want[i] by {
            if i < 2 {
                assert(out@[i] == head[i]);
                assert(pieces_view(head)[i] == head[i]@);
            } else {
                assert(out@[i] == tail[i - 2]);
                assert(pieces_view(tail)[i - 2] == tail[i - 2]@);
            }
        }
        assert(pieces_view(out@) =~= want);
    }
    out
}

/// The two arguments that hold the encoder to two threads, where a whole
/// folder is converted at once; none otherwise.
pub open spec fn thread_limit(limit_threads: bool) -> Seq<Seq<u8>> {
    if limit_threads {
        seq![word("-threads"), word("2")]
    } else {
        Seq::empty()
    }
}

fn push_thread_limit(args: &mut Vec<Vec<u8>>, limit_threads: bool)
    ensures
        pieces_view(final(args)@) == pieces_view(old(args)@) + thread_limit(limit_threads),
{
    if limit_threads {
        push_word(args, "-threads");
        push_word(args, "2");
    }
    assert(pieces_view(args@) =~= pieces_view(old(args)@) + thread_limit(limit_threads));
}

/// A frame size as the encoder reads it: width, `x`, height.
pub open spec fn size_text(width: u32, height: u32) -> Seq<u8> {
    decimal_text(width as nat) + word("x") + decimal_text(height as nat)
}

fn size_bytes(width: u32, height: u32) -> (text: Vec<u8>)
    ensures
        text@ == size_text(width, height),
{
    let mut text: Vec<u8> = Vec::new();
    push_decimal(&mut text, width as u64);
    text.extend_from_slice("x".as_bytes());
    push_decimal(&mut text, height as u64);
    assert(text@ =~= size_text(width, height));
    text
}

fn decimal_bytes(n: u64) -> (text: Vec<u8>)
    ensures
        text@ == decimal_text(n as nat),
{
    let mut text: Vec<u8> = Vec::new();
    push_decimal(&mut text, n);
    assert(text@ =~= decimal_text(n as nat));
    text
}

/// The bytes of one raw frame of the given size: three for each pixel.
pub open spec fn raw_frame_len(width: u32, height: u32) -> int {
    3 * width * height
}

/// The arguments for a video whose frames are written to the encoder's
/// input as raw RGB: the declared pixel format, frame size and frame rate,
/// then the codec, its preset, the thread limit and the output.
pub open spec fn stream_arguments_of(
    width: u32,
    height: u32,
    rate: u32,
    preset: Seq<u8>,
    limit_threads: bool,
    output: Seq<u8>,
) -> Seq<Seq<u8>> {
    common_head() + seq![
        word("-f"),
        word("rawvideo"),
        word("-pix_fmt"),
        word("rgb24"),
        word("-s"),
        size_text(width, height),
        word("-r"),
        decimal_text(rate as nat),
        word("-i"),
        word("pipe:0"),
        word("-c:v"),
        word("libx264"),
        word("-preset"),
        preset,
        word("-pix_fmt"),
        word("yuv420p"),
    ] + thread_limit(limit_threads) + seq![output]
}

/// Builds the arguments for raw video read from the encoder's input. Every
/// frame written must then have `3 * width * height` bytes.
pub fn stream_arguments(
    width: u32,
    height: u32,
    rate: u32,
    preset: &[u8],
    limit_threads: bool,
    output: &[u8],
) -> (args: Vec<Vec<u8>>)
    ensures
        pieces_view(args@) == stream_arguments_of(
            width,
            height,
            rate,
            preset@,
            limit_threads,
            output@,
        ),
{
    let mut args: Vec<Vec<u8>> = begin();
    push_word(&mut args, "-f");
    push_word(&mut args, "rawvideo");
    push_word(&mut args, "-pix_fmt");
    push_word(&mut args, "rgb24");
    push_word(&mut args, "-s");
    push_bytes(&mut args, size_bytes(width, height));
    push_word(&mut args, "-r");
    push_bytes(&mut args, decimal_bytes(rate as u64));
    push_word(&mut args, "-i");
    push_word(&mut args, "pipe:0");
    push_word(&mut args, "-c:v");
    push_word(&mut args, "libx264");
    push_word(&mut args, "-preset");
    push_copy(&mut args, preset);
    push_word(&mut args, "-pix_fmt");
    push_word(&mut args, "yuv420p");
    push_thread_limit(&mut args, limit_threads);
    push_copy(&mut args, output);
    assert(pieces_view(args@) =~= stream_arguments_of(
        width,
        height,
        rate,
        preset@,
        limit_threads,
        output@,
    ));
    args
}

/// The arguments for audio read from an intermediate file and encoded at
/// `kilobits` thousand bits a second, in stereo at 44100 samples a second.
pub open spec fn audio_arguments_of(input: Seq<u8>, kilobits: u32, output: Seq<u8>) -> Seq<
    Seq<u8>,
> {
    common_head() + seq![
        word("-stats"),
        word("-i"),
        input,
        word("-vn"),
        word("-ar"),
        word("44100"),
        word("-ac"),
        word("2"),
        word("-b:a"),
        decimal_text(kilobits as nat) + word("k"),
        word("-codec:a"),
        word("libmp3lame"),
        output,
    ]
}

/// Builds the arguments for audio read from an intermediate file.
pub fn audio_arguments(input: &[u8], kilobits: u32, output: &[u8]) -> (args: Vec<Vec<u8>>)
    ensures
        pieces_view(args@) == audio_arguments_of(input@, kilobits, output@),
{
    let mut args: Vec<Vec<u8>> = begin();
    push_word(&mut args, "-stats");
    push_word(&mut args, "-i");
    push_copy(&mut args, input);
    push_word(&mut args, "-vn");
    push_word(&mut args, "-ar");
    push_word(&mut args, "44100");
    push_word(&mut args, "-ac");
    push_word(&mut args, "2");
    push_word(&mut args, "-b:a");
    let mut bitrate: Vec<u8> = decimal_bytes(kilobits as u64);
    bitrate.extend_from_slice("k".as_bytes());
    assert(bitrate@ =~= decimal_text(kilobits as nat) + word("k"));
    push_bytes(&mut args, bitrate);
    push_word(&mut args, "-codec:a");
    push_word(&mut args, "libmp3lame");
    push_copy(&mut args, output);
    assert(pieces_view(args@) =~= audio_arguments_of(input@, kilobits, output@));
    args
}

/// The arguments for a video made from a list of images, at 25 frames a
/// second.
pub open spec fn listing_arguments_of(listing: Seq<u8>, preset: Seq<u8>, output: Seq<u8>) -> Seq<
    Seq<u8>,
> {
    common_head() + seq![
        word("-stats"),
        word("-f"),
        word("concat"),
        word("-safe"),
        word("0"),
        word("-i"),
        listing,
        word("-vsync"),
        word("vfr"),
        word("-r"),
        word("25"),
        word("-c:v"),
        word("libx264"),
        word("-preset"),
        preset,
        word("-pix_fmt"),
        word("yuv420p"),
        output,
    ]
}

/// Builds the arguments for a video made from a list of images.
pub fn listing_arguments(listing: &[u8], preset: &[u8], output: &[u8]) -> (args: Vec<Vec<u8>>)
    ensures
        pieces_view(args@) == listing_arguments_of(listing@, preset@, output@),
{
    let mut args: Vec<Vec<u8>> = begin();
    push_word(&mut args, "-stats");
    push_word(&mut args, "-f");
    push_word(&mut args, "concat");
    push_word(&mut args, "-safe");
    push_word(&mut args, "0");
    push_word(&mut args, "-i");
    push_copy(&mut args, listing);
    push_word(&mut args, "-vsync");
    push_word(&mut args, "vfr");
    push_word(&mut args, "-r");
    push_word(&mut args, "25");
    push_word(&mut args, "-c:v");
    push_word(&mut args, "libx264");
    push_word(&mut args, "-preset");
    push_copy(&mut args, preset);
    push_word(&mut args, "-pix_fmt");
    push_word(&mut args, "yuv420p");
    push_copy(&mut args, output);
    assert(pieces_view(args@) =~= listing_arguments_of(listing@, preset@, output@));
    args
}

/// The arguments for the tool that renders the pages of a document to PNG
/// images: the resolution, the document, and the prefix of the images'
/// names.
pub open spec fn render_arguments_of(dpi: u32, document: Seq<u8>, prefix: Seq<u8>) -> Seq<
    Seq<u8>,
> {
    seq![word("-r"), decimal_text(dpi as nat), word("-png"), document, prefix]
}

/// Builds the arguments for the tool that renders pages.
pub fn render_arguments(dpi: u32, document: &[u8], prefix: &[u8]) -> (args: Vec<Vec<u8>>)
    ensures
        pieces_view(args@) == render_arguments_of(dpi, document@, prefix@),
{
    let mut args: Vec<Vec<u8>> = Vec::new();
    assert(pieces_view(args@) =~= Seq::<Seq<u8>>::empty());
    push_word(&mut args, "-r");
    push_bytes(&mut args, decimal_bytes(dpi as u64));
    push_word(&mut args, "-png");
    push_copy(&mut args, document);
    push_copy(&mut args, prefix);
    assert(pieces_view(args@) =~= render_arguments_of(dpi, document@, prefix@));
    args
}

/// The arguments for the tool that extracts the text of a document: UTF-8
/// output, the layout kept, the text printed rather than written to a file.
pub open spec fn extract_arguments_of(document: Seq<u8>) -> Seq<Seq<u8>> {
    seq![word("-enc"), word("UTF-8"), word("-layout"), document, word("-")]
}

/// Builds the arguments for the tool that extracts text.
pub fn extract_arguments(document: &[u8]) -> (args: Vec<Vec<u8>>)
    ensures
        pieces_view(args@) == extract_arguments_of(document@),
{
    let mut args: Vec<Vec<u8>> = Vec::new();
    assert(pieces_view(args@) =~= Seq::<Seq<u8>>::empty());
    push_word(&mut args, "-enc");
    push_word(&mut args, "UTF-8");
    push_word(&mut args, "-layout");
    push_copy(&mut args, document);
    push_word(&mut args, "-");
    assert(pieces_view(args@) =~= extract_arguments_of(document@));
    args
}

/// The length of `frames` frames at `rate` frames a second, in seconds with
/// six decimals, rounded down.
pub open spec fn duration_text(frames: u64, rate: u64) -> Seq<u8> {
    decimal_text((frames / rate) as nat) + word(".") + padded_decimal(
        ((frames % rate) * 1000000 / (rate as int)) as nat,
        6,
    )
}

/// Writes out the length of a video in seconds.
pub fn duration_bytes(frames: u64, rate: u64) -> (text: Vec<u8>)
    requires
        0 < rate,
    ensures
        text@ == duration_text(frames, rate),
{
    let mut text: Vec<u8> = Vec::new();
    push_decimal(&mut text, frames / rate);
    text.extend_from_slice(".".as_bytes());
    let rest: u64 = frames % rate;
    assert(0 <= rest * 1000000 / (rate as int) < 1000000) by (nonlinear_arith)
        requires
            0 <= rest < rate,
    ;
    let micros: u128 = (rest as u128) * 1000000 / (rate as u128);
    push_padded_decimal(&mut text, micros as u64, 6);
    assert(text@ =~= duration_text(frames, rate));
    text
}

/// The description of the filter that draws the scrolling text: a black
/// background of the viewport's size for the length of the video, and on it
/// the text of a file, in the given font and colour, vertically centred,
/// its left edge moving from the right edge of the viewport to the left at
/// 120 pixels a second.
pub open spec fn text_filter_of(font: Seq<u8>, file: Seq<u8>, color: [u8; 3], frames: u64) -> Seq<
    u8,
> {
    word("color=c=black:s=600x224:d=") + duration_text(frames, 60) + word(
        ":r=60 [bg]; [bg]drawtext=fontfile='",
    ) + escaped_path(font) + word("':textfile='") + escaped_path(file) + word("':fontcolor=")
        + hex_color_of(color) + word(":fontsize=134:y=(h-text_h)/2:x=w-t*120 [out]")
}

/// Builds the description of the filter that draws the scrolling text.
pub fn text_filter(font: &[u8], file: &[u8], color: [u8; 3], frames: u64) -> (filter: Vec<u8>)
    ensures
        filter@ == text_filter_of(font@, file@, color, frames),
{
    let mut filter: Vec<u8> = Vec::new();
    filter.extend_from_slice("color=c=black:s=600x224:d=".as_bytes());
    let mut duration: Vec<u8> = duration_bytes(frames, 60);
    filter.append(&mut duration);
    filter.extend_from_slice(":r=60 [bg]; [bg]drawtext=fontfile='".as_bytes());
    let mut font_text: Vec<u8> = crate::scroll::escape_path(font);
    filter.append(&mut font_text);
    filter.extend_from_slice("':textfile='".as_bytes());
    let mut file_text: Vec<u8> = crate::scroll::escape_path(file);
    filter.append(&mut file_text);
    filter.extend_from_slice("':fontcolor=".as_bytes());
    let mut color_text: Vec<u8> = crate::scroll::hex_color(color);
    filter.append(&mut color_text);
    filter.extend_from_slice(":fontsize=134:y=(h-text_h)/2:x=w-t*120 [out]".as_bytes());
    assert(filter@ =~= text_filter_of(font@, file@, color, frames));
    filter
}

/// The arguments that say what the video of a scrolling text is made from:
/// the filter, its output, and the length of the video.
pub open spec fn text_source(filter: Seq<u8>, frames: u64) -> Seq<Seq<u8>> {
    seq![
        word("-stats"),
        word("-filter_complex"),
        filter,
        word("-map"),
        word("[out]"),
        word("-t"),
        duration_text(frames, 60),
    ]
}

/// The arguments that say how the video of a scrolling text is encoded: 60
/// frames a second, and the codec with its settings.
pub open spec fn text_codec() -> Seq<Seq<u8>> {
    seq![
        word("-r"),
        word("60"),
        word("-c:v"),
        word("libx264"),
        word("-preset"),
        word("fast"),
        word("-crf"),
        word("26"),
        word("-tune"),
        word("animation"),
        word("-g"),
        word("300"),
        word("-pix_fmt"),
        word("yuv420p"),
    ]
}

/// The arguments for the video of a scrolling text: what it is made from,
/// how it is encoded, the thread limit and the output.
pub open spec fn text_arguments_of(
    filter: Seq<u8>,
    frames: u64,
    limit_threads: bool,
    output: Seq<u8>,
) -> Seq<Seq<u8>> {
    common_head() + text_source(filter, frames) + text_codec() + thread_limit(limit_threads)
        + seq![output]
}

fn push_text_source(args: &mut Vec<Vec<u8>>, filter: Vec<u8>, frames: u64)
    ensures
        pieces_view(final(args)@) == pieces_view(old(args)@) + text_source(filter@, frames),
{
    push_word(args, "-stats");
    push_word(args, "-filter_complex");
    push_bytes(args, filter);
    push_word(args, "-map");
    push_word(args, "[out]");
    push_word(args, "-t");
    push_bytes(args, duration_bytes(frames, 60));
    assert(pieces_view(args@) =~= pieces_view(old(args)@) + text_source(filter@, frames));
}

fn push_text_codec(args: &mut Vec<Vec<u8>>)
    ensures
        pieces_view(final(args)@) == pieces_view(old(args)@) + text_codec(),
{
    push_word(args, "-r");
    push_word(args, "60");
    push_word(args, "-c:v");
    push_word(args, "libx264");
    push_word(args, "-preset");
    push_word(args, "fast");
    push_word(args, "-crf");
    push_word(args, "26");
    push_word(args, "-tune");
    push_word(args, "animation");
    push_word(args, "-g");
    push_word(args, "300");
    push_word(args, "-pix_fmt");
    push_word(args, "yuv420p");
    assert(pieces_view(args@) =~= pieces_view(old(args)@) + text_codec());
}

/// Builds the arguments for the video of a scrolling text.
pub fn text_arguments(filter: Vec<u8>, frames: u64, limit_threads: bool, output: &[u8]) -> (args:
    Vec<Vec<u8>>)
    ensures
        pieces_view(args@) == text_arguments_of(filter@, frames, limit_threads, output@),
{
    let mut args: Vec<Vec<u8>> = begin();
    push_text_source(&mut args, filter, frames);
    push_text_codec(&mut args);
    push_thread_limit(&mut args, limit_threads);
    push_copy(&mut args, output);
    assert(pieces_view(args@) =~= text_arguments_of(filter@, frames, limit_threads, output@));
    args
}

} // verus!
