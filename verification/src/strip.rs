//! The page strip: source images resized to tiles, laid side by side with a
//! blank tile at the end, and the window that scrolls across them.

use crate::arguments::raw_frame_len;
use crate::error::{ConvertError, InputError};
use vstd::prelude::*;

verus! {

/// Width of a tile, and of the scrolling window, in pixels.
pub const TILE_WIDTH: u32 = 750;

/// Height of a tile, and of the scrolling window, in pixels.
pub const TILE_HEIGHT: u32 = 360;

/// Bytes in one row of a tile: three per pixel.
pub const ROW_BYTES: usize = 2250;

/// Bytes in one tile, and in one frame of the video.
pub const TILE_BYTES: usize = 810000;

/// Frames of a finished strip video: 720 seconds at 25 frames a second.
pub const STRIP_FRAMES: usize = 18000;

/// A decoded image: 8-bit RGB, rows from the top, three bytes per pixel.
pub struct RawImage {
    pub width: u32,
    pub height: u32,
    pub pixels: Vec<u8>,
}

impl RawImage {
    /// The image is not empty, its buffer holds exactly its pixels, and it
    /// is not so wide that its rows, resampled to the height of a tile,
    /// would not fit the machine's addresses.
    pub open spec fn well_formed(&self) -> bool {
        &&& self.width > 0
        &&& self.height > 0
        &&& self.pixels.len() == 3 * self.width * self.height
        &&& 4 * self.width * 360 <= usize::MAX
    }

    /// Decides `well_formed` without overflowing on any dimensions.
    pub fn is_well_formed(&self) -> (b: bool)
        ensures
            b == self.well_formed(),
    {
        if self.width == 0 || self.height == 0 {
            return false;
        }
        assert(3 * (self.width as int) * (self.height as int) <= 3 * 0xffff_ffff * 0xffff_ffff)
            by (nonlinear_arith)
            requires
                0 <= self.width <= 0xffff_ffff,
                0 <= self.height <= 0xffff_ffff,
        ;
        let expected: u128 = 3 * (self.width as u128) * (self.height as u128);
        let rows: u128 = 1440 * (self.width as u128);
        self.pixels.len() as u128 == expected && rows <= usize::MAX as u128
    }
}

/// The pixels of an RGB image of `width` by `height` pixels after it has
/// been resampled to `new_width` by `new_height` pixels with a triangle
/// (bilinear) filter, as a function of the image and the new size.
pub uninterp spec fn resampled(
    pixels: Seq<u8>,
    width: u32,
    height: u32,
    new_width: u32,
    new_height: u32,
) -> Seq<u8>;

/// Resamples an RGB image with a triangle filter.
///
/// Calls `image::imageops::resize` with `FilterType::Triangle` on an
/// `RgbImage` built from the given buffer. Trusted: the result is the
/// function of the input that `resampled` names, it holds three bytes for
/// each pixel of the new size, and an image that already has the new size
/// comes back as it was (the crate copies it without resampling). The
/// crate allocates an image of `width` by `new_height` pixels of four
/// numbers each on the way, and one of the new size: both must fit the
/// machine's addresses.
#[verifier::external_body]
fn resize_triangle(pixels: Vec<u8>, width: u32, height: u32, new_width: u32, new_height: u32) -> (out:
    Vec<u8>)
    requires
        width > 0,
        height > 0,
        new_width > 0,
        new_height > 0,
        pixels.len() == 3 * width * height,
        4 * width * new_height <= usize::MAX,
        3 * new_width * new_height <= usize::MAX,
    ensures
        out@ == resampled(pixels@, width, height, new_width, new_height),
        out.len() == 3 * new_width * new_height,
        width == new_width && height == new_height ==> out@ == pixels@,
{
    let source = image::RgbImage::from_raw(width, height, pixels).unwrap();
    let filter = image::imageops::FilterType::Triangle;
    image::imageops::resize(&source, new_width, new_height, filter).into_raw()
}

/// One tile of the strip: exactly 750 by 360 RGB pixels.
pub struct Tile {
    pixels: Vec<u8>,
}

impl Tile {
    #[verifier::type_invariant]
    spec fn sized(&self) -> bool {
        self.pixels.len() == TILE_BYTES
    }

    /// The tile's bytes, row by row.
    pub closed spec fn view(&self) -> Seq<u8> {
        self.pixels@
    }

    /// A tile of the right size that is black all over.
    pub fn blank() -> (t: Tile)
        ensures
            t@ == blank_tile(),
    {
        let pixels: Vec<u8> = vec![0u8; TILE_BYTES];
        assert(pixels@ =~= blank_tile());
        Tile { pixels }
    }

    /// Takes a buffer as a tile, if it has the size of one.
    pub fn from_pixels(pixels: Vec<u8>) -> (r: Option<Tile>)
        ensures
            r is Some <==> pixels.len() == TILE_BYTES,
            r matches Some(t) ==> t@ == pixels@,
    {
        if pixels.len() == TILE_BYTES {
            Some(Tile { pixels })
        } else {
            None
        }
    }

    /// Resamples a decoded image to a tile. Gives `None` exactly when the
    /// image is not well-formed.
    pub fn from_image(image: RawImage) -> (r: Option<Tile>)
        ensures
            r is Some <==> image.well_formed(),
            r matches Some(t) ==> t@ == resampled(
                image.pixels@,
                image.width,
                image.height,
                TILE_WIDTH,
                TILE_HEIGHT,
            ),
            r matches Some(t) ==> t@.len() == TILE_BYTES,
            image.well_formed() && image.width == TILE_WIDTH && image.height == TILE_HEIGHT ==> (r matches Some(
                t,
            ) && t@ == image.pixels@),
    {
        if !image.is_well_formed() {
            return None;
        }
        let pixels: Vec<u8> = resize_triangle(
            image.pixels,
            image.width,
            image.height,
            TILE_WIDTH,
            TILE_HEIGHT,
        );
        Some(Tile { pixels })
    }

    /// The tile's bytes.
    pub fn as_bytes(&self) -> (bytes: &[u8])
        ensures
            bytes@ == self@,
            bytes@.len() == TILE_BYTES,
    {
        proof {
            use_type_invariant(self);
        }
        self.pixels.as_slice()
    }
}

/// The bytes of a black tile.
pub open spec fn blank_tile() -> Seq<u8> {
    Seq::new(TILE_BYTES as nat, |k: int| 0u8)
}

/// The byte of channel `ch` of the strip's pixel at column `x`, row `y`,
/// where the strip is the tiles laid side by side.
pub open spec fn strip_byte(tiles: Seq<Seq<u8>>, x: int, y: int, ch: int) -> u8 {
    tiles[x / 750][(y * 750 + x % 750) * 3 + ch]
}

/// How far the window has scrolled at frame `f` of `total_frames`, in pixels
/// from the strip's left edge: it moves linearly from 0 at the first frame
/// to the last tile at the last frame.
pub open spec fn scroll_offset(width: int, total_frames: int, f: int) -> int {
    if total_frames <= 1 {
        0
    } else {
        f * (width - 750) / (total_frames - 1)
    }
}

/// Byte `k` of the window whose left edge is at column `offset`.
pub open spec fn window_byte(tiles: Seq<Seq<u8>>, offset: int, k: int) -> u8 {
    strip_byte(tiles, offset + (k % 2250) / 3, k / 2250, k % 3)
}

/// `frame` is the window onto the strip whose left edge is at `offset`.
pub open spec fn is_window(frame: Seq<u8>, tiles: Seq<Seq<u8>>, offset: int) -> bool {
    &&& frame.len() == TILE_BYTES
    &&& forall|k: int| 0 <= k < TILE_BYTES ==> #[trigger] frame[k] == window_byte(tiles, offset, k)
}

/// The scroll never leaves the strip, starts at its left edge and ends on
/// its last tile.
pub proof fn lemma_scroll_offset_range(width: int, total_frames: int, f: int)
    requires
        750 <= width,
        0 <= f < total_frames,
    ensures
        0 <= scroll_offset(width, total_frames, f) <= width - 750,
        scroll_offset(width, total_frames, 0) == 0,
        total_frames > 1 ==> scroll_offset(width, total_frames, total_frames - 1) == width - 750,
{
    if total_frames > 1 {
        let span = width - 750;
        let last = total_frames - 1;
        assert(0 <= f * span <= last * span) by (nonlinear_arith)
            requires
                0 <= f <= last,
                0 <= span,
        ;
        assert(0 <= (f * span) / last <= span) by (nonlinear_arith)
            requires
                0 <= f * span <= last * span,
                0 < last,
        ;
        assert((0 * span) / last == 0) by (nonlinear_arith)
            requires
                0 < last,
        ;
        assert((last * span) / last == span) by (nonlinear_arith)
            requires
                0 < last,
        ;
    }
}

/// Strip law, whole tiles: a window whose left edge stands where a tile
/// starts shows that tile and nothing else. With the range of the scroll
/// this makes the video open on the first tile and close on the blank one.
pub proof fn law_window_on_a_tile(frame: Seq<u8>, tiles: Seq<Seq<u8>>, t: int)
    requires
        0 <= t < tiles.len(),
        tiles[t].len() == TILE_BYTES,
        is_window(frame, tiles, 750 * t),
    ensures
        frame == tiles[t],
{
    assert forall|k: int| 0 <= k < TILE_BYTES implies frame[k] == tiles[t][k] by {
        let column = (k % 2250) / 3;
        let row = k / 2250;
        assert(frame[k] == window_byte(tiles, 750 * t, k));
        assert(0 <= column < 750);
        assert((750 * t + column) / 750 == t);
        assert((750 * t + column) % 750 == column);
        assert((row * 750 + column) * 3 + k % 3 == k);
    }
    assert(frame =~= tiles[t]);
}

/// The strip: one tile for each source image, and a blank tile at the end.
pub struct Strip {
    tiles: Vec<Tile>,
}

impl Strip {
    #[verifier::type_invariant]
    spec fn bounded(&self) -> bool {
        1 <= self.tiles.len() <= usize::MAX / TILE_BYTES
    }

    /// The tiles of the strip, left to right, each as its bytes.
    pub closed spec fn view(&self) -> Seq<Seq<u8>> {
        Seq::new(self.tiles.len() as nat, |i: int| self.tiles[i]@)
    }

    /// The strip's width in pixels.
    pub open spec fn width(&self) -> int {
        750 * (self@.len() as int)
    }

    /// Lays the tiles out in order and closes the strip with a blank tile.
    ///
    /// Fails with `EmptyData` exactly when there is no tile.
    pub fn assemble(tiles: Vec<Tile>) -> (r: Result<Strip, ConvertError>)
        requires
            tiles.len() < usize::MAX / TILE_BYTES,
        ensures
            r is Err <==> tiles.len() == 0,
            r matches Err(e) ==> e == ConvertError::Input(InputError::EmptyData),
            r matches Ok(strip) ==> {
                &&& strip@.len() == tiles.len() + 1
                &&& forall|i: int| 0 <= i < tiles.len() ==> #[trigger] strip@[i] == tiles[i]@
                &&& strip@[tiles.len() as int] == blank_tile()
            },
    {
        if tiles.len() == 0 {
            return Err(ConvertError::Input(InputError::EmptyData));
        }
        let mut tiles = tiles;
        tiles.push(Tile::blank());
        Ok(Strip { tiles })
    }

    /// The number of tiles, the closing blank one included.
    pub fn tile_count(&self) -> (n: usize)
        ensures
            n == self@.len(),
            n >= 1,
    {
        proof {
            use_type_invariant(self);
        }
        self.tiles.len()
    }

    /// The column at which the window's left edge stands at frame `f`.
    pub fn scroll_position(&self, f: usize, total_frames: usize) -> (x: usize)
        requires
            f < total_frames,
        ensures
            x == scroll_offset(self.width(), total_frames as int, f as int),
            x <= self.width() - 750,
    {
        proof {
            use_type_invariant(self);
            lemma_scroll_offset_range(self.width(), total_frames as int, f as int);
        }
        if total_frames <= 1 {
            return 0;
        }
        let span: usize = (self.tiles.len() - 1) * 750;
        assert(0 <= (f as int) * (span as int) <= 0xffff_ffff_ffff_ffff * 0xffff_ffff_ffff_ffff)
            by (nonlinear_arith)
            requires
                0 <= f <= 0xffff_ffff_ffff_ffff,
                0 <= span <= 0xffff_ffff_ffff_ffff,
        ;
        let x: u128 = (f as u128) * (span as u128) / ((total_frames - 1) as u128);
        x as usize
    }

    /// Renders frame `f` of `total_frames` into `frame`: the window of one
    /// tile's size onto the strip, at the scroll position of that frame.
    /// Where the window straddles two tiles the frame shows the right part
    /// of the one beside the left part of the next.
    pub fn render_frame(&self, f: usize, total_frames: usize, frame: &mut Vec<u8>)
        requires
            f < total_frames,
        ensures
            is_window(
                final(frame)@,
                self@,
                scroll_offset(self.width(), total_frames as int, f as int),
            ),
            final(frame).len() == raw_frame_len(TILE_WIDTH, TILE_HEIGHT),
    {
        proof {
            use_type_invariant(self);
            assert(3 * 750 * 360 == 810000) by (nonlinear_arith);
            assert(raw_frame_len(TILE_WIDTH, TILE_HEIGHT) == 3 * 750 * 360);
        }
        let offset: usize = self.scroll_position(f, total_frames);
        let index: usize = offset / 750;
        let local: usize = offset % 750;
        let left: &[u8] = self.tiles[index].as_bytes();
        let right: &[u8] = if local > 0 {
            self.tiles[index + 1].as_bytes()
        } else {
            left
        };
        let ghost tiles = self@;
        assert(left@ == tiles[index as int]);
        assert(local > 0 ==> right@ == tiles[index + 1]);
        frame.clear();
        let mut y: usize = 0;
        while y < 360
            invariant
                y <= 360,
                offset == index * 750 + local,
                local < 750,
                index < tiles.len(),
                local > 0 ==> index + 1 < tiles.len(),
                left@ == tiles[index as int],
                local > 0 ==> right@ == tiles[index + 1],
                left@.len() == TILE_BYTES,
                right@.len() == TILE_BYTES,
                frame@.len() == y * 2250,
                forall|k: int|
                    0 <= k < y * 2250 ==> #[trigger] frame@[k] == window_byte(tiles, offset as int, k),
            decreases 360 - y,
        {
            let row: usize = y * 750;
            let ghost before = frame@;
            frame.extend_from_slice(&left[(row + local) * 3..(row + 750) * 3]);
            let ghost middle = frame@;
            if local > 0 {
                frame.extend_from_slice(&right[row * 3..(row + local) * 3]);
            }
            proof {
                let kept = (750 - local) * 3;
                assert(frame@.len() == (y + 1) * 2250);
                assert forall|k: int| 0 <= k < (y + 1) * 2250 implies #[trigger] frame@[k]
                    == window_byte(tiles, offset as int, k) by {
                    if k < y * 2250 {
                        assert(frame@[k] == middle[k]);
                        assert(middle[k] == before[k]);
                    } else {
                        let r = k - y * 2250;
                        let c = r / 3;
                        assert(k / 2250 == y as int);
                        assert(k % 2250 == r);
                        assert(k % 3 == r % 3);
                        if r < kept {
                            assert(frame@[k] == middle[k]);
                            assert(middle[k] == left@[(row + local) * 3 + r]);
                            assert((offset + c) / 750 == index as int);
                            assert((offset + c) % 750 == local + c);
                        } else {
                            assert(local > 0);
                            assert(frame@[k] == right@[row * 3 + (r - kept)]);
                            assert((offset + c) / 750 == index + 1);
                            assert((offset + c) % 750 == local + c - 750);
                        }
                    }
                }
            }
            y += 1;
        }
    }
}

} // verus!
