//! The characters: the built-in roster, pictures read from PNG files, and the
//! atlas of the character that the settings ask for.

use vstd::prelude::*;

use crate::atlas;
use crate::atlas::{Facing, Look, PackError, SpriteAtlas, WaterMode};
use crate::config::{Config, CustomSprite, Settings, SpriteSettings};
use crate::image;
use crate::image::{Image, Picture};
use crate::png_file;
use crate::png_file::{PngFault, Raw, RawFrame};
use crate::single::Single;
use crate::text;

verus! {

/// Why a character has no atlas.
#[derive(Debug, Clone, Copy, PartialEq, Eq, Structural)]
pub enum AssetError {
    /// The character is "custom", but no custom sprite is configured.
    NotConfigured,
    /// The custom sprite's file could not be read.
    Unreadable,
    /// The settings name a character that does not exist.
    UnknownCharacter,
    /// A file is not a PNG that can be decoded.
    Png(PngFault),
    /// A PNG has a color type, given by its number, that is not supported.
    PngColor(u8),
    /// A PNG has a number of bits per sample that its color type cannot have.
    PngDepth(u8),
    /// A PNG's pixels do not fill its size.
    PngSize,
    /// The custom sprite's frame does not fit its sheet.
    FrameSize { frame_width: u32, frame_height: u32, sheet_width: u32, sheet_height: u32 },
    /// The frames cannot be packed.
    Pack(PackError),
}

// ---- pictures -------------------------------------------------------------

/// The bytes of a raw frame that belong to it.
pub open spec fn frame_bytes(raw: Raw) -> Seq<u8> {
    if raw.size < raw.data.len() {
        raw.data.take(raw.size as int)
    } else {
        raw.data
    }
}

/// How many samples a pixel of a color type has; nothing for color types
/// that are not supported.
pub open spec fn samples_of(color: u8) -> Option<int> {
    if color == png_file::RGBA {
        Some(4)
    } else if color == png_file::RGB {
        Some(3)
    } else if color == png_file::GRAYSCALE_ALPHA {
        Some(2)
    } else if color == png_file::GRAYSCALE {
        Some(1)
    } else {
        None
    }
}

/// Samples have one byte or two, and those of gray may share a byte.
pub open spec fn has_depth(color: u8, depth: u8) -> bool {
    depth == 8 || depth == 16 || (color == png_file::GRAYSCALE && (depth == 1 || depth == 2 || depth
        == 4))
}

/// How many bytes a row of `n` samples takes.
pub open spec fn row_bytes(n: int, depth: int) -> int {
    (n * depth + 7) / 8
}

/// The largest sample of 1, 2 or 4 bits.
pub open spec fn largest(depth: int) -> u8 {
    if depth == 1 {
        1
    } else if depth == 2 {
        3
    } else {
        15
    }
}

/// The sample of 1, 2 or 4 bits that starts `at` bits below the top of a
/// byte, spread over the range of a byte.
pub open spec fn spread(byte: u8, depth: int, at: int) -> u8 {
    (((byte >> ((8 - depth - at) as u8)) & largest(depth)) * (255int / largest(depth) as int)) as u8
}

/// Sample `k` of the row that starts at `start`, as a byte: the high byte of
/// two, and less than a byte spread.
pub open spec fn sample_at(d: Seq<u8>, start: int, depth: int, k: int) -> u8 {
    if depth == 16 {
        d[start + 2 * k]
    } else if depth == 8 {
        d[start + k]
    } else {
        spread(d[start + k * depth / 8], depth, k * depth % 8)
    }
}

/// Red, green, blue or alpha of a pixel of a raw frame: gray stands for all
/// three colors, and what has no alpha is opaque.
pub open spec fn channel_of(raw: Raw, x: int, y: int, c: int) -> u8 {
    let d = frame_bytes(raw);
    let depth = raw.depth as int;
    let samples = samples_of(raw.color)->0;
    let start = y * row_bytes(raw.width * samples, depth);
    if raw.color == png_file::RGBA {
        sample_at(d, start, depth, 4 * x + c)
    } else if raw.color == png_file::RGB {
        if c == 3 {
            255
        } else {
            sample_at(d, start, depth, 3 * x + c)
        }
    } else if raw.color == png_file::GRAYSCALE_ALPHA {
        if c == 3 {
            sample_at(d, start, depth, 2 * x + 1)
        } else {
            sample_at(d, start, depth, 2 * x)
        }
    } else {
        if c == 3 {
            255
        } else {
            sample_at(d, start, depth, x)
        }
    }
}

/// The picture of a raw frame, with four bytes for each pixel.
pub open spec fn unpacked(raw: Raw) -> Picture {
    Picture {
        width: raw.width as int,
        height: raw.height as int,
        data: Seq::new(
            (raw.width * raw.height * 4) as nat,
            |j: int| channel_of(raw, j / 4 % raw.width as int, j / 4 / raw.width as int, j % 4),
        ),
    }
}

/// What a raw frame shows, or why it shows nothing.
pub open spec fn expanded(raw: Raw) -> Result<Picture, AssetError> {
    match samples_of(raw.color) {
        None => Err(AssetError::PngColor(raw.color)),
        Some(samples) => if !has_depth(raw.color, raw.depth) {
            Err(AssetError::PngDepth(raw.depth))
        } else if raw.width * raw.height * 4 > usize::MAX {
            Err(AssetError::Png(PngFault::TooLarge))
        } else if frame_bytes(raw).len() != row_bytes(raw.width * samples, raw.depth as int)
            * raw.height {
            Err(AssetError::PngSize)
        } else {
            Ok(unpacked(raw))
        },
    }
}

/// A sample lies within its row.
proof fn lemma_sample_inside(n: int, depth: int, k: int)
    requires
        0 <= k < n,
        depth == 1 || depth == 2 || depth == 4 || depth == 8 || depth == 16,
    ensures
        depth == 16 ==> 2 * k < row_bytes(n, depth),
        depth == 8 ==> k < row_bytes(n, depth),
        depth < 8 ==> 0 <= k * depth / 8 < row_bytes(n, depth) && k * depth % 8 + depth <= 8,
{
}

/// Rows lie one after the other.
proof fn lemma_row_inside(line: int, y: int, height: int)
    requires
        0 <= line,
        0 <= y < height,
    ensures
        0 <= y * line,
        y * line + line <= line * height,
{
    assert(0 <= y * line && y * line + line <= line * height) by (nonlinear_arith)
        requires
            0 <= line,
            0 <= y < height,
    ;
}

/// Eight-bit RGBA is a picture as it stands.
pub proof fn lemma_rgba_as_it_stands(raw: Raw)
    requires
        raw.color == png_file::RGBA,
        raw.depth == 8,
        frame_bytes(raw).len() == raw.width * raw.height * 4,
        raw.width * raw.height * 4 <= usize::MAX,
    ensures
        expanded(raw) == Ok::<Picture, AssetError>(
            Picture {
                width: raw.width as int,
                height: raw.height as int,
                data: frame_bytes(raw),
            },
        ),
{
    let (w, h) = (raw.width as int, raw.height as int);
    let d = frame_bytes(raw);
    assert(row_bytes(w * 4, 8) == w * 4);
    assert((w * 4) * h == w * h * 4) by (nonlinear_arith);
    assert forall|j: int| 0 <= j < d.len() implies unpacked(raw).data[j] == d[j] by {
        let p = j / 4;
        assert(w > 0) by (nonlinear_arith)
            requires
                0 <= j < w * h * 4,
                w >= 0,
        ;
        vstd::arithmetic::div_mod::lemma_fundamental_div_mod(p, w);
        let (x, y) = (p % w, p / w);
        assert(y * (w * 4) + 4 * x == (w * y + x) * 4) by (nonlinear_arith);
    }
    assert(unpacked(raw).data =~= d);
}

/// Reads a sample as a byte.
fn sample(bytes: &Vec<u8>, start: usize, depth: u8, k: u64) -> (r: u8)
    requires
        depth == 1 || depth == 2 || depth == 4 || depth == 8 || depth == 16,
        depth == 16 ==> start + 2 * k < bytes.len(),
        depth == 8 ==> start + k < bytes.len(),
        depth < 8 ==> start + k * depth / 8 < bytes.len(),
        k < 0x10_0000_0000,
    ensures
        r == sample_at(bytes@, start as int, depth as int, k as int),
{
    if depth == 16 {
        return bytes[start + (2 * k) as usize];
    }
    if depth == 8 {
        return bytes[start + k as usize];
    }
    let bit: u64 = k * depth as u64;
    let byte: u8 = bytes[start + (bit / 8) as usize];
    let at: u8 = (bit % 8) as u8;
    assert(at + depth <= 8);
    let shift: u8 = 8 - depth - at;
    let top: u8 = if depth == 1 {
        1
    } else if depth == 2 {
        3
    } else {
        15
    };
    assert(top == largest(depth as int));
    let v: u8 = (byte >> shift) & top;
    assert((byte >> shift) & top <= top) by (bit_vector);
    if depth == 1 {
        v * 255
    } else if depth == 2 {
        v * 85
    } else {
        v * 17
    }
}

/// Turns a raw frame into an image.
pub fn expand(raw: RawFrame) -> (r: Result<Image, AssetError>)
    ensures
        match r {
            Ok(image) => expanded(raw@) == Ok::<Picture, AssetError>(image@),
            Err(e) => expanded(raw@) == Err::<Picture, AssetError>(e),
        },
        r matches Ok(image) ==> image.data.len() == image.width * image.height * 4,
{
    let ghost d = frame_bytes(raw@);
    let RawFrame { width, height, color, depth, size, data } = raw;
    let mut bytes = data;
    bytes.truncate(size);
    assert(bytes@ =~= d);
    let samples: usize = if color == png_file::RGBA {
        4
    } else if color == png_file::RGB {
        3
    } else if color == png_file::GRAYSCALE_ALPHA {
        2
    } else if color == png_file::GRAYSCALE {
        1
    } else {
        return Err(AssetError::PngColor(color));
    };
    if !(depth == 8 || depth == 16 || (color == png_file::GRAYSCALE && (depth == 1 || depth == 2
        || depth == 4))) {
        return Err(AssetError::PngDepth(depth));
    }
    proof {
        image::lemma_product(width as int, height as int);
    }
    if width as u128 * height as u128 * 4 > usize::MAX as u128 {
        return Err(AssetError::Png(PngFault::TooLarge));
    }
    let ghost n = width * samples;
    assert(n * depth <= 0x100_0000_0000) by (nonlinear_arith)
        requires
            0 <= n <= 4 * 0x1_0000_0000,
            0 <= depth <= 16,
    ;
    assert(0 <= n * depth) by (nonlinear_arith)
        requires
            0 <= n,
            0 <= depth,
    ;
    let long: u64 = (width as u64 * samples as u64 * depth as u64 + 7) / 8;
    assert(long == row_bytes(n, depth as int));
    assert(0 <= long * height <= 0x100_0000_0000 * 0x1_0000_0000) by (nonlinear_arith)
        requires
            0 <= long <= 0x100_0000_0000,
            0 <= height <= 0x1_0000_0000,
    ;
    if bytes.len() as u128 != long as u128 * height as u128 {
        return Err(AssetError::PngSize);
    }
    let ghost goal = unpacked(raw@).data;
    let mut out: Vec<u8> = Vec::new();
    let mut y: u32 = 0;
    while y < height
        invariant
            y <= height,
            bytes@ == d,
            d == frame_bytes(raw@),
            width == raw@.width,
            height == raw@.height,
            color == raw@.color,
            depth == raw@.depth,
            samples_of(color) == Some(samples as int),
            1 <= samples <= 4,
            has_depth(color, depth),
            width * height * 4 <= usize::MAX,
            n == width * samples,
            long == row_bytes(n, depth as int),
            bytes.len() == long * height,
            goal == unpacked(raw@).data,
            out.len() == y * width * 4,
            forall|j: int| 0 <= j < out.len() ==> out[j] == goal[j],
        decreases height - y,
    {
        proof {
            lemma_row_inside(long as int, y as int, height as int);
        }
        let line: usize = long as usize;
        let start: usize = y as usize * line;
        let mut x: u32 = 0;
        while x < width
            invariant
                x <= width,
                y < height,
                bytes@ == d,
                d == frame_bytes(raw@),
                width == raw@.width,
                height == raw@.height,
                color == raw@.color,
                depth == raw@.depth,
                samples_of(color) == Some(samples as int),
                1 <= samples <= 4,
                has_depth(color, depth),
                n == width * samples,
                long == row_bytes(n, depth as int),
                start == y * long,
                start + long <= bytes.len(),
                goal == unpacked(raw@).data,
                goal.len() == width * height * 4,
                width * height * 4 <= usize::MAX,
                out.len() == (y * width + x) * 4,
                forall|j: int| 0 <= j < out.len() ==> out[j] == goal[j],
            decreases width - x,
        {
            proof {
                let at = out.len() as int;
                image::lemma_offset_bound(width as int, x as int, y as int, height as int);
                vstd::arithmetic::div_mod::lemma_fundamental_div_mod_converse(
                    y * width + x,
                    width as int,
                    y as int,
                    x as int,
                );
                assert forall|c: int| 0 <= c < 4 implies #[trigger] goal[at + c] == channel_of(
                    raw@,
                    x as int,
                    y as int,
                    c,
                ) by {
                    assert((at + c) / 4 == y * width + x && (at + c) % 4 == c);
                }
            }
            assert(x * samples + samples <= width * samples) by (nonlinear_arith)
                requires
                    x + 1 <= width,
            ;
            assert(width * samples <= 4 * width) by (nonlinear_arith)
                requires
                    samples <= 4,
            ;
            let first: u64 = x as u64 * samples as u64;
            let red = pixel_sample(&bytes, start, depth, first, 0, samples, width, long);
            let alpha: u8 = if samples == 4 {
                pixel_sample(&bytes, start, depth, first, 3, samples, width, long)
            } else if samples == 2 {
                pixel_sample(&bytes, start, depth, first, 1, samples, width, long)
            } else {
                255
            };
            let (green, blue): (u8, u8) = if samples >= 3 {
                (
                    pixel_sample(&bytes, start, depth, first, 1, samples, width, long),
                    pixel_sample(&bytes, start, depth, first, 2, samples, width, long),
                )
            } else {
                (red, red)
            };
            let ghost at = out.len() as int;
            proof {
                assert(samples == 4 ==> first == 4 * x) by (nonlinear_arith)
                    requires
                        first == x * samples,
                ;
                assert(samples == 3 ==> first == 3 * x) by (nonlinear_arith)
                    requires
                        first == x * samples,
                ;
                assert(samples == 2 ==> first == 2 * x) by (nonlinear_arith)
                    requires
                        first == x * samples,
                ;
                assert(samples == 1 ==> first == x) by (nonlinear_arith)
                    requires
                        first == x * samples,
                ;
                assert(start == y * row_bytes(raw@.width * samples_of(raw@.color)->0, depth as int));
            }
            assert(goal[at + 0] == channel_of(raw@, x as int, y as int, 0));
            assert(goal[at + 0] == red);
            assert(goal[at + 1] == green);
            assert(goal[at + 2] == blue);
            assert(goal[at + 3] == alpha);
            out.push(red);
            out.push(green);
            out.push(blue);
            out.push(alpha);
            x = x + 1;
        }
        assert((y + 1) * width == y * width + width) by (nonlinear_arith);
        y = y + 1;
    }
    assert(height * width == width * height) by (nonlinear_arith);
    let image = Image { width, height, data: out };
    assert(image@.data =~= goal);
    Ok(image)
}

/// Reads sample `c` of the pixel whose samples begin with sample `first` of
/// its row.
fn pixel_sample(
    bytes: &Vec<u8>,
    start: usize,
    depth: u8,
    first: u64,
    c: u64,
    samples: usize,
    width: u32,
    long: u64,
) -> (r: u8)
    requires
        depth == 1 || depth == 2 || depth == 4 || depth == 8 || depth == 16,
        c < samples <= 4,
        first + samples <= width * samples <= 4 * width,
        long == row_bytes(width * samples, depth as int),
        start + long <= bytes.len(),
    ensures
        r == sample_at(bytes@, start as int, depth as int, first + c),
{
    proof {
        lemma_sample_inside(width * samples, depth as int, first + c);
    }
    sample(bytes, start, depth, first + c)
}

/// What a PNG file shows.
pub open spec fn shown_by(bytes: Seq<u8>) -> Result<Picture, AssetError> {
    match png_file::first_frame_of(bytes, usize::MAX as nat) {
        Err(fault) => Err(AssetError::Png(fault)),
        Ok(raw) => expanded(raw),
    }
}

/// Reads a PNG file.
pub fn decode_png(bytes: &[u8]) -> (r: Result<Image, AssetError>)
    ensures
        match r {
            Ok(image) => shown_by(bytes@) == Ok::<Picture, AssetError>(image@),
            Err(e) => shown_by(bytes@) == Err::<Picture, AssetError>(e),
        },
        r matches Ok(image) ==> image.data.len() == image.width * image.height * 4,
{
    match png_file::first_frame(bytes) {
        Err(Some(_)) => Err(AssetError::Png(PngFault::Header)),
        Err(None) => Err(AssetError::Png(PngFault::TooLarge)),
        Ok(Err(_)) => Err(AssetError::Png(PngFault::Frame)),
        Ok(Ok(raw)) => expand(raw),
    }
}

// ---- laws of pictures -----------------------------------------------------

/// The first bytes of a raw frame are its pixels.
proof fn lemma_frame_bytes(raw: Raw)
    ensures
        frame_bytes(raw).len() <= raw.data.len(),
        forall|j: int|
            0 <= j < frame_bytes(raw).len() ==> #[trigger] frame_bytes(raw)[j] == raw.data[j],
{
}

/// Where the channels of a pixel stand in the picture of a raw frame.
proof fn lemma_channels(raw: Raw, x: int, y: int)
    requires
        0 <= x < raw.width,
        0 <= y < raw.height,
    ensures
        unpacked(raw).data.len() == raw.width * raw.height * 4,
        0 <= (y * raw.width + x) * 4,
        (y * raw.width + x) * 4 + 4 <= raw.width * raw.height * 4,
        unpacked(raw).data[(y * raw.width + x) * 4] == channel_of(raw, x, y, 0),
        unpacked(raw).data[(y * raw.width + x) * 4 + 1] == channel_of(raw, x, y, 1),
        unpacked(raw).data[(y * raw.width + x) * 4 + 2] == channel_of(raw, x, y, 2),
        unpacked(raw).data[(y * raw.width + x) * 4 + 3] == channel_of(raw, x, y, 3),
{
    let w = raw.width as int;
    image::lemma_offset_bound(w, x, y, raw.height as int);
    vstd::arithmetic::div_mod::lemma_fundamental_div_mod_converse(y * w + x, w, y, x);
    let at = (y * w + x) * 4;
    assert(at / 4 == y * w + x && at % 4 == 0);
    assert((at + 1) / 4 == y * w + x && (at + 1) % 4 == 1);
    assert((at + 2) / 4 == y * w + x && (at + 2) % 4 == 2);
    assert((at + 3) / 4 == y * w + x && (at + 3) % 4 == 3);
}

/// Where the samples of a pixel lie, with whole bytes for each sample.
proof fn lemma_whole_samples(w: int, h: int, n: int, bytes: int, x: int, y: int, k: int)
    requires
        0 <= x < w,
        0 <= y < h,
        1 <= n <= 4,
        0 <= k < n,
        bytes == 1 || bytes == 2,
    ensures
        row_bytes(w * n, 8 * bytes) == w * n * bytes,
        y * (w * n * bytes) + (n * x + k) * bytes == ((y * w + x) * n + k) * bytes,
        0 <= ((y * w + x) * n + k) * bytes < w * n * bytes * h,
{
    assert((w * n) * (8 * bytes) == 8 * (w * n * bytes)) by (nonlinear_arith);
    assert(y * (w * n * bytes) + (n * x + k) * bytes == ((y * w + x) * n + k) * bytes)
        by (nonlinear_arith);
    assert(n * x + k < w * n) by (nonlinear_arith)
        requires
            0 <= x < w,
            0 <= k < n,
    ;
    assert(0 <= n * x + k) by (nonlinear_arith)
        requires
            0 <= x,
            0 <= k < n,
    ;
    let line = w * n * bytes;
    assert(0 <= (n * x + k) * bytes < line) by (nonlinear_arith)
        requires
            0 <= n * x + k < w * n,
            1 <= bytes,
            line == w * n * bytes,
    ;
    lemma_row_inside(line, y, h);
}

/// Pixels are read in reading order, whatever the color type. A picture is as
/// wide and as high as its frame. With one byte for each sample, or two of
/// which the first one counts, the pixel in column `x` of row `y`, rows
/// counted from the top, is made from the samples of the frame's pixel in the
/// same place: four samples are red, green, blue and alpha, three are opaque,
/// and one sample of gray is all three colors.
pub proof fn law_pixels_stay_in_place(raw: Raw, p: Picture, x: int, y: int)
    requires
        expanded(raw) == Ok::<Picture, AssetError>(p),
        raw.depth == 8 || raw.depth == 16,
        0 <= x < raw.width,
        0 <= y < raw.height,
    ensures
        p.width == raw.width,
        p.height == raw.height,
        p.data.len() == raw.width * raw.height * 4,
        ({
            let at = y * raw.width + x;
            let step: int = if raw.depth == 8 {
                1
            } else {
                2
            };
            let (d, red, green, blue, alpha) = (
                raw.data,
                p.data[at * 4],
                p.data[at * 4 + 1],
                p.data[at * 4 + 2],
                p.data[at * 4 + 3],
            );
            &&& raw.color == 6 ==> red == d[at * 4 * step] && green == d[(at * 4 + 1) * step]
                && blue == d[(at * 4 + 2) * step] && alpha == d[(at * 4 + 3) * step]
            &&& raw.color == 2 ==> red == d[at * 3 * step] && green == d[(at * 3 + 1) * step]
                && blue == d[(at * 3 + 2) * step] && alpha == 255
            &&& raw.color == 4 ==> red == d[at * 2 * step] && green == red && blue == red && alpha
                == d[(at * 2 + 1) * step]
            &&& raw.color == 0 ==> red == d[at * step] && green == red && blue == red && alpha
                == 255
            &&& raw.color == 6 || raw.color == 2 || raw.color == 4 || raw.color == 0
        }),
{
    let (w, h) = (raw.width as int, raw.height as int);
    let n = samples_of(raw.color)->0;
    let bytes: int = if raw.depth == 8 {
        1
    } else {
        2
    };
    let at = y * w + x;
    lemma_channels(raw, x, y);
    lemma_frame_bytes(raw);
    lemma_whole_samples(w, h, n, bytes, x, y, 0);
    if n >= 2 {
        lemma_whole_samples(w, h, n, bytes, x, y, 1);
    }
    if n >= 3 {
        lemma_whole_samples(w, h, n, bytes, x, y, 2);
    }
    if n >= 4 {
        lemma_whole_samples(w, h, n, bytes, x, y, 3);
    }
    assert(raw.depth as int == 8 * bytes);
    if raw.color == 6 {
        assert(n == 4);
    } else if raw.color == 2 {
        assert(n == 3);
    } else if raw.color == 4 {
        assert(n == 2);
    } else {
        assert(n == 1);
    }
}

/// Gray samples of less than a byte stand next to each other, the leftmost
/// pixel highest, and each row starts with a byte of its own. Black stays
/// black, the largest sample becomes white, and the others lie evenly between
/// them. Every pixel is opaque.
pub proof fn law_packed_gray_stays_in_place(raw: Raw, p: Picture, x: int, y: int)
    requires
        expanded(raw) == Ok::<Picture, AssetError>(p),
        raw.depth < 8,
        0 <= x < raw.width,
        0 <= y < raw.height,
    ensures
        raw.color == 0,
        p.width == raw.width,
        p.height == raw.height,
        p.data.len() == raw.width * raw.height * 4,
        ({
            let at = (y * raw.width + x) * 4;
            let gray = p.data[at] as int;
            &&& p.data[at + 1] == gray && p.data[at + 2] == gray && p.data[at + 3] == 255
            &&& raw.depth == 1 || raw.depth == 2 || raw.depth == 4
            &&& raw.depth == 1 ==> {
                let byte = raw.data[y * ((raw.width + 7) / 8) + x / 8] as int;
                gray == 255 * (byte / power_of_two(7 - x % 8) % 2)
            }
            &&& raw.depth == 2 ==> {
                let byte = raw.data[y * ((raw.width + 3) / 4) + x / 4] as int;
                gray == 85 * (byte / power_of_two(6 - 2 * (x % 4)) % 4)
            }
            &&& raw.depth == 4 ==> {
                let byte = raw.data[y * ((raw.width + 1) / 2) + x / 2] as int;
                gray == 17 * (byte / power_of_two(4 - 4 * (x % 2)) % 16)
            }
        }),
{
    let (w, h) = (raw.width as int, raw.height as int);
    let depth = raw.depth as int;
    lemma_channels(raw, x, y);
    lemma_frame_bytes(raw);
    lemma_sample_inside(w, depth, x);
    let line = row_bytes(w, depth);
    assert(w * 1 == w);
    lemma_row_inside(line, y, h);
    let byte = raw.data[y * line + x * depth / 8];
    assert(frame_bytes(raw)[y * line + x * depth / 8] == byte);
    let shift = 8 - depth - x * depth % 8;
    lemma_spread(byte, depth, x * depth % 8);
    if depth == 1 {
        assert(line == (w + 7) / 8);
    } else if depth == 2 {
        assert(line == (w + 3) / 4);
        assert(x * depth / 8 == x / 4 && x * depth % 8 == 2 * (x % 4));
    } else {
        assert(line == (w + 1) / 2);
        assert(x * depth / 8 == x / 2 && x * depth % 8 == 4 * (x % 2));
    }
}

/// 2 to the power of a number of bits within a byte.
pub open spec fn power_of_two(n: int) -> int {
    if n == 0 {
        1
    } else if n == 1 {
        2
    } else if n == 2 {
        4
    } else if n == 3 {
        8
    } else if n == 4 {
        16
    } else if n == 5 {
        32
    } else if n == 6 {
        64
    } else {
        128
    }
}

/// A spread sample is a digit of the byte, times what makes the largest one
/// 255.
proof fn lemma_spread(byte: u8, depth: int, at: int)
    requires
        depth == 1 || depth == 2 || depth == 4,
        0 <= at,
        at + depth <= 8,
    ensures
        depth == 1 ==> spread(byte, depth, at) == 255 * (byte as int / power_of_two(7 - at) % 2),
        depth == 2 ==> spread(byte, depth, at) == 85 * (byte as int / power_of_two(6 - at) % 4),
        depth == 4 ==> spread(byte, depth, at) == 17 * (byte as int / power_of_two(4 - at) % 16),
{
    let s = (8 - depth - at) as u8;
    let p = power_of_two(s as int) as u8;
    let top = largest(depth);
    let m = (top + 1) as u8;
    assert(0 <= s < 8);
    assert((byte >> s) & top == (byte / p) % m) by (bit_vector)
        requires
            0 <= s < 8,
            s == 0 ==> p == 1,
            s == 1 ==> p == 2,
            s == 2 ==> p == 4,
            s == 3 ==> p == 8,
            s == 4 ==> p == 16,
            s == 5 ==> p == 32,
            s == 6 ==> p == 64,
            s == 7 ==> p == 128,
            (top == 1 && m == 2) || (top == 3 && m == 4) || (top == 15 && m == 16),
    ;
    assert(((byte >> s) & top) <= top) by (bit_vector);
    assert(255int / 1 == 255 && 255int / 3 == 85 && 255int / 15 == 17);
}

/// Bytes beyond the size of a frame make no difference, and neither does a
/// size beyond the bytes.
pub proof fn law_only_the_frame_counts(raw: Raw, more: Seq<u8>)
    requires
        raw.size == raw.data.len(),
    ensures
        expanded(Raw { data: raw.data + more, ..raw }) == expanded(raw),
        forall|size: usize|
            size >= raw.data.len() ==> #[trigger] expanded(Raw { size, ..raw }) == expanded(raw),
{
    assert forall|size: usize| size >= raw.data.len() implies #[trigger] expanded(
        Raw { size, ..raw },
    ) == expanded(raw) by {
        let large = Raw { size, ..raw };
        assert(frame_bytes(large) =~= frame_bytes(raw));
        lemma_same_picture(large, raw);
    }
    let long = Raw { data: raw.data + more, ..raw };
    assert(frame_bytes(long) =~= raw.data);
    assert(frame_bytes(raw) =~= raw.data);
    lemma_same_picture(long, raw);
}

/// Frames with the same pixels show the same.
proof fn lemma_same_picture(r: Raw, s: Raw)
    requires
        frame_bytes(r) == frame_bytes(s),
        r.width == s.width,
        r.height == s.height,
        r.color == s.color,
        r.depth == s.depth,
    ensures
        expanded(r) == expanded(s),
{
    let (a, b) = (unpacked(r), unpacked(s));
    assert forall|j: int| 0 <= j < a.data.len() implies a.data[j] == b.data[j] by {
        let (x, y, c) = (j / 4 % r.width as int, j / 4 / r.width as int, j % 4);
        assert(channel_of(r, x, y, c) == channel_of(s, x, y, c));
    }
    assert(a.data =~= b.data);
}

/// Every complete frame has a picture, and only complete frames have one. The
/// color type is looked at first, then the number of bits, then the size.
pub proof fn law_which_frames_show_something(raw: Raw)
    requires
        raw.size == raw.data.len(),
    ensures
        ({
            let n: int = if raw.color == 6 {
                4
            } else if raw.color == 2 {
                3
            } else if raw.color == 4 {
                2
            } else {
                1
            };
            let known = raw.color == 0 || raw.color == 2 || raw.color == 4 || raw.color == 6;
            let deep = raw.depth == 8 || raw.depth == 16 || (raw.color == 0 && (raw.depth == 1
                || raw.depth == 2 || raw.depth == 4));
            &&& !known <==> expanded(raw) == Err::<Picture, AssetError>(
                AssetError::PngColor(raw.color),
            )
            &&& known && !deep <==> expanded(raw) == Err::<Picture, AssetError>(
                AssetError::PngDepth(raw.depth),
            )
            &&& raw.width * raw.height * 4 <= usize::MAX && known && deep && raw.data.len() == (
            raw.width * n * raw.depth + 7) / 8 * raw.height <==> expanded(raw) is Ok
            &&& known && deep && raw.width * raw.height * 4 > usize::MAX <==> expanded(raw)
                == Err::<Picture, AssetError>(AssetError::Png(PngFault::TooLarge))
            &&& expanded(raw) is Err ==> expanded(raw)->Err_0 is PngColor || expanded(
                raw,
            )->Err_0 is PngDepth || expanded(raw)->Err_0 is PngSize || expanded(raw)->Err_0 is Png
        }),
{
    assert(frame_bytes(raw) =~= raw.data);
    assert(row_bytes(raw.width * 1, raw.depth as int) == (raw.width * 1 * raw.depth + 7) / 8);
}

// ---- the roster -----------------------------------------------------------

/// The drawings that come with the program, one PNG file each.
#[derive(Debug, Clone, Copy, PartialEq, Eq, Structural)]
pub enum Drawing {
    DuckFloat1,
    DuckFloat2,
    Capy1,
    Capy2,
    Capy3,
    Capy4,
    Coconut1,
    Fish1,
    Fish2,
    Fish3,
    Fish4,
    Boat1,
    Boat2,
    Boat3,
    Boat4,
}

/// The bytes of the drawings.
pub struct Art<'a> {
    pub duck_float_1: &'a [u8],
    pub duck_float_2: &'a [u8],
    pub capy_1: &'a [u8],
    pub capy_2: &'a [u8],
    pub capy_3: &'a [u8],
    pub capy_4: &'a [u8],
    pub coconut_1: &'a [u8],
    pub fish_1: &'a [u8],
    pub fish_2: &'a [u8],
    pub fish_3: &'a [u8],
    pub fish_4: &'a [u8],
    pub boat_1: &'a [u8],
    pub boat_2: &'a [u8],
    pub boat_3: &'a [u8],
    pub boat_4: &'a [u8],
}

impl<'a> Art<'a> {
    /// The file of a drawing.
    pub open spec fn spec_file(self, d: Drawing) -> Seq<u8> {
        match d {
            Drawing::DuckFloat1 => self.duck_float_1@,
            Drawing::DuckFloat2 => self.duck_float_2@,
            Drawing::Capy1 => self.capy_1@,
            Drawing::Capy2 => self.capy_2@,
            Drawing::Capy3 => self.capy_3@,
            Drawing::Capy4 => self.capy_4@,
            Drawing::Coconut1 => self.coconut_1@,
            Drawing::Fish1 => self.fish_1@,
            Drawing::Fish2 => self.fish_2@,
            Drawing::Fish3 => self.fish_3@,
            Drawing::Fish4 => self.fish_4@,
            Drawing::Boat1 => self.boat_1@,
            Drawing::Boat2 => self.boat_2@,
            Drawing::Boat3 => self.boat_3@,
            Drawing::Boat4 => self.boat_4@,
        }
    }

    pub fn file(&self, d: Drawing) -> (r: &'a [u8])
        ensures
            r@ == self.spec_file(d),
    {
        match d {
            Drawing::DuckFloat1 => self.duck_float_1,
            Drawing::DuckFloat2 => self.duck_float_2,
            Drawing::Capy1 => self.capy_1,
            Drawing::Capy2 => self.capy_2,
            Drawing::Capy3 => self.capy_3,
            Drawing::Capy4 => self.capy_4,
            Drawing::Coconut1 => self.coconut_1,
            Drawing::Fish1 => self.fish_1,
            Drawing::Fish2 => self.fish_2,
            Drawing::Fish3 => self.fish_3,
            Drawing::Fish4 => self.fish_4,
            Drawing::Boat1 => self.boat_1,
            Drawing::Boat2 => self.boat_2,
            Drawing::Boat3 => self.boat_3,
            Drawing::Boat4 => self.boat_4,
        }
    }
}

/// A built-in character.
#[derive(Debug, Clone, Copy)]
pub struct CharacterInfo {
    pub id: &'static str,
    pub name: &'static str,
    pub look: Look,
}

/// How many built-in characters there are.
pub const ROSTER_LEN: usize = 5;

/// The built-in characters in the order of the tray menu.
pub open spec fn roster_spec() -> Seq<CharacterInfo> {
    seq![
        CharacterInfo {
            id: "duck",
            name: "Duck",
            look: Look {
                fps: Single { bits: 0x3f80_0000 },  // 1.0
                mode: WaterMode::Floater,
                facing: Facing::Right,
                waterline: Single { bits: 0x3f59_999a },  // 0.85
                rock: Single { bits: 0x3d0f_5c29 },  // 0.035
            },
        },
        CharacterInfo {
            id: "capybara",
            name: "Capybara",
            look: Look {
                fps: Single { bits: 0x4000_0000 },  // 2.0
                mode: WaterMode::Floater,
                facing: Facing::Right,
                waterline: Single { bits: 0x3f26_6666 },  // 0.65
                rock: Single { bits: 0x3cf5_c28f },  // 0.03
            },
        },
        CharacterInfo {
            id: "fish",
            name: "Clownfish",
            look: Look {
                fps: Single { bits: 0x40c0_0000 },  // 6.0
                mode: WaterMode::Swimmer,
                facing: Facing::Left,
                waterline: Single { bits: 0x3f80_0000 },  // 1.0
                rock: Single { bits: 0x0000_0000 },  // 0.0
            },
        },
        CharacterInfo {
            id: "coconut",
            name: "Coconut",
            look: Look {
                fps: Single { bits: 0x3f80_0000 },  // 1.0
                mode: WaterMode::Floater,
                facing: Facing::Right,
                waterline: Single { bits: 0x3f38_51ec },  // 0.72
                rock: Single { bits: 0x3df5_c28f },  // 0.12
            },
        },
        CharacterInfo {
            id: "boat",
            name: "Sailboat",
            look: Look {
                fps: Single { bits: 0x40a0_0000 },  // 5.0
                mode: WaterMode::Floater,
                facing: Facing::Right,
                waterline: Single { bits: 0x3f61_47ae },  // 0.88
                rock: Single { bits: 0x3d4c_cccd },  // 0.05
            },
        },
    ]
}

/// The built-in characters in the order of the tray menu.
pub fn roster() -> (r: Vec<CharacterInfo>)
    ensures
        r@ == roster_spec(),
        r.len() == ROSTER_LEN,
{
    let r = vec![
        CharacterInfo {
            id: "duck",
            name: "Duck",
            look: Look {
                fps: Single { bits: 0x3f80_0000 },  // 1.0
                mode: WaterMode::Floater,
                facing: Facing::Right,
                waterline: Single { bits: 0x3f59_999a },  // 0.85
                rock: Single { bits: 0x3d0f_5c29 },  // 0.035
            },
        },
        CharacterInfo {
            id: "capybara",
            name: "Capybara",
            look: Look {
                fps: Single { bits: 0x4000_0000 },  // 2.0
                mode: WaterMode::Floater,
                facing: Facing::Right,
                waterline: Single { bits: 0x3f26_6666 },  // 0.65
                rock: Single { bits: 0x3cf5_c28f },  // 0.03
            },
        },
        CharacterInfo {
            id: "fish",
            name: "Clownfish",
            look: Look {
                fps: Single { bits: 0x40c0_0000 },  // 6.0
                mode: WaterMode::Swimmer,
                facing: Facing::Left,
                waterline: Single { bits: 0x3f80_0000 },  // 1.0
                rock: Single { bits: 0x0000_0000 },  // 0.0
            },
        },
        CharacterInfo {
            id: "coconut",
            name: "Coconut",
            look: Look {
                fps: Single { bits: 0x3f80_0000 },  // 1.0
                mode: WaterMode::Floater,
                facing: Facing::Right,
                waterline: Single { bits: 0x3f38_51ec },  // 0.72
                rock: Single { bits: 0x3df5_c28f },  // 0.12
            },
        },
        CharacterInfo {
            id: "boat",
            name: "Sailboat",
            look: Look {
                fps: Single { bits: 0x40a0_0000 },  // 5.0
                mode: WaterMode::Floater,
                facing: Facing::Right,
                waterline: Single { bits: 0x3f61_47ae },  // 0.88
                rock: Single { bits: 0x3d4c_cccd },  // 0.05
            },
        },
    ];
    assert(r@ =~= roster_spec());
    r
}

/// The drawings that a built-in character shows one after the other. The duck
/// holds its head up for a long stretch and then a small dip, so that each
/// pose lingers.
pub open spec fn drawings_spec(index: int) -> Seq<Drawing> {
    if index == 0 {
        seq![
            Drawing::DuckFloat1,
            Drawing::DuckFloat1,
            Drawing::DuckFloat1,
            Drawing::DuckFloat1,
            Drawing::DuckFloat1,
            Drawing::DuckFloat1,
            Drawing::DuckFloat1,
            Drawing::DuckFloat2,
            Drawing::DuckFloat2,
        ]
    } else if index == 1 {
        seq![Drawing::Capy1, Drawing::Capy2, Drawing::Capy3, Drawing::Capy4]
    } else if index == 2 {
        seq![Drawing::Fish1, Drawing::Fish2, Drawing::Fish3, Drawing::Fish4]
    } else if index == 3 {
        seq![Drawing::Coconut1]
    } else {
        seq![Drawing::Boat1, Drawing::Boat2, Drawing::Boat3, Drawing::Boat4]
    }
}

/// The drawings that the character at `index` of the roster shows.
pub fn drawings(index: usize) -> (r: Vec<Drawing>)
    requires
        index < ROSTER_LEN,
    ensures
        r@ == drawings_spec(index as int),
{
    let r = if index == 0 {
        vec![
            Drawing::DuckFloat1,
            Drawing::DuckFloat1,
            Drawing::DuckFloat1,
            Drawing::DuckFloat1,
            Drawing::DuckFloat1,
            Drawing::DuckFloat1,
            Drawing::DuckFloat1,
            Drawing::DuckFloat2,
            Drawing::DuckFloat2,
        ]
    } else if index == 1 {
        vec![Drawing::Capy1, Drawing::Capy2, Drawing::Capy3, Drawing::Capy4]
    } else if index == 2 {
        vec![Drawing::Fish1, Drawing::Fish2, Drawing::Fish3, Drawing::Fish4]
    } else if index == 3 {
        vec![Drawing::Coconut1]
    } else {
        vec![Drawing::Boat1, Drawing::Boat2, Drawing::Boat3, Drawing::Boat4]
    };
    assert(r@ =~= drawings_spec(index as int));
    r
}

/// The character at `index` of the roster is the first with this id.
pub open spec fn stands_at(id: Seq<char>, index: int) -> bool {
    &&& 0 <= index < roster_spec().len()
    &&& roster_spec()[index].id@ == id
    &&& forall|j: int| 0 <= j < index ==> (#[trigger] roster_spec()[j]).id@ != id
}

/// Finds a built-in character by its id.
pub fn find_character(id: &str) -> (r: Option<usize>)
    ensures
        match r {
            Some(i) => stands_at(id@, i as int),
            None => forall|j: int|
                0 <= j < roster_spec().len() ==> (#[trigger] roster_spec()[j]).id@ != id@,
        },
{
    let all = roster();
    let mut i: usize = 0;
    while i < all.len()
        invariant
            i <= all.len(),
            all@ == roster_spec(),
            forall|j: int| 0 <= j < i ==> (#[trigger] roster_spec()[j]).id@ != id@,
        decreases all.len() - i,
    {
        if text::same(all[i].id, id) {
            return Some(i);
        }
        i = i + 1;
    }
    None
}

/// Every built-in character is found under its id, and none of these ids
/// means the custom or the rotating character.
pub proof fn law_ids_name_characters(i: int)
    requires
        0 <= i < roster_spec().len(),
    ensures
        stands_at(roster_spec()[i].id@, i),
        roster_spec()[i].id@ != "custom"@,
        roster_spec()[i].id@ != "rotate"@,
{
    reveal_strlit("duck");
    reveal_strlit("capybara");
    reveal_strlit("fish");
    reveal_strlit("coconut");
    reveal_strlit("boat");
    reveal_strlit("custom");
    reveal_strlit("rotate");
    assert("duck"@.len() == 4 && "fish"@.len() == 4 && "boat"@.len() == 4);
    assert("duck"@[0] == 'd' && "fish"@[0] == 'f' && "boat"@[0] == 'b');
    assert("capybara"@.len() == 8 && "coconut"@.len() == 7);
    assert("custom"@.len() == 6 && "rotate"@.len() == 6);
    assert(roster_spec()[0].id@ == "duck"@ && roster_spec()[1].id@ == "capybara"@);
    assert(roster_spec()[2].id@ == "fish"@ && roster_spec()[3].id@ == "coconut"@);
    assert(roster_spec()[4].id@ == "boat"@);
    assert(i == 0 || i == 1 || i == 2 || i == 3 || i == 4);
}

/// No two characters share an id, the custom and the rotating one included.
pub proof fn law_ids_are_apart(i: int, j: int)
    requires
        0 <= i < roster_spec().len(),
        0 <= j < roster_spec().len(),
    ensures
        roster_spec()[i].id@ == roster_spec()[j].id@ ==> i == j,
        roster_spec()[i].id@ != "custom"@,
        roster_spec()[i].id@ != "rotate"@,
        "custom"@ != "rotate"@,
{
    law_ids_name_characters(i);
    law_ids_name_characters(j);
    reveal_strlit("duck");
    reveal_strlit("capybara");
    reveal_strlit("fish");
    reveal_strlit("coconut");
    reveal_strlit("boat");
    reveal_strlit("custom");
    reveal_strlit("rotate");
    assert("custom"@[0] == 'c' && "rotate"@[0] == 'r');
    assert("duck"@[0] == 'd' && "fish"@[0] == 'f' && "boat"@[0] == 'b');
    assert("capybara"@.len() == 8 && "coconut"@.len() == 7);
}

// ---- building the atlas ---------------------------------------------------

/// What packing gives, with its errors among those of this module.
pub open spec fn packed_as(
    frames: Seq<Picture>,
    look: Look,
    r: Result<SpriteAtlas, AssetError>,
) -> bool {
    match r {
        Ok(s) => atlas::packed(frames, look, Ok(s)),
        Err(AssetError::Pack(e)) => atlas::packed(frames, look, Err(e)),
        Err(_) => false,
    }
}

fn pack_frames(frames: &Vec<Image>, look: Look) -> (r: Result<SpriteAtlas, AssetError>)
    requires
        atlas::packable(atlas::pictures(frames@)),
    ensures
        packed_as(atlas::pictures(frames@), look, r),
{
    match atlas::pack(frames, look) {
        Ok(s) => Ok(s),
        Err(e) => Err(AssetError::Pack(e)),
    }
}

/// A frame of the custom sprite fits its sheet.
pub open spec fn frame_fits(c: SpriteSettings, sheet: Picture) -> bool {
    &&& c.frame_width != 0
    &&& c.frame_height != 0
    &&& c.frame_width <= sheet.width
    &&& c.frame_height <= sheet.height
}

/// The error for a frame that does not fit its sheet.
pub open spec fn misfit(c: SpriteSettings, sheet: Picture) -> AssetError {
    AssetError::FrameSize {
        frame_width: c.frame_width,
        frame_height: c.frame_height,
        sheet_width: sheet.width as u32,
        sheet_height: sheet.height as u32,
    }
}

/// The frames of a sheet: as many as fit side by side along its top.
pub open spec fn strip(c: SpriteSettings, sheet: Picture) -> Seq<Picture> {
    Seq::new(
        (sheet.width / c.frame_width as int) as nat,
        |i: int|
            sheet.cropped(
                i * c.frame_width,
                0,
                c.frame_width as int,
                c.frame_height as int,
            ),
    )
}

/// The frames of the sheet can be cut out and packed.
pub open spec fn strip_packable(c: SpriteSettings, sheet: Picture) -> bool {
    frame_fits(c, sheet) ==> {
        &&& forall|i: int|
            0 <= i < sheet.width / c.frame_width as int ==> #[trigger] sheet.croppable(
                i * c.frame_width,
                0,
                c.frame_width as int,
                c.frame_height as int,
            )
        &&& atlas::packable(strip(c, sheet))
    }
}

/// How a custom character moves: between half a frame and thirty frames per
/// second. A floater rides like the coconut, partly submerged and swaying
/// visibly, which is the most forgiving look for arbitrary images.
pub open spec fn custom_look(c: SpriteSettings) -> Look {
    let swims = c.mode == "swimmer"@;
    Look {
        fps: c.fps.clamped(Single { bits: 0x3f00_0000 }, Single { bits: 0x41f0_0000 }),
        mode: if swims {
            WaterMode::Swimmer
        } else {
            WaterMode::Floater
        },
        facing: if c.facing == "left"@ {
            Facing::Left
        } else {
            Facing::Right
        },
        waterline: if swims {
            Single { bits: 0x3f80_0000 }  // 1.0

        } else {
            Single { bits: 0x3f38_51ec }  // 0.72

        },
        rock: if swims {
            Single { bits: 0 }
        } else {
            Single { bits: 0x3df5_c28f }  // 0.12

        },
    }
}

fn look_of(c: &CustomSprite) -> (r: Look)
    ensures
        r == custom_look(c@),
{
    let swims = text::same(c.mode.as_str(), "swimmer");
    let left = text::same(c.facing.as_str(), "left");
    Look {
        fps: c.fps.clamp(Single { bits: 0x3f00_0000 }, Single { bits: 0x41f0_0000 }),
        mode: if swims {
            WaterMode::Swimmer
        } else {
            WaterMode::Floater
        },
        facing: if left {
            Facing::Left
        } else {
            Facing::Right
        },
        waterline: if swims {
            Single { bits: 0x3f80_0000 }
        } else {
            Single { bits: 0x3f38_51ec }
        },
        rock: if swims {
            Single { bits: 0 }
        } else {
            Single { bits: 0x3df5_c28f }
        },
    }
}

/// A frame's left edge lies in the sheet.
proof fn lemma_frame_in_strip(i: int, frame: int, width: int)
    requires
        frame > 0,
        0 <= i < width / frame,
    ensures
        0 <= i * frame,
        i * frame + frame <= width,
{
    vstd::arithmetic::div_mod::lemma_fundamental_div_mod(width, frame);
    let q = width / frame;
    assert(i * frame + frame <= frame * q && 0 <= i * frame) by (nonlinear_arith)
        requires
            0 <= i,
            i + 1 <= q,
            frame > 0,
    ;
    vstd::arithmetic::div_mod::lemma_mod_bound(width, frame);
}

/// Cuts the frames out of a sheet.
fn cut_strip(c: &CustomSprite, sheet: &Image) -> (r: Vec<Image>)
    requires
        frame_fits(c@, sheet@),
        forall|i: int|
            0 <= i < sheet.width as int / c.frame_width as int ==> #[trigger] sheet@.croppable(
                i * c.frame_width,
                0,
                c.frame_width as int,
                c.frame_height as int,
            ),
    ensures
        atlas::pictures(r@) == strip(c@, sheet@),
{
    let count: u32 = sheet.width / c.frame_width;
    let mut frames: Vec<Image> = Vec::new();
    let mut i: u32 = 0;
    while i < count
        invariant
            i <= count,
            count == sheet.width as int / c.frame_width as int,
            frame_fits(c@, sheet@),
            forall|k: int|
                0 <= k < sheet.width as int / c.frame_width as int ==> #[trigger] sheet@.croppable(
                    k * c.frame_width,
                    0,
                    c.frame_width as int,
                    c.frame_height as int,
                ),
            frames.len() == i,
            forall|k: int|
                0 <= k < i ==> (#[trigger] frames[k])@ == sheet@.cropped(
                    k * c.frame_width,
                    0,
                    c.frame_width as int,
                    c.frame_height as int,
                ),
        decreases count - i,
    {
        proof {
            lemma_frame_in_strip(i as int, c.frame_width as int, sheet.width as int);
            assert(sheet@.croppable(
                i * c.frame_width,
                0,
                c.frame_width as int,
                c.frame_height as int,
            ));
        }
        match sheet.crop(i * c.frame_width, 0, c.frame_width, c.frame_height) {
            Ok(frame) => {
                frames.push(frame);
            },
            Err(_) => {
                assert(false);
            },
        }
        i = i + 1;
    }
    assert(atlas::pictures(frames@) =~= strip(c@, sheet@));
    frames
}

/// Whether [`build_custom`] may be asked for this sheet.
pub fn can_build_custom(c: &CustomSprite, sheet: &Image) -> (r: bool)
    ensures
        r == strip_packable(c@, sheet@),
{
    if c.frame_width == 0 || c.frame_height == 0 || c.frame_width > sheet.width || c.frame_height
        > sheet.height {
        return true;
    }
    let count: u32 = sheet.width / c.frame_width;
    let mut i: u32 = 0;
    while i < count
        invariant
            i <= count,
            count == sheet.width as int / c.frame_width as int,
            frame_fits(c@, sheet@),
            forall|k: int|
                0 <= k < i ==> #[trigger] sheet@.croppable(
                    k * c.frame_width,
                    0,
                    c.frame_width as int,
                    c.frame_height as int,
                ),
        decreases count - i,
    {
        proof {
            lemma_frame_in_strip(i as int, c.frame_width as int, sheet.width as int);
        }
        if !sheet.can_crop(i * c.frame_width, 0, c.frame_width, c.frame_height) {
            assert(!sheet@.croppable(
                i * c.frame_width,
                0,
                c.frame_width as int,
                c.frame_height as int,
            ));
            return false;
        }
        i = i + 1;
    }
    let frames = cut_strip(c, sheet);
    atlas::can_pack(&frames)
}

/// Builds the atlas of a custom character from its sheet.
pub fn build_custom(c: &CustomSprite, sheet: &Image) -> (r: Result<SpriteAtlas, AssetError>)
    requires
        strip_packable(c@, sheet@),
    ensures
        if frame_fits(c@, sheet@) {
            packed_as(strip(c@, sheet@), custom_look(c@), r)
        } else {
            r == Err::<SpriteAtlas, AssetError>(misfit(c@, sheet@))
        },
{
    if c.frame_width == 0 || c.frame_height == 0 || c.frame_width > sheet.width || c.frame_height
        > sheet.height {
        return Err(
            AssetError::FrameSize {
                frame_width: c.frame_width,
                frame_height: c.frame_height,
                sheet_width: sheet.width,
                sheet_height: sheet.height,
            },
        );
    }
    let frames = cut_strip(c, sheet);
    pack_frames(&frames, look_of(c))
}

/// What PNG files show, or the error of the first that shows nothing.
pub open spec fn all_shown_by(files: Seq<Seq<u8>>) -> Result<Seq<Picture>, AssetError>
    decreases files.len(),
{
    if files.len() == 0 {
        Ok(Seq::empty())
    } else {
        match all_shown_by(files.drop_last()) {
            Err(e) => Err(e),
            Ok(before) => match shown_by(files.last()) {
                Err(e) => Err(e),
                Ok(p) => Ok(before.push(p)),
            },
        }
    }
}

/// The files of the drawings that a built-in character shows.
pub open spec fn files_of(art: Art<'_>, index: int) -> Seq<Seq<u8>> {
    Seq::new(drawings_spec(index).len(), |i: int| art.spec_file(drawings_spec(index)[i]))
}

/// An error in a shorter list of files is the error of the longer one.
proof fn lemma_error_stays(files: Seq<Seq<u8>>, n: int, e: AssetError)
    requires
        0 <= n <= files.len(),
        all_shown_by(files.take(n)) == Err::<Seq<Picture>, AssetError>(e),
    ensures
        all_shown_by(files) == Err::<Seq<Picture>, AssetError>(e),
    decreases files.len(),
{
    if n == files.len() {
        assert(files.take(n) =~= files);
    } else {
        assert(files.drop_last().take(n) =~= files.take(n));
        lemma_error_stays(files.drop_last(), n, e);
    }
}

/// Reads the drawings of a built-in character.
pub fn decode_drawings(art: &Art<'_>, index: usize) -> (r: Result<Vec<Image>, AssetError>)
    requires
        index < ROSTER_LEN,
    ensures
        match r {
            Ok(images) => all_shown_by(files_of(*art, index as int)) == Ok::<
                Seq<Picture>,
                AssetError,
            >(atlas::pictures(images@)),
            Err(e) => all_shown_by(files_of(*art, index as int)) == Err::<Seq<Picture>, AssetError>(
                e,
            ),
        },
{
    let list = drawings(index);
    let ghost files = files_of(*art, index as int);
    let mut images: Vec<Image> = Vec::new();
    let mut i: usize = 0;
    assert(atlas::pictures(images@) =~= Seq::<Picture>::empty());
    while i < list.len()
        invariant
            i <= list.len(),
            list@ == drawings_spec(index as int),
            files == files_of(*art, index as int),
            all_shown_by(files.take(i as int)) == Ok::<Seq<Picture>, AssetError>(
                atlas::pictures(images@),
            ),
        decreases list.len() - i,
    {
        proof {
            assert(files.take(i + 1).drop_last() =~= files.take(i as int));
            assert(files.take(i + 1).last() == art.spec_file(list[i as int]));
        }
        match decode_png(art.file(list[i])) {
            Ok(image) => {
                let ghost before = atlas::pictures(images@);
                images.push(image);
                assert(atlas::pictures(images@) =~= before.push(image@));
            },
            Err(e) => {
                proof {
                    lemma_error_stays(files, i + 1, e);
                }
                return Err(e);
            },
        }
        i = i + 1;
    }
    assert(files.take(list.len() as int) =~= files);
    Ok(images)
}

/// The frames and the look of the character that the settings ask for.
/// `sheet` is the file of the custom sprite, if it could be read.
pub open spec fn frames_for(cfg: Settings, art: Art<'_>, sheet: Option<Seq<u8>>) -> Result<
    (Seq<Picture>, Look),
    AssetError,
> {
    if cfg.character == "custom"@ {
        match (cfg.custom_sprite, sheet) {
            (None, _) => Err(AssetError::NotConfigured),
            (Some(_), None) => Err(AssetError::Unreadable),
            (Some(c), Some(bytes)) => match shown_by(bytes) {
                Err(e) => Err(e),
                Ok(p) => if frame_fits(c, p) {
                    Ok((strip(c, p), custom_look(c)))
                } else {
                    Err(misfit(c, p))
                },
            },
        }
    } else if exists|i: int| stands_at(cfg.character, i) {
        let i = choose|i: int| stands_at(cfg.character, i);
        match all_shown_by(files_of(art, i)) {
            Err(e) => Err(e),
            Ok(frames) => Ok((frames, roster_spec()[i].look)),
        }
    } else {
        Err(AssetError::UnknownCharacter)
    }
}

/// The pictures of the character that the settings ask for can be cut and
/// packed, as far as there are any.
pub open spec fn feasible(cfg: Settings, art: Art<'_>, sheet: Option<Seq<u8>>) -> bool {
    if cfg.character == "custom"@ {
        match (cfg.custom_sprite, sheet) {
            (Some(c), Some(bytes)) => shown_by(bytes) is Ok ==> strip_packable(
                c,
                shown_by(bytes)->Ok_0,
            ),
            _ => true,
        }
    } else {
        match frames_for(cfg, art, sheet) {
            Ok((frames, _)) => atlas::packable(frames),
            Err(_) => true,
        }
    }
}

/// There is something wrong with the character that the settings ask for.
pub open spec fn faulty(cfg: Settings, art: Art<'_>, sheet: Option<Seq<u8>>) -> bool {
    match frames_for(cfg, art, sheet) {
        Ok((frames, _)) => frames.len() == 0 || atlas::all_blank(frames),
        Err(_) => true,
    }
}

/// `r` is what building the atlas of the character gives that the settings
/// ask for: the packed frames, or why there are none. Nothing comes back for
/// pictures that cannot be cut and packed.
pub open spec fn built_for(
    cfg: Settings,
    art: Art<'_>,
    sheet: Option<Seq<u8>>,
    r: Option<Result<SpriteAtlas, AssetError>>,
) -> bool {
    match r {
        None => !feasible(cfg, art, sheet),
        Some(built) => feasible(cfg, art, sheet) && match frames_for(cfg, art, sheet) {
            Ok((frames, look)) => packed_as(frames, look, built),
            Err(e) => built == Err::<SpriteAtlas, AssetError>(e),
        },
    }
}

/// Builds the atlas of the character that the settings ask for. `sheet` is
/// the file of the custom sprite, if it could be read. Nothing comes back for
/// pictures whose pixel data is too short or too large to be packed.
pub fn build_atlas(cfg: &Config, art: &Art<'_>, sheet: Option<&[u8]>) -> (r: Option<
    Result<SpriteAtlas, AssetError>,
>)
    ensures
        built_for(
            cfg@,
            *art,
            match sheet {
                Some(b) => Some(b@),
                None => None,
            },
            r,
        ),
{
    if text::same(cfg.character.as_str(), "custom") {
        let c = match &cfg.custom_sprite {
            Some(c) => c,
            None => {
                return Some(Err(AssetError::NotConfigured));
            },
        };
        let bytes = match sheet {
            Some(b) => b,
            None => {
                return Some(Err(AssetError::Unreadable));
            },
        };
        let image = match decode_png(bytes) {
            Ok(image) => image,
            Err(e) => {
                return Some(Err(e));
            },
        };
        if !can_build_custom(c, &image) {
            return None;
        }
        return Some(build_custom(c, &image));
    }
    let index = match find_character(cfg.character.as_str()) {
        Some(i) => i,
        None => {
            return Some(Err(AssetError::UnknownCharacter));
        },
    };
    proof {
        let i = choose|i: int| stands_at(cfg@.character, i);
        assert(stands_at(cfg@.character, index as int));
        assert(i == index);
    }
    let frames = match decode_drawings(art, index) {
        Ok(frames) => frames,
        Err(e) => {
            return Some(Err(e));
        },
    };
    if !atlas::can_pack(&frames) {
        return None;
    }
    let all = roster();
    Some(pack_frames(&frames, all[index].look))
}

// ---- laws of characters ---------------------------------------------------

/// The frames of a sheet stand side by side along its top, and there are as
/// many as fit. Each has the entry's frame size, and its pixels are those of
/// the sheet, frame `i` beginning `i` frames from the left.
pub proof fn law_frames_of_a_sheet(
    c: SpriteSettings,
    sheet: Picture,
    i: int,
    u: int,
    v: int,
    channel: int,
)
    requires
        c.frame_width > 0,
        sheet.width >= 0,
        0 <= i < strip(c, sheet).len(),
        0 <= u < c.frame_width,
        0 <= v < c.frame_height,
        0 <= channel < 4,
    ensures
        strip(c, sheet).len() * c.frame_width <= sheet.width,
        sheet.width < (strip(c, sheet).len() + 1) * c.frame_width,
        strip(c, sheet)[i].width == c.frame_width,
        strip(c, sheet)[i].height == c.frame_height,
        strip(c, sheet)[i].data[(v * c.frame_width + u) * 4 + channel] == sheet.data[(v
            * sheet.width + i * c.frame_width + u) * 4 + channel],
{
    let fw = c.frame_width as int;
    let n = sheet.width / fw;
    vstd::arithmetic::div_mod::lemma_fundamental_div_mod(sheet.width, fw);
    vstd::arithmetic::div_mod::lemma_div_pos_is_pos(sheet.width, fw);
    assert(fw * n == n * fw) by (nonlinear_arith);
    assert((n + 1) * fw == n * fw + fw) by (nonlinear_arith);
    image::law_cropping_keeps_pixels(
        sheet,
        i * fw,
        0,
        fw,
        c.frame_height as int,
        u,
        v,
        channel,
    );
    assert(strip(c, sheet)[i] == sheet.cropped(i * fw, 0, fw, c.frame_height as int));
    assert(((0 + v) * sheet.width + i * fw + u) * 4 == (v * sheet.width + i * fw + u) * 4);
}

/// A frame fits its sheet exactly if it has pixels and is in neither
/// direction larger; then the sheet has a frame. The error for one that does
/// not fit tells both sizes.
pub proof fn law_frame_fits(c: SpriteSettings, sheet: Picture)
    requires
        0 <= sheet.width <= u32::MAX,
        0 <= sheet.height <= u32::MAX,
    ensures
        frame_fits(c, sheet) <==> 1 <= c.frame_width <= sheet.width && 1 <= c.frame_height
            <= sheet.height,
        frame_fits(c, sheet) ==> strip(c, sheet).len() >= 1,
        misfit(c, sheet) matches AssetError::FrameSize {
            frame_width,
            frame_height,
            sheet_width,
            sheet_height,
        } && frame_width == c.frame_width && frame_height == c.frame_height && sheet_width
            == sheet.width && sheet_height == sheet.height,
{
    if frame_fits(c, sheet) {
        let (w, fw) = (sheet.width, c.frame_width as int);
        assert(w / fw >= 1) by (nonlinear_arith)
            requires
                1 <= fw <= w,
        ;
    }
}

/// A custom character swims exactly if its mode says so, and then lies in the
/// water as the built-in swimmer does; any other mode floats, like the
/// coconut. It faces left exactly if it says so. Its speed is the entry's
/// within its limits, and none of these depends on another.
pub proof fn law_custom_look(c: SpriteSettings)
    ensures
        ({
            let look = custom_look(c);
            let (fish, coconut) = (roster_spec()[2].look, roster_spec()[3].look);
            &&& c.mode == "swimmer"@ ==> look.mode == fish.mode && look.waterline == fish.waterline
                && look.rock == fish.rock
            &&& c.mode != "swimmer"@ ==> look.mode == coconut.mode && look.waterline
                == coconut.waterline && look.rock == coconut.rock
            &&& look.mode is Swimmer <==> c.mode == "swimmer"@
            &&& look.facing is Left <==> c.facing == "left"@
            &&& c.fps.lt(Single { bits: 0x3f00_0000 }) ==> look.fps.bits == 0x3f00_0000
            &&& (Single { bits: 0x41f0_0000 }).lt(c.fps) ==> look.fps.bits == 0x41f0_0000
            &&& !c.fps.lt(Single { bits: 0x3f00_0000 }) && !(Single { bits: 0x41f0_0000 }).lt(
                c.fps,
            ) ==> look.fps == c.fps
        }),
{
}

/// A list of files is read if every file is, into one picture each and in
/// order. Else the error is that of the first file that is not read.
pub proof fn law_files_are_read_in_order(files: Seq<Seq<u8>>, i: int)
    ensures
        all_shown_by(files) matches Ok(frames) ==> frames.len() == files.len() && (0 <= i
            < files.len() ==> shown_by(files[i]) == Ok::<Picture, AssetError>(frames[i])),
        0 <= i < files.len() && shown_by(files[i]) is Err && (forall|j: int|
            0 <= j < i ==> shown_by(#[trigger] files[j]) is Ok) ==> all_shown_by(files) == Err::<
            Seq<Picture>,
            AssetError,
        >(shown_by(files[i])->Err_0),
        (forall|j: int| 0 <= j < files.len() ==> shown_by(#[trigger] files[j]) is Ok)
            ==> all_shown_by(files) is Ok,
    decreases files.len(),
{
    if files.len() > 0 {
        let front = files.drop_last();
        law_files_are_read_in_order(front, i);
        if 0 <= i < front.len() {
            assert(files[i] == front[i]);
        }
        if forall|j: int| 0 <= j < files.len() ==> shown_by(#[trigger] files[j]) is Ok {
            assert forall|j: int| 0 <= j < front.len() implies shown_by(#[trigger] front[j]) is Ok by {
                assert(files[j] == front[j]);
            }
        }
        if 0 <= i < files.len() && forall|j: int|
            0 <= j < i ==> shown_by(#[trigger] files[j]) is Ok {
            if i < front.len() {
                assert forall|j: int| 0 <= j < i implies shown_by(#[trigger] front[j]) is Ok by {
                    assert(files[j] == front[j]);
                }
            } else {
                assert forall|j: int| 0 <= j < front.len() implies shown_by(
                    #[trigger] front[j],
                ) is Ok by {
                    assert(files[j] == front[j]);
                }
            }
        }
    }
}

/// A PNG file that cannot be decoded shows nothing, for the reason that the
/// decoder has; one that can be shows what its first frame does.
pub proof fn law_what_a_file_shows(bytes: Seq<u8>)
    ensures
        png_file::first_frame_of(bytes, usize::MAX as nat) matches Err(fault) ==> shown_by(bytes)
            == Err::<Picture, AssetError>(AssetError::Png(fault)),
        png_file::first_frame_of(bytes, usize::MAX as nat) matches Ok(raw) ==> shown_by(bytes)
            == expanded(raw),
{
}

/// Which character is built is a matter of its id, and of the custom sprite
/// for the custom one: other settings make no difference. A built-in
/// character needs no sheet, and the custom one none of the drawings.
pub proof fn law_what_a_character_is_built_from(
    a: Settings,
    b: Settings,
    art: Art<'_>,
    other: Art<'_>,
    sheet: Option<Seq<u8>>,
    sheet2: Option<Seq<u8>>,
)
    requires
        a.character == b.character,
    ensures
        a.custom_sprite == b.custom_sprite ==> frames_for(a, art, sheet) == frames_for(
            b,
            art,
            sheet,
        ) && feasible(a, art, sheet) == feasible(b, art, sheet),
        a.character != "custom"@ ==> frames_for(a, art, sheet) == frames_for(b, art, sheet2)
            && feasible(a, art, sheet) == feasible(b, art, sheet2),
        a.character == "custom"@ && a.custom_sprite == b.custom_sprite ==> frames_for(a, art, sheet)
            == frames_for(b, other, sheet) && feasible(a, art, sheet) == feasible(b, other, sheet),
{
}

/// A built-in character shows its drawings in order, and looks as the roster
/// says. If one of its files cannot be read, that is what is wrong with it.
pub proof fn law_built_in_characters(cfg: Settings, art: Art<'_>, sheet: Option<Seq<u8>>, i: int)
    requires
        0 <= i < roster_spec().len(),
        cfg.character == roster_spec()[i].id@,
    ensures
        frames_for(cfg, art, sheet) matches Ok((frames, look)) ==> look == roster_spec()[i].look
            && all_shown_by(files_of(art, i)) == Ok::<Seq<Picture>, AssetError>(frames)
            && frames.len() == drawings_spec(i).len() && forall|k: int|
            0 <= k < frames.len() ==> shown_by(art.spec_file(drawings_spec(i)[k])) == Ok::<
                Picture,
                AssetError,
            >(#[trigger] frames[k]),
        frames_for(cfg, art, sheet) matches Err(e) ==> all_shown_by(files_of(art, i)) == Err::<
            Seq<Picture>,
            AssetError,
        >(e),
{
    law_ids_are_apart(i, i);
    law_ids_name_characters(i);
    let j = choose|j: int| stands_at(cfg.character, j);
    assert(stands_at(cfg.character, i));
    law_ids_are_apart(i, j);
    if let Ok((frames, look)) = frames_for(cfg, art, sheet) {
        law_files_are_read_in_order(files_of(art, i), 0);
        assert forall|k: int| 0 <= k < frames.len() implies shown_by(
            art.spec_file(drawings_spec(i)[k]),
        ) == Ok::<Picture, AssetError>(#[trigger] frames[k]) by {
            law_files_are_read_in_order(files_of(art, i), k);
            assert(files_of(art, i)[k] == art.spec_file(drawings_spec(i)[k]));
        }
    }
}

/// The custom character is the strip of its sheet with its own look. It needs
/// an entry first, then a file, then a picture in it, then frames that fit.
pub proof fn law_custom_character(cfg: Settings, art: Art<'_>, sheet: Option<Seq<u8>>)
    requires
        cfg.character == "custom"@,
    ensures
        cfg.custom_sprite is None ==> frames_for(cfg, art, sheet) == Err::<
            (Seq<Picture>, Look),
            AssetError,
        >(AssetError::NotConfigured),
        cfg.custom_sprite is Some && sheet is None ==> frames_for(cfg, art, sheet) == Err::<
            (Seq<Picture>, Look),
            AssetError,
        >(AssetError::Unreadable),
        cfg.custom_sprite is Some && sheet is Some ==> {
            let c = cfg.custom_sprite->0;
            match shown_by(sheet->0) {
                Err(e) => frames_for(cfg, art, sheet) == Err::<(Seq<Picture>, Look), AssetError>(e),
                Ok(p) => {
                    let good = c.frame_width > 0 && c.frame_height > 0 && c.frame_width <= p.width
                        && c.frame_height <= p.height;
                    &&& good ==> frames_for(cfg, art, sheet) == Ok::<
                        (Seq<Picture>, Look),
                        AssetError,
                    >((strip(c, p), custom_look(c)))
                    &&& !good ==> frames_for(cfg, art, sheet) == Err::<
                        (Seq<Picture>, Look),
                        AssetError,
                    >(misfit(c, p))
                },
            }
        },
{
}

/// Every other id is unknown.
pub proof fn law_unknown_characters(cfg: Settings, art: Art<'_>, sheet: Option<Seq<u8>>)
    requires
        cfg.character != "custom"@,
        forall|i: int|
            0 <= i < roster_spec().len() ==> (#[trigger] roster_spec()[i]).id@ != cfg.character,
    ensures
        frames_for(cfg, art, sheet) == Err::<(Seq<Picture>, Look), AssetError>(
            AssetError::UnknownCharacter,
        ),
        faulty(cfg, art, sheet),
        feasible(cfg, art, sheet),
{
}

/// A character that can be built is built: there is an atlas of its frames
/// unless there is something wrong with it, and then there is an error.
pub proof fn law_built_unless_faulty(
    cfg: Settings,
    art: Art<'_>,
    sheet: Option<Seq<u8>>,
    r: Option<Result<SpriteAtlas, AssetError>>,
)
    requires
        built_for(cfg, art, sheet, r),
    ensures
        r is None <==> !feasible(cfg, art, sheet),
        r matches Some(built) ==> (built is Err <==> faulty(cfg, art, sheet)),
        r matches Some(Ok(s)) ==> (frames_for(cfg, art, sheet) matches Ok((frames, look))
            && atlas::packed(frames, look, Ok(s))),
        frames_for(cfg, art, sheet) matches Err(e) ==> (r matches Some(built) ==> built == Err::<
            SpriteAtlas,
            AssetError,
        >(e)),
        frames_for(cfg, art, sheet) matches Ok((frames, look)) ==> (r matches Some(Err(e))
            ==> if frames.len() == 0 {
            e == AssetError::Pack(PackError::NoFrames)
        } else {
            e == AssetError::Pack(PackError::FullyTransparent)
        }),
{
    if let Some(built) = r {
        if let Ok((frames, look)) = frames_for(cfg, art, sheet) {
            if built is Ok {
                atlas::law_what_can_be_packed(frames, look, Ok(built->Ok_0));
                let s = built->Ok_0;
                let a = choose|a: image::Area| #[trigger]
                    atlas::tight_over(frames, a) && atlas::atlas_of(frames, a, look, s);
                let (i, x, y) = choose|i: int, x: int, y: int| #[trigger]
                    atlas::shown(frames, i, x, y) && x == a.x;
                assert(atlas::shown(frames, i, x, y));
            }
        }
    }
}

/// What a complete frame shows is complete.
proof fn lemma_shown_is_complete(bytes: Seq<u8>)
    ensures
        shown_by(bytes) matches Ok(p) ==> p.width >= 0 && p.height >= 0 && p.data.len() == p.width
            * p.height * 4,
{
    if let Ok(raw) = png_file::first_frame_of(bytes, usize::MAX as nat) {
        image::lemma_product(raw.width as int, raw.height as int);
    }
}

/// An ordinary sheet can be cut and packed: a file that shows a picture whose
/// bytes, and those of the atlas of its frames, 32 bits can count is never
/// passed over.
pub proof fn law_ordinary_sheets_can_be_packed(cfg: Settings, art: Art<'_>, bytes: Seq<u8>)
    requires
        cfg.character == "custom"@,
        cfg.custom_sprite is Some,
        shown_by(bytes) is Ok,
        shown_by(bytes)->Ok_0.width * shown_by(bytes)->Ok_0.height * 4 <= u32::MAX,
        shown_by(bytes)->Ok_0.width < u32::MAX,
        shown_by(bytes)->Ok_0.height < u32::MAX,
        ({
            let (c, p) = (cfg.custom_sprite->0, shown_by(bytes)->Ok_0);
            frame_fits(c, p) ==> (strip(c, p).len() * (c.frame_width + 1) + 1) * (c.frame_height
                + 2) * 4 <= u32::MAX
        }),
    ensures
        feasible(cfg, art, Some(bytes)),
{
    let (c, p) = (cfg.custom_sprite->0, shown_by(bytes)->Ok_0);
    lemma_shown_is_complete(bytes);
    if frame_fits(c, p) {
        let (fw, fh) = (c.frame_width as int, c.frame_height as int);
        let frames = strip(c, p);
        assert forall|i: int| 0 <= i < frames.len() implies (#[trigger] frames[i]).width == fw
            && frames[i].height == fh && frames[i].data.len() == fw * fh * 4 by {
            assert(0 <= fw * fh) by (nonlinear_arith)
                requires
                    fw >= 0,
                    fh >= 0,
            ;
        }
        atlas::law_ordinary_frames_can_be_packed(frames, fw, fh);
        vstd::arithmetic::div_mod::lemma_fundamental_div_mod(p.width, fw);
        let n = p.width / fw;
        assert forall|i: int| 0 <= i < n implies #[trigger] p.croppable(i * fw, 0, fw, fh) by {
            assert(i * fw + fw <= n * fw) by (nonlinear_arith)
                requires
                    i < n,
                    fw > 0,
            ;
            assert(0 <= i * fw) by (nonlinear_arith)
                requires
                    0 <= i,
                    fw > 0,
            ;
            assert(fw * n == n * fw) by (nonlinear_arith);
            assert(fw * fh * 4 <= p.width * p.height * 4) by (nonlinear_arith)
                requires
                    0 < fw <= p.width,
                    0 < fh <= p.height,
            ;
            let right = i * fw + fw;
            assert(((fh - 1) * p.width + right) * 4 <= p.width * p.height * 4) by (nonlinear_arith)
                requires
                    1 <= fh <= p.height,
                    0 <= right <= p.width,
            ;
            assert(p.offset(i * fw, 0 + fh - 1) <= p.offset(right, 0 + fh - 1));
        }
    }
}

/// Each drawing is read from the file of its name, and so no two of them from
/// one file.
pub proof fn law_each_drawing_has_its_file(art: Art<'_>)
    ensures
        art.spec_file(Drawing::DuckFloat1) == art.duck_float_1@,
        art.spec_file(Drawing::DuckFloat2) == art.duck_float_2@,
        art.spec_file(Drawing::Capy1) == art.capy_1@,
        art.spec_file(Drawing::Capy2) == art.capy_2@,
        art.spec_file(Drawing::Capy3) == art.capy_3@,
        art.spec_file(Drawing::Capy4) == art.capy_4@,
        art.spec_file(Drawing::Coconut1) == art.coconut_1@,
        art.spec_file(Drawing::Fish1) == art.fish_1@,
        art.spec_file(Drawing::Fish2) == art.fish_2@,
        art.spec_file(Drawing::Fish3) == art.fish_3@,
        art.spec_file(Drawing::Fish4) == art.fish_4@,
        art.spec_file(Drawing::Boat1) == art.boat_1@,
        art.spec_file(Drawing::Boat2) == art.boat_2@,
        art.spec_file(Drawing::Boat3) == art.boat_3@,
        art.spec_file(Drawing::Boat4) == art.boat_4@,
{
}

/// No two characters share a drawing, and each has one.
pub proof fn law_drawings_belong_to_one_character(i: int, j: int, k: int, l: int)
    requires
        0 <= i < roster_spec().len(),
        0 <= j < roster_spec().len(),
        0 <= k < drawings_spec(i).len(),
        0 <= l < drawings_spec(j).len(),
        drawings_spec(i)[k] == drawings_spec(j)[l],
    ensures
        i == j,
{
}

/// Pictures are passed over only where they are out of the ordinary: what is
/// wrong with a character is always reported, and so is the atlas of a
/// built-in one whose pictures are complete, of one size and together not
/// larger than 32 bits can count.
pub proof fn law_little_is_passed_over(
    cfg: Settings,
    art: Art<'_>,
    sheet: Option<Seq<u8>>,
    w: int,
    h: int,
)
    requires
        w >= 0,
        h >= 0,
    ensures
        frames_for(cfg, art, sheet) is Err ==> feasible(cfg, art, sheet),
        cfg.character != "custom"@ ==> (frames_for(cfg, art, sheet) matches Ok((frames, look)) ==> (
        forall|i: int|
            0 <= i < frames.len() ==> (#[trigger] frames[i]).width == w && frames[i].height == h
                && frames[i].data.len() == w * h * 4) && (frames.len() * (w + 1) + 1) * (h + 2) * 4
            <= u32::MAX ==> feasible(cfg, art, sheet)),
{
    if let Ok((frames, look)) = frames_for(cfg, art, sheet) {
        if (forall|i: int|
            0 <= i < frames.len() ==> (#[trigger] frames[i]).width == w && frames[i].height == h
                && frames[i].data.len() == w * h * 4) && (frames.len() * (w + 1) + 1) * (h + 2) * 4
            <= u32::MAX {
            atlas::law_ordinary_frames_can_be_packed(frames, w, h);
        }
    }
}

} // verus!
