//! Packing a character's frames into one texture atlas.
//!
//! All frames are trimmed to the one area that holds everything visible in
//! any of them, so every frame keeps the same anchor. They stand side by side
//! with a transparent line of one pixel around each, which keeps bilinear
//! sampling from bleeding between frames, and their colors are multiplied by
//! their alpha.

use vstd::prelude::*;

use crate::image;
use crate::image::{Area, Image, Picture};
use crate::single::Single;

verus! {

/// The direction the art faces.
#[derive(Debug, Clone, Copy, PartialEq, Eq, Structural)]
pub enum Facing {
    Left,
    Right,
}

#[derive(Debug, Clone, Copy, PartialEq, Eq, Structural)]
pub enum WaterMode {
    /// Rides on the surface with a reflection below.
    Floater,
    /// Glides just under the surface, tinted by the water.
    Swimmer,
}

/// How a character moves and sits in the water.
#[derive(Debug, Clone, Copy, PartialEq, Eq, Structural)]
pub struct Look {
    /// Animation speed in frames per second.
    pub fps: Single,
    pub mode: WaterMode,
    pub facing: Facing,
    /// Where the water surface crosses the frame, 0 at its top, 1 at its bottom.
    pub waterline: Single,
    /// Idle rocking amplitude in radians.
    pub rock: Single,
}

/// Why frames cannot be packed.
#[derive(Debug, Clone, Copy, PartialEq, Eq, Structural)]
pub enum PackError {
    NoFrames,
    FullyTransparent,
}

/// A character's frames in one premultiplied RGBA atlas.
pub struct SpriteAtlas {
    pub pixels: Vec<u8>,
    pub width: u32,
    pub height: u32,
    /// Where each frame of the animation stands in the atlas, in pixels.
    pub frames: Vec<Area>,
    /// The size that all frames share.
    pub frame_w: u32,
    pub frame_h: u32,
    pub fps: Single,
    pub mode: WaterMode,
    pub facing: Facing,
    pub waterline: Single,
    pub rock: Single,
}

/// What each frame shows.
pub open spec fn pictures(frames: Seq<Image>) -> Seq<Picture> {
    Seq::new(frames.len(), |i: int| frames[i]@)
}

/// A visible pixel of frame `i`.
pub open spec fn shown(frames: Seq<Picture>, i: int, x: int, y: int) -> bool {
    0 <= i < frames.len() && frames[i].visible(x, y)
}

/// No frame has a visible pixel.
pub open spec fn all_blank(frames: Seq<Picture>) -> bool {
    forall|i: int, x: int, y: int| !#[trigger] shown(frames, i, x, y)
}

/// `a` is the smallest area that holds every visible pixel of every frame.
pub open spec fn tight_over(frames: Seq<Picture>, a: Area) -> bool {
    &&& forall|i: int, x: int, y: int| #[trigger] shown(frames, i, x, y) ==> a.has(x, y)
    &&& exists|i: int, x: int, y: int| #[trigger] shown(frames, i, x, y) && x == a.x
    &&& exists|i: int, x: int, y: int| #[trigger] shown(frames, i, x, y) && x == a.x + a.w - 1
    &&& exists|i: int, x: int, y: int| #[trigger] shown(frames, i, x, y) && y == a.y
    &&& exists|i: int, x: int, y: int| #[trigger] shown(frames, i, x, y) && y == a.y + a.h - 1
}

/// Width of the atlas for `n` frames of area `a`.
pub open spec fn atlas_width(n: int, a: Area) -> int {
    n * (a.w + 1) + 1
}

/// Height of the atlas.
pub open spec fn atlas_height(a: Area) -> int {
    a.h + 2
}

/// The trimmed area can be read from frame `p`.
pub open spec fn readable(p: Picture, a: Area) -> bool {
    &&& p.offset(a.x + a.w, a.y + a.h - 1) <= p.data.len()
    &&& p.offset(a.x + a.w, a.y + a.h - 1) <= 0x1_0000_0000
}

/// The atlas size fits 32 bits and every frame has the trimmed area.
pub open spec fn fits(frames: Seq<Picture>, a: Area) -> bool {
    &&& frames.len() <= u32::MAX
    &&& atlas_width(frames.len() as int, a) * atlas_height(a) * 4 <= u32::MAX
    &&& forall|i: int| 0 <= i < frames.len() ==> readable(#[trigger] frames[i], a)
}

/// The frames can be packed without running past 32 bits or past a frame.
pub open spec fn packable(frames: Seq<Picture>) -> bool {
    &&& forall|i: int| 0 <= i < frames.len() ==> (#[trigger] frames[i]).sound()
    &&& forall|a: Area| #[trigger] tight_over(frames, a) ==> fits(frames, a)
}

/// A channel of a pixel with the color multiplied by the alpha.
pub open spec fn premultiplied(p: Picture, x: int, y: int, c: int) -> int {
    if c == 3 {
        p.channel(x, y, 3) as int
    } else {
        p.channel(x, y, c) * p.channel(x, y, 3) / 255
    }
}

/// What stands in the atlas at column `x` of row `y`: nothing in the lines
/// between frames, else a pixel of the frame there.
pub open spec fn atlas_channel(frames: Seq<Picture>, a: Area, x: int, y: int, c: int) -> int {
    let column = x % (a.w + 1);
    if column == 0 || y == 0 || y > a.h {
        0
    } else {
        premultiplied(frames[x / (a.w + 1)], a.x + column - 1, a.y + y - 1, c)
    }
}

/// Channel `c` at column `x` of row `y` of pixels in rows of `width`.
pub open spec fn texel(pixels: Seq<u8>, width: int, x: int, y: int, c: int) -> int {
    pixels[(y * width + x) * 4 + c] as int
}

/// `s` is the atlas of `frames` trimmed to `a`.
pub open spec fn atlas_of(frames: Seq<Picture>, a: Area, look: Look, s: SpriteAtlas) -> bool {
    &&& s.width == atlas_width(frames.len() as int, a)
    &&& s.height == atlas_height(a)
    &&& s.frame_w == a.w
    &&& s.frame_h == a.h
    &&& s.fps == look.fps
    &&& s.mode == look.mode
    &&& s.facing == look.facing
    &&& s.waterline == look.waterline
    &&& s.rock == look.rock
    &&& s.pixels.len() == s.width * s.height * 4
    &&& forall|x: int, y: int, c: int|
        0 <= x < s.width && 0 <= y < s.height && 0 <= c < 4 ==> #[trigger] texel(
            s.pixels@,
            s.width as int,
            x,
            y,
            c,
        ) == atlas_channel(frames, a, x, y, c)
    &&& s.frames.len() == frames.len()
    &&& forall|i: int|
        0 <= i < frames.len() ==> {
            let f = #[trigger] s.frames[i];
            f.x == 1 + i * (a.w + 1) && f.y == 1 && f.w == a.w && f.h == a.h
        }
}

/// What packing `frames` gives.
pub open spec fn packed(
    frames: Seq<Picture>,
    look: Look,
    r: Result<SpriteAtlas, PackError>,
) -> bool {
    match r {
        Err(PackError::NoFrames) => frames.len() == 0,
        Err(PackError::FullyTransparent) => frames.len() > 0 && all_blank(frames),
        Ok(s) => frames.len() > 0 && exists|a: Area| #[trigger]
            tight_over(frames, a) && atlas_of(frames, a, look, s),
    }
}

/// Frames have at most one tight area.
pub proof fn lemma_tight_over_unique(frames: Seq<Picture>, a: Area, b: Area)
    requires
        tight_over(frames, a),
        tight_over(frames, b),
    ensures
        a == b,
{
}

/// The smallest area with everything visible in any frame; none when all
/// frames are blank.
pub fn union_bounds(frames: &Vec<Image>) -> (r: Option<Area>)
    requires
        forall|i: int| 0 <= i < frames.len() ==> (#[trigger] frames[i])@.sound(),
    ensures
        r is None <==> all_blank(pictures(frames@)),
        r matches Some(a) ==> tight_over(pictures(frames@), a) && a.w > 0 && a.h > 0 && a.x + a.w
            <= u32::MAX && a.y + a.h <= u32::MAX,
{
    let ghost all = pictures(frames@);
    let mut union: Option<Area> = None;
    let mut i: usize = 0;
    while i < frames.len()
        invariant
            i <= frames.len(),
            all == pictures(frames@),
            forall|j: int| 0 <= j < frames.len() ==> (#[trigger] frames[j])@.sound(),
            union is None <==> all_blank(all.take(i as int)),
            union matches Some(a) ==> tight_over(all.take(i as int), a) && a.w > 0 && a.h > 0 && a.x
                + a.w <= u32::MAX && a.y + a.h <= u32::MAX,
        decreases frames.len() - i,
    {
        let ghost before = all.take(i as int);
        let ghost after = all.take(i + 1);
        let ghost p = frames[i as int]@;
        proof {
            assert(after.last() == p);
            assert forall|k: int, x: int, y: int| #[trigger] shown(after, k, x, y) implies shown(
                before,
                k,
                x,
                y,
            ) || (k == i && p.visible(x, y)) by {}
            assert forall|k: int, x: int, y: int| #[trigger] shown(before, k, x, y) implies shown(
                after,
                k,
                x,
                y,
            ) by {}
            assert forall|x: int, y: int| #[trigger] p.visible(x, y) implies shown(
                after,
                i as int,
                x,
                y,
            ) by {}
        }
        if let Some(b) = frames[i].alpha_bounds() {
            union = Some(
                match union {
                    None => b,
                    Some(u) => {
                        let x0: u32 = if b.x < u.x { b.x } else { u.x };
                        let y0: u32 = if b.y < u.y { b.y } else { u.y };
                        let x1: u32 = if b.x + b.w > u.x + u.w { b.x + b.w } else { u.x + u.w };
                        let y1: u32 = if b.y + b.h > u.y + u.h { b.y + b.h } else { u.y + u.h };
                        Area { x: x0, y: y0, w: x1 - x0, h: y1 - y0 }
                    },
                },
            );
        }
        i = i + 1;
    }
    proof {
        assert(all.take(frames.len() as int) =~= all);
    }
    union
}

/// Pixels are apart: two places of the grid share no byte.
proof fn lemma_texels_apart(width: int, x: int, y: int, c: int, x2: int, y2: int, c2: int)
    requires
        0 <= x < width,
        0 <= x2 < width,
        0 <= y,
        0 <= y2,
        0 <= c < 4,
        0 <= c2 < 4,
        (y * width + x) * 4 + c == (y2 * width + x2) * 4 + c2,
    ensures
        x == x2,
        y == y2,
        c == c2,
{
    let q = y * width + x;
    let q2 = y2 * width + x2;
    assert(q == q2 && c == c2);
    if y < y2 {
        assert((y + 1) * width <= y2 * width) by (nonlinear_arith)
            requires
                y + 1 <= y2,
                width >= 0,
        ;
        assert((y + 1) * width == y * width + width) by (nonlinear_arith);
    } else if y2 < y {
        assert((y2 + 1) * width <= y * width) by (nonlinear_arith)
            requires
                y2 + 1 <= y,
                width >= 0,
        ;
        assert((y2 + 1) * width == y2 * width + width) by (nonlinear_arith);
    }
}

/// Sets one pixel.
fn put(pixels: &mut Vec<u8>, width: u32, height: u32, x: u32, y: u32, rgba: [u8; 4])
    requires
        x < width,
        y < height,
        old(pixels).len() == width * height * 4,
        width * height * 4 <= u32::MAX,
    ensures
        final(pixels).len() == old(pixels).len(),
        forall|px: int, py: int, c: int|
            0 <= px < width && 0 <= py < height && 0 <= c < 4 ==> #[trigger] texel(
                final(pixels)@,
                width as int,
                px,
                py,
                c,
            ) == if px == x && py == y {
                rgba[c] as int
            } else {
                texel(old(pixels)@, width as int, px, py, c)
            },
{
    proof {
        image::lemma_offset_bound(width as int, x as int, y as int, height as int);
    }
    let at: usize = ((y * width + x) * 4) as usize;
    let ghost was = pixels@;
    pixels.set(at, rgba[0]);
    pixels.set(at + 1, rgba[1]);
    pixels.set(at + 2, rgba[2]);
    pixels.set(at + 3, rgba[3]);
    proof {
        assert forall|px: int, py: int, c: int|
            0 <= px < width && 0 <= py < height && 0 <= c < 4 implies #[trigger] texel(
            pixels@,
            width as int,
            px,
            py,
            c,
        ) == (if px == x && py == y {
            rgba[c] as int
        } else {
            texel(was, width as int, px, py, c)
        }) by {
            image::lemma_offset_bound(width as int, px, py, height as int);
            if px != x || py != y {
                let k = (py * width + px) * 4 + c;
                if at <= k < at + 4 {
                    lemma_texels_apart(
                        width as int,
                        px,
                        py,
                        c,
                        x as int,
                        y as int,
                        k - at,
                    );
                }
            }
        }
    }
}

/// The pixel of frame `p` at `x`, `y` with its color multiplied by its alpha.
fn premultiply(p: &Image, x: u32, y: u32) -> (r: [u8; 4])
    requires
        p@.offset(x as int, y as int) + 4 <= p.data.len(),
        p@.offset(x as int, y as int) <= u32::MAX,
    ensures
        forall|c: int| 0 <= c < 4 ==> #[trigger] r[c] == premultiplied(p@, x as int, y as int, c),
{
    assert(0 <= y * p.width) by (nonlinear_arith)
        requires
            y >= 0,
            p.width >= 0,
    ;
    let at: usize = ((y * p.width + x) * 4) as usize;
    let alpha: u32 = p.data[at + 3] as u32;
    let (red, green, blue): (u32, u32, u32) = (
        p.data[at] as u32,
        p.data[at + 1] as u32,
        p.data[at + 2] as u32,
    );
    assert(red * alpha <= 255 * 255 && green * alpha <= 255 * 255 && blue * alpha <= 255 * 255)
        by (nonlinear_arith)
        requires
            red <= 255,
            green <= 255,
            blue <= 255,
            alpha <= 255,
    ;
    [(red * alpha / 255) as u8, (green * alpha / 255) as u8, (blue * alpha / 255) as u8, alpha as u8]
}

/// Whether the place `x`, `y` of the atlas is drawn once everything before
/// column `col` of row `row` of frame `i` is.
spec fn drawn(a: Area, i: int, row: int, col: int, x: int, y: int) -> bool {
    let frame = x / (a.w + 1);
    let column = x % (a.w + 1) - 1;
    &&& column >= 0
    &&& 1 <= y <= a.h
    &&& frame < i || (frame == i && (y - 1 < row || (y - 1 == row && column < col)))
}

/// What has been drawn is right and the rest is still empty.
spec fn drawing(
    pixels: Seq<u8>,
    frames: Seq<Picture>,
    a: Area,
    i: int,
    row: int,
    col: int,
) -> bool {
    let width = atlas_width(frames.len() as int, a);
    let height = atlas_height(a);
    &&& pixels.len() == width * height * 4
    &&& forall|x: int, y: int, c: int|
        0 <= x < width && 0 <= y < height && 0 <= c < 4 ==> #[trigger] texel(
            pixels,
            width,
            x,
            y,
            c,
        ) == if drawn(a, i, row, col, x, y) {
            atlas_channel(frames, a, x, y, c)
        } else {
            0
        }
}

/// Draws the pixel at column `col` of row `row` of the trimmed frame `i`.
fn draw_pixel(
    pixels: &mut Vec<u8>,
    frames: &Vec<Image>,
    a: Area,
    width: u32,
    height: u32,
    i: usize,
    row: u32,
    col: u32,
)
    requires
        fits(pictures(frames@), a),
        width == atlas_width(frames.len() as int, a),
        height == atlas_height(a),
        i < frames.len(),
        row < a.h,
        col < a.w,
        a.x + a.w <= u32::MAX,
        a.y + a.h <= u32::MAX,
        drawing(old(pixels)@, pictures(frames@), a, i as int, row as int, col as int),
    ensures
        drawing(final(pixels)@, pictures(frames@), a, i as int, row as int, col + 1),
{
    let ghost all = pictures(frames@);
    let ghost n = frames.len() as int;
    let ghost pitch = a.w + 1;
    let ghost place = i * pitch + col + 1;
    proof {
        assert(readable(all[i as int], a));
        let p = frames[i as int]@;
        assert(p.offset(a.x + col, a.y + row) + 4 <= p.offset(a.x + a.w, a.y + a.h - 1) && 0
            <= p.offset(a.x + col, a.y + row)) by (nonlinear_arith)
            requires
                p.offset(a.x + col, a.y + row) == ((a.y + row) * p.width + a.x + col) * 4,
                p.offset(a.x + a.w, a.y + a.h - 1) == ((a.y + a.h - 1) * p.width + a.x + a.w) * 4,
                row <= a.h - 1,
                col + 1 <= a.w,
                p.width >= 0,
        ;
        assert(i * pitch + pitch <= n * pitch) by (nonlinear_arith)
            requires
                i + 1 <= n,
                pitch >= 0,
        ;
        assert(0 <= i * pitch) by (nonlinear_arith)
            requires
                i >= 0,
                pitch >= 0,
        ;
        assert(width * height * 4 <= u32::MAX);
        vstd::arithmetic::div_mod::lemma_fundamental_div_mod_converse(
            place,
            pitch,
            i as int,
            col + 1,
        );
    }
    let rgba = premultiply(&frames[i], a.x + col, a.y + row);
    let x: u32 = i as u32 * (a.w + 1) + col + 1;
    put(pixels, width, height, x, row + 1, rgba);
    proof {
        assert forall|px: int, py: int, c: int|
            0 <= px < width && 0 <= py < height && 0 <= c < 4 implies #[trigger] texel(
            pixels@,
            width as int,
            px,
            py,
            c,
        ) == (if drawn(a, i as int, row as int, col + 1, px, py) {
            atlas_channel(all, a, px, py, c)
        } else {
            0
        }) by {
            vstd::arithmetic::div_mod::lemma_fundamental_div_mod(px, pitch);
            assert(texel(old(pixels)@, width as int, px, py, c) == if drawn(
                a,
                i as int,
                row as int,
                col as int,
                px,
                py,
            ) {
                atlas_channel(all, a, px, py, c)
            } else {
                0
            });
            if px / pitch == i && px % pitch == col + 1 {
                assert(pitch * (px / pitch) == i * pitch) by (nonlinear_arith)
                    requires
                        px / pitch == i,
                ;
                assert(px == x);
            }
        }
    }
}

/// Whether the trimmed area can be read from a frame.
fn is_readable(p: &Image, a: Area) -> (r: bool)
    requires
        a.h > 0,
        a.x + a.w <= u32::MAX,
        a.y + a.h <= u32::MAX,
    ensures
        r == readable(p@, a),
{
    proof {
        image::lemma_product(a.y + a.h - 1, p.width as int);
    }
    let end: u128 = ((a.y + a.h - 1) as u128 * p.width as u128 + (a.x + a.w) as u128) * 4;
    end <= p.data.len() as u128 && end <= 0x1_0000_0000
}

/// Whether [`pack`] may be asked for these frames.
pub fn can_pack(frames: &Vec<Image>) -> (r: bool)
    ensures
        r == packable(pictures(frames@)),
{
    let ghost all = pictures(frames@);
    let mut i: usize = 0;
    while i < frames.len()
        invariant
            i <= frames.len(),
            all == pictures(frames@),
            forall|j: int| 0 <= j < i ==> (#[trigger] frames[j])@.sound(),
        decreases frames.len() - i,
    {
        if !frames[i].is_sound() {
            assert(!all[i as int].sound());
            return false;
        }
        i = i + 1;
    }
    proof {
        assert forall|j: int| 0 <= j < all.len() implies (#[trigger] all[j]).sound() by {
            assert(frames[j]@.sound());
        }
    }
    let a = match union_bounds(frames) {
        Some(a) => a,
        None => {
            assert forall|b: Area| #[trigger] tight_over(all, b) implies fits(all, b) by {
                let (i, x, y) = choose|i: int, x: int, y: int| #[trigger]
                    shown(all, i, x, y) && x == b.x;
                assert(!shown(all, i, x, y));
            }
            return true;
        },
    };
    proof {
        assert(tight_over(all, a));
        assert forall|b: Area| #[trigger] tight_over(all, b) implies b == a by {
            lemma_tight_over_unique(all, a, b);
        }
    }
    if frames.len() as u128 > u32::MAX as u128 {
        return false;
    }
    let n: u32 = frames.len() as u32;
    proof {
        image::lemma_product(n as int, a.w + 1);
        assert(0 <= atlas_width(n as int, a) * atlas_height(a) <= 0x2_0000_0000_0000_0000
            * 0x2_0000_0000) by (nonlinear_arith)
            requires
                0 <= atlas_width(n as int, a) <= 0x2_0000_0000_0000_0000,
                0 <= atlas_height(a) <= 0x2_0000_0000,
        ;
    }
    let width: u128 = n as u128 * (a.w as u128 + 1) + 1;
    if width * (a.h as u128 + 2) * 4 > u32::MAX as u128 {
        return false;
    }
    let mut k: usize = 0;
    while k < frames.len()
        invariant
            k <= frames.len(),
            all == pictures(frames@),
            tight_over(all, a),
            a.h > 0,
            a.x + a.w <= u32::MAX,
            a.y + a.h <= u32::MAX,
            forall|j: int| 0 <= j < k ==> readable(#[trigger] all[j], a),
        decreases frames.len() - k,
    {
        if !is_readable(&frames[k], a) {
            assert(!readable(all[k as int], a));
            assert(!fits(all, a));
            return false;
        }
        k = k + 1;
    }
    assert(fits(all, a));
    true
}

/// Packs the frames into an atlas.
pub fn pack(frames: &Vec<Image>, look: Look) -> (r: Result<SpriteAtlas, PackError>)
    requires
        packable(pictures(frames@)),
    ensures
        packed(pictures(frames@), look, r),
{
    let ghost all = pictures(frames@);
    let ghost n = frames.len() as int;
    if frames.len() == 0 {
        return Err(PackError::NoFrames);
    }
    proof {
        assert forall|i: int| 0 <= i < frames.len() implies (#[trigger] frames[i])@.sound() by {
            assert(all[i].sound());
        }
    }
    let a = match union_bounds(frames) {
        Some(a) => a,
        None => {
            return Err(PackError::FullyTransparent);
        },
    };
    let ghost pitch = a.w + 1;
    proof {
        assert(tight_over(all, a));
        assert(fits(all, a));
        let wide = atlas_width(n, a);
        let high = atlas_height(a);
        assert(n <= n * pitch && pitch <= n * pitch) by (nonlinear_arith)
            requires
                n >= 1,
                pitch >= 1,
        ;
        assert(wide * 4 <= wide * high * 4 && high * 4 <= wide * high * 4) by (nonlinear_arith)
            requires
                wide >= 1,
                high >= 1,
        ;
        assert(wide * high <= wide * high * 4) by (nonlinear_arith)
            requires
                wide >= 1,
                high >= 1,
        ;
    }
    let width: u32 = frames.len() as u32 * (a.w + 1) + 1;
    let height: u32 = a.h + 2;
    let mut pixels: Vec<u8> = vec![0u8; (width * height * 4) as usize];
    let mut rects: Vec<Area> = Vec::new();
    proof {
        assert forall|x: int, y: int, c: int|
            0 <= x < width && 0 <= y < height && 0 <= c < 4 implies #[trigger] texel(
            pixels@,
            width as int,
            x,
            y,
            c,
        ) == (if drawn(a, 0, 0, 0, x, y) {
            atlas_channel(all, a, x, y, c)
        } else {
            0
        }) by {
            image::lemma_offset_bound(width as int, x, y, height as int);
            lemma_quotient(x, pitch, n);
        }
    }
    let mut i: usize = 0;
    while i < frames.len()
        invariant
            i <= frames.len(),
            n == frames.len(),
            pitch == a.w + 1,
            all == pictures(frames@),
            fits(all, a),
            a.w > 0,
            a.h > 0,
            a.x + a.w <= u32::MAX,
            a.y + a.h <= u32::MAX,
            width == atlas_width(n, a),
            height == atlas_height(a),
            drawing(pixels@, all, a, i as int, 0, 0),
            rects.len() == i,
            forall|k: int|
                0 <= k < i ==> {
                    let f = #[trigger] rects[k];
                    f.x == 1 + k * (a.w + 1) && f.y == 1 && f.w == a.w && f.h == a.h
                },
        decreases frames.len() - i,
    {
        let mut row: u32 = 0;
        while row < a.h
            invariant
                row <= a.h,
                i < frames.len(),
                n == frames.len(),
                all == pictures(frames@),
                fits(all, a),
                a.x + a.w <= u32::MAX,
                a.y + a.h <= u32::MAX,
                width == atlas_width(n, a),
                height == atlas_height(a),
                drawing(pixels@, all, a, i as int, row as int, 0),
            decreases a.h - row,
        {
            let mut col: u32 = 0;
            while col < a.w
                invariant
                    col <= a.w,
                    row < a.h,
                    i < frames.len(),
                    n == frames.len(),
                    all == pictures(frames@),
                    fits(all, a),
                    a.x + a.w <= u32::MAX,
                    a.y + a.h <= u32::MAX,
                    width == atlas_width(n, a),
                    height == atlas_height(a),
                    drawing(pixels@, all, a, i as int, row as int, col as int),
                decreases a.w - col,
            {
                draw_pixel(&mut pixels, frames, a, width, height, i, row, col);
                col = col + 1;
            }
            proof {
                lemma_row_done(pixels@, all, a, i as int, row as int);
            }
            row = row + 1;
        }
        proof {
            lemma_frame_done(pixels@, all, a, i as int);
            assert(i * pitch + pitch <= n * pitch) by (nonlinear_arith)
                requires
                    i + 1 <= n,
                    pitch >= 0,
            ;
            assert(0 <= i * pitch) by (nonlinear_arith)
                requires
                    i >= 0,
                    pitch >= 0,
            ;
        }
        rects.push(Area { x: 1 + i as u32 * (a.w + 1), y: 1, w: a.w, h: a.h });
        i = i + 1;
    }
    let atlas = SpriteAtlas {
        pixels,
        width,
        height,
        frames: rects,
        frame_w: a.w,
        frame_h: a.h,
        fps: look.fps,
        mode: look.mode,
        facing: look.facing,
        waterline: look.waterline,
        rock: look.rock,
    };
    proof {
        assert forall|x: int, y: int, c: int|
            0 <= x < width && 0 <= y < height && 0 <= c < 4 implies #[trigger] texel(
            atlas.pixels@,
            width as int,
            x,
            y,
            c,
        ) == atlas_channel(all, a, x, y, c) by {
            lemma_quotient(x, pitch, n);
        }
        assert(atlas_of(all, a, look, atlas));
    }
    Ok(atlas)
}

/// Where column `x` of an atlas of `n` frames stands: in some frame, or on
/// the last line.
proof fn lemma_quotient(x: int, pitch: int, n: int)
    requires
        pitch > 0,
        0 <= x <= n * pitch,
    ensures
        0 <= x / pitch <= n,
        x / pitch == n ==> x % pitch == 0,
{
    vstd::arithmetic::div_mod::lemma_fundamental_div_mod(x, pitch);
    let q = x / pitch;
    let m = x % pitch;
    assert(0 <= m < pitch) by {
        vstd::arithmetic::div_mod::lemma_mod_bound(x, pitch);
    }
    assert(0 <= q) by {
        vstd::arithmetic::div_mod::lemma_div_pos_is_pos(x, pitch);
    }
    if q >= n {
        assert(pitch * q >= n * pitch + (q - n) * pitch) by (nonlinear_arith);
        assert((q - n) * pitch >= q - n) by (nonlinear_arith)
            requires
                q >= n,
                pitch >= 1,
        ;
    }
}

proof fn lemma_row_done(pixels: Seq<u8>, frames: Seq<Picture>, a: Area, i: int, row: int)
    requires
        drawing(pixels, frames, a, i, row, a.w as int),
    ensures
        drawing(pixels, frames, a, i, row + 1, 0),
{
    let width = atlas_width(frames.len() as int, a);
    assert forall|x: int, y: int| drawn(a, i, row, a.w as int, x, y) == drawn(
        a,
        i,
        row + 1,
        0,
        x,
        y,
    ) by {
        vstd::arithmetic::div_mod::lemma_mod_bound(x, a.w + 1);
    }
}

proof fn lemma_frame_done(pixels: Seq<u8>, frames: Seq<Picture>, a: Area, i: int)
    requires
        drawing(pixels, frames, a, i, a.h as int, 0),
    ensures
        drawing(pixels, frames, a, i + 1, 0, 0),
{
    assert forall|x: int, y: int| drawn(a, i, a.h as int, 0, x, y) == drawn(a, i + 1, 0, 0, x, y) by {
    }
}

// ---- laws -----------------------------------------------------------------

/// The colors of an atlas are premultiplied: none is brighter than its alpha.
pub proof fn law_premultiplied(
    frames: Seq<Picture>,
    look: Look,
    s: SpriteAtlas,
    x: int,
    y: int,
    c: int,
)
    requires
        packed(frames, look, Ok(s)),
        0 <= x < s.width,
        0 <= y < s.height,
        0 <= c < 3,
    ensures
        texel(s.pixels@, s.width as int, x, y, c) <= texel(s.pixels@, s.width as int, x, y, 3),
{
    let a = choose|a: Area| #[trigger] tight_over(frames, a) && atlas_of(frames, a, look, s);
    assert(texel(s.pixels@, s.width as int, x, y, c) == atlas_channel(frames, a, x, y, c));
    assert(texel(s.pixels@, s.width as int, x, y, 3) == atlas_channel(frames, a, x, y, 3));
    let column = x % (a.w + 1);
    if !(column == 0 || y == 0 || y > a.h) {
        let p = frames[x / (a.w + 1)];
        let (fx, fy) = (a.x + column - 1, a.y + y - 1);
        let (v, alpha) = (p.channel(fx, fy, c) as int, p.channel(fx, fy, 3) as int);
        assert(v * alpha <= 255 * alpha) by (nonlinear_arith)
            requires
                0 <= v <= 255,
                0 <= alpha,
        ;
    }
}

/// The frames of an atlas lie inside it, one after the other, with a line of
/// at least one pixel before, between and after them, above and below.
pub proof fn law_frames_are_apart(
    frames: Seq<Picture>,
    look: Look,
    s: SpriteAtlas,
    i: int,
    j: int,
)
    requires
        packed(frames, look, Ok(s)),
        0 <= i < j < s.frames.len(),
    ensures
        1 <= s.frames[i].x,
        s.frames[i].x + s.frames[i].w + 1 <= s.frames[j].x,
        s.frames[j].x + s.frames[j].w + 1 <= s.width,
        s.frames[i].y == 1,
        s.frames[i].h + 2 == s.height,
{
    let a = choose|a: Area| #[trigger] tight_over(frames, a) && atlas_of(frames, a, look, s);
    let (f, g) = (s.frames[i], s.frames[j]);
    let step = a.w + 1;
    assert(i * step + step <= j * step) by (nonlinear_arith)
        requires
            i < j,
            step >= 0,
    ;
    assert(j * step + step <= frames.len() * step) by (nonlinear_arith)
        requires
            j < frames.len(),
            step >= 0,
    ;
    assert(0 <= i * step) by (nonlinear_arith)
        requires
            0 <= i,
            step >= 0,
    ;
}

/// The lines around and between frames are transparent, so that nothing bleeds
/// from one frame into the next.
pub proof fn law_gutters_are_clear(
    frames: Seq<Picture>,
    look: Look,
    s: SpriteAtlas,
    x: int,
    y: int,
    c: int,
)
    requires
        packed(frames, look, Ok(s)),
        0 <= x < s.width,
        0 <= y < s.height,
        0 <= c < 4,
        forall|i: int| 0 <= i < s.frames.len() ==> !(#[trigger] s.frames[i]).has(x, y),
    ensures
        texel(s.pixels@, s.width as int, x, y, c) == 0,
{
    let a = choose|a: Area| #[trigger] tight_over(frames, a) && atlas_of(frames, a, look, s);
    assert(texel(s.pixels@, s.width as int, x, y, c) == atlas_channel(frames, a, x, y, c));
    let step = a.w + 1;
    let (i, column) = (x / step, x % step);
    if !(column == 0 || y == 0 || y > a.h) {
        vstd::arithmetic::div_mod::lemma_fundamental_div_mod(x, step);
        vstd::arithmetic::div_mod::lemma_div_pos_is_pos(x, step);
        assert(step * i == i * step) by (nonlinear_arith);
        assert(i < frames.len()) by (nonlinear_arith)
            requires
                i * step + column < frames.len() * step + 1,
                column >= 1,
                step >= 1,
        ;
        assert(s.frames[i].has(x, y));
    }
}

/// Every visible pixel of every frame is in the atlas, at its place in its
/// frame.
pub proof fn law_nothing_visible_is_lost(
    frames: Seq<Picture>,
    look: Look,
    s: SpriteAtlas,
    i: int,
    x: int,
    y: int,
    c: int,
)
    requires
        packed(frames, look, Ok(s)),
        shown(frames, i, x, y),
        0 <= c < 4,
    ensures
        exists|a: Area|
            #![trigger tight_over(frames, a)]
            tight_over(frames, a) && texel(
                s.pixels@,
                s.width as int,
                s.frames[i].x + x - a.x,
                s.frames[i].y + y - a.y,
                c,
            ) == premultiplied(frames[i], x, y, c),
{
    let a = choose|a: Area| #[trigger] tight_over(frames, a) && atlas_of(frames, a, look, s);
    let step = a.w + 1;
    let f = s.frames[i];
    let (u, v) = (f.x + x - a.x, f.y + y - a.y);
    assert(a.has(x, y));
    assert(u == step * i + (x - a.x + 1)) by {
        assert(step * i == i * step) by (nonlinear_arith);
    }
    vstd::arithmetic::div_mod::lemma_fundamental_div_mod_converse(u, step, i, x - a.x + 1);
    assert(u < s.width) by {
        assert(i * step + step <= frames.len() * step) by (nonlinear_arith)
            requires
                i < frames.len(),
                step >= 0,
        ;
    }
    assert(0 <= u) by {
        assert(0 <= i * step) by (nonlinear_arith)
            requires
                0 <= i,
                step >= 0,
        ;
    }
    assert(texel(s.pixels@, s.width as int, u, v, c) == atlas_channel(frames, a, u, v, c));
}

/// Every pixel of the atlas inside a frame is the pixel of the picture in the
/// same place, counted from the corner `a` that all frames are trimmed to:
/// its alpha is the same, and each color is the color times the alpha, with
/// 255 for one, rounded down. An opaque pixel keeps its color and a clear one
/// has none.
pub proof fn law_atlas_shows_the_frames(
    frames: Seq<Picture>,
    look: Look,
    s: SpriteAtlas,
    a: Area,
    i: int,
    u: int,
    v: int,
    c: int,
)
    requires
        packed(frames, look, Ok(s)),
        tight_over(frames, a),
        0 <= i < frames.len(),
        0 <= u < s.frame_w,
        0 <= v < s.frame_h,
        0 <= c < 3,
    ensures
        ({
            let p = frames[i];
            let from = ((a.y + v) * p.width + a.x + u) * 4;
            let to = ((s.frames[i].y + v) * s.width + s.frames[i].x + u) * 4;
            let (color, alpha) = (p.data[from + c] as int, p.data[from + 3] as int);
            &&& s.pixels[to + 3] == alpha
            &&& 255 * s.pixels[to + c] <= color * alpha < 255 * s.pixels[to + c] + 255
            &&& alpha == 255 ==> s.pixels[to + c] == color
            &&& alpha == 0 ==> s.pixels[to + c] == 0
        }),
{
    let b = choose|b: Area| #[trigger] tight_over(frames, b) && atlas_of(frames, b, look, s);
    lemma_tight_over_unique(frames, a, b);
    let step = a.w + 1;
    let f = s.frames[i];
    let (x, y) = (f.x + u, f.y + v);
    assert(x == step * i + (u + 1)) by {
        assert(step * i == i * step) by (nonlinear_arith);
    }
    assert(step * i == i * step) by (nonlinear_arith);
    vstd::arithmetic::div_mod::lemma_fundamental_div_mod_converse(x, step, i, u + 1);
    assert(i * step + step <= frames.len() * step) by (nonlinear_arith)
        requires
            i < frames.len(),
            step >= 0,
    ;
    assert(0 <= i * step) by (nonlinear_arith)
        requires
            0 <= i,
            step >= 0,
    ;
    assert(texel(s.pixels@, s.width as int, x, y, c) == atlas_channel(frames, a, x, y, c));
    assert(texel(s.pixels@, s.width as int, x, y, 3) == atlas_channel(frames, a, x, y, 3));
    let p = frames[i];
    let (fx, fy) = (a.x + u, a.y + v);
    let (color, alpha) = (p.channel(fx, fy, c) as int, p.channel(fx, fy, 3) as int);
    assert(p.offset(fx, fy) == ((a.y + v) * p.width + a.x + u) * 4);
    assert((y * s.width + x) * 4 == ((s.frames[i].y + v) * s.width + s.frames[i].x + u) * 4);
    let q = color * alpha / 255;
    assert(255 * q <= color * alpha < 255 * q + 255);
    assert(alpha == 255 ==> color * alpha == 255 * color);
    assert(alpha == 0 ==> color * alpha == 0);
}

/// The area that all frames are trimmed to is the smallest one with
/// everything that is visible in any of them, which is every pixel with an
/// alpha above 8.
pub proof fn law_trimmed_to_what_is_visible(
    frames: Seq<Picture>,
    a: Area,
    b: Area,
    i: int,
    x: int,
    y: int,
)
    requires
        tight_over(frames, a),
    ensures
        0 <= i < frames.len() && 0 <= x < frames[i].width && 0 <= y < frames[i].height
            && frames[i].data[(y * frames[i].width + x) * 4 + 3] > 8 ==> a.x <= x < a.x + a.w
            && a.y <= y < a.y + a.h,
        (forall|j: int, u: int, v: int|
            0 <= j < frames.len() && 0 <= u < frames[j].width && 0 <= v < frames[j].height
                && #[trigger] frames[j].data[(v * frames[j].width + u) * 4 + 3] > 8 ==> b.x <= u
                < b.x + b.w && b.y <= v < b.y + b.h) ==> b.x <= a.x && b.y <= a.y && a.x + a.w
            <= b.x + b.w && a.y + a.h <= b.y + b.h,
        a.w > 0 && a.h > 0,
{
    if 0 <= i < frames.len() && 0 <= x < frames[i].width && 0 <= y < frames[i].height
        && frames[i].data[(y * frames[i].width + x) * 4 + 3] > 8 {
        assert(shown(frames, i, x, y));
    }
    let (i0, x0, y0) = choose|i: int, x: int, y: int| #[trigger] shown(frames, i, x, y) && x == a.x;
    let (i1, x1, y1) = choose|i: int, x: int, y: int| #[trigger]
        shown(frames, i, x, y) && x == a.x + a.w - 1;
    let (i2, x2, y2) = choose|i: int, x: int, y: int| #[trigger] shown(frames, i, x, y) && y == a.y;
    let (i3, x3, y3) = choose|i: int, x: int, y: int| #[trigger]
        shown(frames, i, x, y) && y == a.y + a.h - 1;
    assert(a.has(x0, y0));
    assert(frames[i0].data[(y0 * frames[i0].width + x0) * 4 + 3] > 8);
    assert(frames[i1].data[(y1 * frames[i1].width + x1) * 4 + 3] > 8);
    assert(frames[i2].data[(y2 * frames[i2].width + x2) * 4 + 3] > 8);
    assert(frames[i3].data[(y3 * frames[i3].width + x3) * 4 + 3] > 8);
}

/// Packing fails exactly if there is no frame, or none with a pixel of an
/// alpha above 8, and says which.
pub proof fn law_what_can_be_packed(
    frames: Seq<Picture>,
    look: Look,
    r: Result<SpriteAtlas, PackError>,
)
    requires
        packed(frames, look, r),
    ensures
        r == Err::<SpriteAtlas, PackError>(PackError::NoFrames) <==> frames.len() == 0,
        r == Err::<SpriteAtlas, PackError>(PackError::FullyTransparent) <==> frames.len() > 0 && (
        forall|j: int, u: int, v: int|
            0 <= j < frames.len() && 0 <= u < frames[j].width && 0 <= v < frames[j].height
                ==> #[trigger] frames[j].data[(v * frames[j].width + u) * 4 + 3] <= 8),
{
    if r is Ok {
        let s = r->Ok_0;
        let a = choose|a: Area| #[trigger] tight_over(frames, a) && atlas_of(frames, a, look, s);
        let (i, x, y) = choose|i: int, x: int, y: int| #[trigger]
            shown(frames, i, x, y) && x == a.x;
        assert(frames[i].data[(y * frames[i].width + x) * 4 + 3] > 8);
    } else if frames.len() > 0 {
        assert forall|j: int, u: int, v: int|
            0 <= j < frames.len() && 0 <= u < frames[j].width && 0 <= v
                < frames[j].height implies #[trigger] frames[j].data[(v * frames[j].width + u) * 4
            + 3] <= 8 by {
            assert(!shown(frames, j, u, v));
        }
    }
}

/// An atlas has a place for each frame, in order, from left to right and one
/// pixel apart, all of the same size. It is just large enough for them, and
/// takes over the character's look.
pub proof fn law_atlas_layout(frames: Seq<Picture>, look: Look, s: SpriteAtlas, i: int)
    requires
        packed(frames, look, Ok(s)),
        0 <= i < frames.len(),
    ensures
        s.frames.len() == frames.len(),
        s.frames[0].x == 1,
        s.frames[i].y == 1,
        s.frames[i].w == s.frame_w,
        s.frames[i].h == s.frame_h,
        i + 1 < frames.len() ==> s.frames[i + 1].x == s.frames[i].x + s.frame_w + 1,
        i + 1 == frames.len() ==> s.width == s.frames[i].x + s.frame_w + 1,
        s.height == s.frame_h + 2,
        s.pixels.len() == s.width * s.height * 4,
        s.fps == look.fps,
        s.mode == look.mode,
        s.facing == look.facing,
        s.waterline == look.waterline,
        s.rock == look.rock,
{
    let a = choose|a: Area| #[trigger] tight_over(frames, a) && atlas_of(frames, a, look, s);
    let step = a.w + 1;
    assert((i + 1) * step == i * step + step) by (nonlinear_arith);
    assert(0 * step == 0);
    assert(s.frames[0].x == 1 + 0 * step);
}

/// Frames that are complete, of one size and together not larger than 32 bits
/// can count can be packed.
pub proof fn law_ordinary_frames_can_be_packed(frames: Seq<Picture>, w: int, h: int)
    requires
        w >= 0,
        h >= 0,
        forall|i: int|
            0 <= i < frames.len() ==> (#[trigger] frames[i]).width == w && frames[i].height == h
                && frames[i].data.len() == w * h * 4,
        (frames.len() * (w + 1) + 1) * (h + 2) * 4 <= u32::MAX,
    ensures
        packable(frames),
{
    let n = frames.len() as int;
    assert(n > 0 ==> w * h <= (n * (w + 1) + 1) * (h + 2)) by (nonlinear_arith)
        requires
            n >= 0,
            w >= 0,
            h >= 0,
    ;
    assert(n <= (n * (w + 1) + 1) * (h + 2)) by (nonlinear_arith)
        requires
            n >= 0,
            w >= 0,
            h >= 0,
    ;
    assert(w * h >= 0) by (nonlinear_arith)
        requires
            w >= 0,
            h >= 0,
    ;
    assert forall|a: Area| #[trigger] tight_over(frames, a) implies fits(frames, a) by {
        let (i0, x0, y0) = choose|i: int, x: int, y: int| #[trigger]
            shown(frames, i, x, y) && x == a.x;
        let (i1, x1, y1) = choose|i: int, x: int, y: int| #[trigger]
            shown(frames, i, x, y) && x == a.x + a.w - 1;
        let (i3, x3, y3) = choose|i: int, x: int, y: int| #[trigger]
            shown(frames, i, x, y) && y == a.y + a.h - 1;
        assert(a.has(x0, y0));
        let (right, last) = (a.x + a.w, a.y + a.h - 1);
        assert(right <= w && 0 <= last < h);
        assert((n * (a.w + 1) + 1) * (a.h + 2) <= (n * (w + 1) + 1) * (h + 2)) by (nonlinear_arith)
            requires
                n >= 0,
                0 <= a.w <= w,
                0 <= a.h <= h,
        ;
        assert((last * w + right) * 4 <= w * h * 4) by (nonlinear_arith)
            requires
                0 <= last < h,
                0 <= right <= w,
        ;
        assert forall|i: int| 0 <= i < frames.len() implies readable(#[trigger] frames[i], a) by {
            assert(frames[i].offset(right, last) == (last * w + right) * 4);
        }
    }
}

} // verus!
