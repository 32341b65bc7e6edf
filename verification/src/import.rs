//! Turning any picture into the custom character.
//!
//! The picture is decoded and scaled down by the program around the library;
//! here it is checked, encoded as a PNG of its own and described as a custom
//! sprite. Importing copies pixels, so the character keeps working when the
//! source picture moves or is deleted.

use vstd::prelude::*;

use crate::assets;
use crate::assets::AssetError;
use crate::atlas;
use crate::config::{CustomSprite, SpriteSettings};
use crate::image::{Area, Picture, FAINT};
use crate::png_file;
use crate::single::Single;

verus! {

/// Imports are scaled down, never up, to fit this box. Taskbars top out
/// around 100 pixels even at high resolution, so this keeps the sprite crisp
/// without wasting texture on photo-sized pictures.
pub const MAX_W: u32 = 256;

pub const MAX_H: u32 = 128;

/// Why a picture cannot be imported.
#[derive(Debug, Clone, Copy, PartialEq, Eq, Structural)]
pub enum ImportError {
    /// The picture has no pixels.
    Empty,
    FullyTransparent,
    /// The sprite could not be encoded.
    Encode,
}

/// A picture of this size is larger than the box.
pub open spec fn oversized(width: u32, height: u32) -> bool {
    width > MAX_W || height > MAX_H
}

/// Whether a picture of this size is larger than the box.
pub fn needs_scaling(width: u32, height: u32) -> (r: bool)
    ensures
        r == oversized(width, height),
{
    width > MAX_W || height > MAX_H
}

/// A side of the sprite: the scaled one, but at least one pixel, and no more
/// than the side of the picture or of the box.
pub open spec fn fitted(side: u32, scaled: u32, most: u32) -> u32 {
    let limit = if side < most {
        side
    } else {
        most
    };
    if scaled == 0 {
        1
    } else if scaled > limit {
        limit
    } else {
        scaled
    }
}

fn fit(side: u32, scaled: u32, most: u32) -> (r: u32)
    ensures
        r == fitted(side, scaled, most),
{
    let limit: u32 = if side < most {
        side
    } else {
        most
    };
    if scaled == 0 {
        1
    } else if scaled > limit {
        limit
    } else {
        scaled
    }
}

/// The size of the sprite for a picture that has pixels.
pub open spec fn sized(width: u32, height: u32, scaled: (u32, u32)) -> Option<(u32, u32)> {
    if width == 0 || height == 0 {
        None
    } else if !oversized(width, height) {
        Some((width, height))
    } else {
        Some((fitted(width, scaled.0, MAX_W), fitted(height, scaled.1, MAX_H)))
    }
}

/// The size of the sprite for a picture: its own when it fits the box, else
/// the scaled one. It fits the box, nothing is enlarged, and no side shrinks
/// to nothing.
pub fn sprite_size(width: u32, height: u32, scaled: (u32, u32)) -> (r: Result<
    (u32, u32),
    ImportError,
>)
    ensures
        match r {
            Err(e) => e == ImportError::Empty && sized(width, height, scaled) is None,
            Ok((w, h)) => {
                &&& sized(width, height, scaled) == Some((w, h))
                &&& width > 0 && height > 0
                &&& if width <= MAX_W && height <= MAX_H {
                    w == width && h == height
                } else {
                    w == fitted(width, scaled.0, MAX_W) && h == fitted(height, scaled.1, MAX_H)
                }
                &&& 1 <= w <= MAX_W && w <= width
                &&& 1 <= h <= MAX_H && h <= height
            },
        },
{
    if width == 0 || height == 0 {
        return Err(ImportError::Empty);
    }
    if !needs_scaling(width, height) {
        return Ok((width, height));
    }
    Ok((fit(width, scaled.0, MAX_W), fit(height, scaled.1, MAX_H)))
}

/// Some pixel is not (nearly) transparent.
pub open spec fn any_visible(pixels: Seq<u8>) -> bool {
    exists|i: int| 0 <= i < pixels.len() / 4 && #[trigger] pixels[4 * i + 3] > FAINT
}

/// Whether some pixel is not (nearly) transparent.
pub fn has_visible(pixels: &Vec<u8>) -> (r: bool)
    ensures
        r == any_visible(pixels@),
{
    let count: usize = pixels.len() / 4;
    let mut i: usize = 0;
    while i < count
        invariant
            i <= count,
            count == pixels.len() / 4,
            forall|j: int| 0 <= j < i ==> #[trigger] pixels[4 * j + 3] <= FAINT,
        decreases count - i,
    {
        if pixels[4 * i + 3] > FAINT {
            return true;
        }
        i = i + 1;
    }
    false
}

/// The entry for an imported picture: one still frame that floats, at one
/// frame per second.
pub open spec fn imported(path: Seq<char>, width: u32, height: u32) -> SpriteSettings {
    SpriteSettings {
        path,
        frame_width: width,
        frame_height: height,
        fps: Single { bits: 0x3f80_0000 },
        mode: "floater"@,
        facing: "right"@,
    }
}

/// The picture that pixels in rows show.
pub open spec fn picture(pixels: Seq<u8>, width: u32, height: u32) -> Picture {
    Picture { width: width as int, height: height as int, data: pixels }
}

/// Why a picture cannot be imported.
pub open spec fn refused(pixels: Seq<u8>, width: u32, height: u32) -> Option<ImportError> {
    if !any_visible(pixels) {
        Some(ImportError::FullyTransparent)
    } else if !(width > 0 && height > 0 && pixels.len() == width * height * 4) {
        Some(ImportError::Encode)
    } else {
        None
    }
}

/// Makes the custom sprite of a picture that fits the box: the PNG file to
/// write to `path` and the entry for the settings.
pub fn import_file(pixels: &Vec<u8>, width: u32, height: u32, path: &str) -> (r: Result<
    (Vec<u8>, CustomSprite),
    ImportError,
>)
    requires
        width <= MAX_W,
        height <= MAX_H,
    ensures
        match r {
            Err(e) => refused(pixels@, width, height) == Some(e),
            Ok((file, sprite)) => {
                &&& refused(pixels@, width, height) is None
                &&& any_visible(pixels@)
                &&& width > 0 && height > 0 && pixels.len() == width * height * 4
                &&& assets::shown_by(file@) == Ok::<Picture, AssetError>(
                    picture(pixels@, width, height),
                )
                &&& sprite@ == imported(path@, width, height)
            },
        },
{
    if !has_visible(pixels) {
        return Err(ImportError::FullyTransparent);
    }
    match png_file::encode_rgba(pixels.as_slice(), width, height) {
        Err(_) => Err(ImportError::Encode),
        Ok(file) => {
            proof {
                let raw = png_file::first_frame_of(file@, usize::MAX as nat)->Ok_0;
                assert(assets::frame_bytes(raw) == pixels@);
                assets::lemma_rgba_as_it_stands(raw);
            }
            Ok(
                (
                    file,
                    CustomSprite {
                        path: path.to_owned(),
                        frame_width: width,
                        frame_height: height,
                        fps: Single { bits: 0x3f80_0000 },
                        mode: "floater".to_owned(),
                        facing: "right".to_owned(),
                    },
                ),
            )
        },
    }
}

/// An imported picture is a working character: its sheet holds one frame,
/// the picture itself, and packing that frame gives an atlas.
pub proof fn law_import_makes_a_character(
    pixels: Seq<u8>,
    width: u32,
    height: u32,
    path: Seq<char>,
    look: atlas::Look,
    r: Result<atlas::SpriteAtlas, AssetError>,
)
    requires
        0 < width <= MAX_W,
        0 < height <= MAX_H,
        pixels.len() == width * height * 4,
        any_visible(pixels),
    ensures
        assets::frame_fits(imported(path, width, height), picture(pixels, width, height)),
        assets::strip_packable(imported(path, width, height), picture(pixels, width, height)),
        assets::strip(imported(path, width, height), picture(pixels, width, height)) == seq![
            picture(pixels, width, height),
        ],
        assets::packed_as(seq![picture(pixels, width, height)], look, r) ==> r is Ok,
{
    let c = imported(path, width, height);
    let p = picture(pixels, width, height);
    let (w, h) = (width as int, height as int);
    assert(w * h * 4 <= 256 * 128 * 4 && w * h * 4 == h * w * 4 && w * 4 <= w * h * 4) by (nonlinear_arith)
        requires
            0 < w <= 256,
            0 < h <= 128,
    ;
    assert(w / w == 1) by (nonlinear_arith)
        requires
            w > 0,
    ;
    assert((h - 1) * w + w == h * w) by (nonlinear_arith);
    assert(p.offset(0, h - 1) + 4 * w == h * w * 4);
    assert(p.sound());
    assert forall|i: int| 0 <= i < p.width / c.frame_width as int implies #[trigger] p.croppable(
        i * c.frame_width,
        0,
        w,
        h,
    ) by {
        assert(i * c.frame_width == 0);
    }
    let cut = p.cropped(0, 0, w, h);
    assert(cut.data =~= p.data) by {
        assert forall|k: int| 0 <= k < p.data.len() implies cut.data[k] == p.data[k] by {
            vstd::arithmetic::div_mod::lemma_fundamental_div_mod(k, 4 * w);
            let q = k / (4 * w);
            let m = k % (4 * w);
            assert((q * w + 0) * 4 == (4 * w) * q) by (nonlinear_arith);
            assert(p.offset(0, 0 + q) + m == k);
        }
    }
    let frames = assets::strip(c, p);
    assert(frames =~= seq![p]) by {
        assert(0 * c.frame_width == 0);
    }
    assert forall|a: Area| #[trigger] atlas::tight_over(frames, a) implies atlas::fits(frames, a) by {
        let (i0, x0, y0) = choose|i: int, x: int, y: int| #[trigger]
            atlas::shown(frames, i, x, y) && x == a.x;
        let (i1, x1, y1) = choose|i: int, x: int, y: int| #[trigger]
            atlas::shown(frames, i, x, y) && x == a.x + a.w - 1;
        let (i2, x2, y2) = choose|i: int, x: int, y: int| #[trigger]
            atlas::shown(frames, i, x, y) && y == a.y + a.h - 1;
        assert(a.has(x0, y0));
        assert(a.x + a.w <= w && a.y + a.h <= h && a.w > 0 && a.h > 0);
        let wide = atlas::atlas_width(1, a);
        let high = atlas::atlas_height(a);
        assert(wide * high * 4 <= 258 * 130 * 4) by (nonlinear_arith)
            requires
                0 <= wide <= 258,
                0 <= high <= 130,
        ;
        assert((a.y + a.h - 1) * w + a.x + a.w <= h * w) by (nonlinear_arith)
            requires
                0 <= a.y + a.h - 1 <= h - 1,
                0 <= a.x + a.w <= w,
                w >= 0,
        ;
        assert(atlas::readable(p, a));
    }
    assert(atlas::packable(frames));
    let i = choose|i: int| 0 <= i < pixels.len() / 4 && #[trigger] pixels[4 * i + 3] > FAINT;
    vstd::arithmetic::div_mod::lemma_fundamental_div_mod(i, w);
    vstd::arithmetic::div_mod::lemma_mod_bound(i, w);
    let (x, y) = (i % w, i / w);
    assert(0 <= y < h) by (nonlinear_arith)
        requires
            0 <= i < w * h,
            w > 0,
            y == i / w,
    ;
    assert(y * w + x == i) by (nonlinear_arith)
        requires
            i == w * y + x,
    ;
    assert(p.visible(x, y));
    assert(atlas::shown(frames, 0, x, y));
}

/// A picture that fits 256 by 128 pixels keeps its size. Every other one gets
/// the scaled size, except that no side vanishes, is enlarged or exceeds the
/// box. Only a picture without pixels has no size.
pub proof fn law_sprite_size(width: u32, height: u32, scaled: (u32, u32))
    ensures
        sized(width, height, scaled) is None <==> width == 0 || height == 0,
        sized(width, height, scaled) matches Some((w, h)) ==> {
            &&& 1 <= w <= 256 && w <= width
            &&& 1 <= h <= 128 && h <= height
            &&& width <= 256 && height <= 128 ==> w == width && h == height
            &&& width > 256 || height > 128 ==> {
                &&& 1 <= scaled.0 <= 256 && scaled.0 <= width ==> w == scaled.0
                &&& 1 <= scaled.1 <= 128 && scaled.1 <= height ==> h == scaled.1
                &&& scaled.0 == 0 ==> w == 1
                &&& scaled.1 == 0 ==> h == 1
                &&& scaled.0 > 256 || scaled.0 > width ==> w == 256 || w == width
                &&& scaled.1 > 128 || scaled.1 > height ==> h == 128 || h == height
            }
        },
{
}

/// Scaling is called for exactly where a side exceeds the box, and what has
/// been sized needs none.
pub proof fn law_scaling_is_for_large_pictures(width: u32, height: u32, scaled: (u32, u32))
    ensures
        oversized(width, height) <==> width > 256 || height > 128,
        sized(width, height, scaled) matches Some((w, h)) ==> !oversized(w, h) && sized(
            w,
            h,
            scaled,
        ) == Some((w, h)),
{
}

/// A picture has something to show exactly if the alpha of some pixel, the
/// last of its four bytes, is above 8. Bytes beyond the last whole pixel do
/// not count.
pub proof fn law_what_shows_something(pixels: Seq<u8>, i: int, more: Seq<u8>)
    ensures
        0 <= i && 4 * i + 3 < pixels.len() && pixels[4 * i + 3] > 8 ==> any_visible(pixels),
        (forall|j: int| 0 <= j < pixels.len() && j % 4 == 3 ==> #[trigger] pixels[j] <= 8)
            ==> !any_visible(pixels),
        pixels.len() % 4 == 0 && more.len() < 4 ==> any_visible(pixels + more) == any_visible(
            pixels,
        ),
{
    if pixels.len() % 4 == 0 && more.len() < 4 {
        let all = pixels + more;
        assert(all.len() / 4 == pixels.len() / 4);
        assert forall|k: int| 0 <= k < pixels.len() / 4 implies #[trigger] all[4 * k + 3]
            == pixels[4 * k + 3] by {}
        if any_visible(all) {
            let k = choose|k: int| 0 <= k < all.len() / 4 && #[trigger] all[4 * k + 3] > FAINT;
            assert(pixels[4 * k + 3] > FAINT);
        }
        if any_visible(pixels) {
            let k = choose|k: int|
                0 <= k < pixels.len() / 4 && #[trigger] pixels[4 * k + 3] > FAINT;
            assert(all[4 * k + 3] > FAINT);
        }
    }
}

/// An import succeeds exactly if the pixels fill the picture, which is not
/// empty, and something is visible. Nothing visible is what is looked at
/// first.
pub proof fn law_what_can_be_imported(pixels: Seq<u8>, width: u32, height: u32)
    ensures
        refused(pixels, width, height) is None <==> any_visible(pixels) && width > 0 && height > 0
            && pixels.len() == width * height * 4,
        refused(pixels, width, height) == Some(ImportError::FullyTransparent) <==> !any_visible(
            pixels,
        ),
        refused(pixels, width, height) != Some(ImportError::Empty),
{
}

/// An imported picture is one frame of its own size at the path it was
/// written to, which floats and faces right.
pub proof fn law_entry_of_an_import(path: Seq<char>, width: u32, height: u32)
    ensures
        imported(path, width, height).path == path,
        imported(path, width, height).frame_width == width,
        imported(path, width, height).frame_height == height,
        imported(path, width, height).fps.bits == 0x3f80_0000,
        imported(path, width, height).mode == "floater"@,
        imported(path, width, height).facing == "right"@,
        picture(Seq::empty(), width, height).width == width,
        picture(Seq::empty(), width, height).height == height,
        forall|pixels: Seq<u8>| (#[trigger] picture(pixels, width, height)).data == pixels,
{
}

} // verus!
