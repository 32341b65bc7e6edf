//! What is drawn over the water in a frame.

use vstd::prelude::*;

use crate::atlas::WaterMode;
use crate::single::Single;

verus! {

/// A textured rectangle: centre and size on the surface, the corners of its
/// frame in the atlas, and the tilt, facing, clipping line and reflection
/// flag that the shader goes by.
#[derive(Debug, Clone, Copy)]
pub struct SpriteQuad {
    pub rect: [Single; 4],
    pub uv: [Single; 4],
    pub misc: [Single; 4],
}

/// A character, and its reflection if it has one.
#[derive(Debug, Clone, Copy)]
pub struct SpriteDraw {
    pub body: SpriteQuad,
    pub reflection: Option<SpriteQuad>,
}

/// Where a character is and how it shows.
#[derive(Debug, Clone, Copy)]
pub struct Placement {
    pub x: Single,
    pub y: Single,
    /// The height at which its reflection is centred.
    pub mirror_y: Single,
    pub w: Single,
    pub h: Single,
    pub uv: [Single; 4],
    pub tilt: Single,
    pub facing: Single,
    /// The height of the water at the character.
    pub waterline: Single,
}

/// The one of two values that applies to a character of this kind.
pub open spec fn chosen(mode: WaterMode, floater: Single, swimmer: Single) -> Single {
    match mode {
        WaterMode::Floater => floater,
        WaterMode::Swimmer => swimmer,
    }
}

/// The value that applies to a character of this kind.
pub fn by_mode(mode: WaterMode, floater: Single, swimmer: Single) -> (r: Single)
    ensures
        r == chosen(mode, floater, swimmer),
{
    match mode {
        WaterMode::Floater => floater,
        WaterMode::Swimmer => swimmer,
    }
}

/// Corners with top and bottom exchanged.
pub open spec fn flipped(uv: Seq<Single>) -> Seq<Single> {
    seq![uv[0], uv[3], uv[2], uv[1]]
}

/// 1 as a number.
pub const ONE: u32 = 0x3f80_0000;

/// The character itself. A floater fades out below the water, a swimmer is
/// under it anyway.
pub open spec fn body_of(mode: WaterMode, p: Placement, q: SpriteQuad) -> bool {
    let zero = Single { bits: 0 };
    &&& q.rect@ == seq![p.x, p.y, p.w, p.h]
    &&& q.uv@ == p.uv@
    &&& q.misc@ == seq![
        p.tilt,
        p.facing,
        match mode {
            WaterMode::Floater => p.waterline,
            WaterMode::Swimmer => zero,
        },
        zero,
    ]
}

/// A reflection: upside down, and tilted the other way.
pub open spec fn reflection_of(p: Placement, q: SpriteQuad) -> bool {
    let zero = Single { bits: 0 };
    &&& q.rect@ == seq![p.x, p.mirror_y, p.w, p.h]
    &&& q.uv@ == flipped(p.uv@)
    &&& q.misc@ == seq![p.tilt.negated(), p.facing, zero, Single { bits: ONE }]
}

/// A character and its reflection, which only floaters have.
pub open spec fn composed(mode: WaterMode, p: Placement, d: SpriteDraw) -> bool {
    &&& body_of(mode, p, d.body)
    &&& match d.reflection {
        Some(q) => mode is Floater && reflection_of(p, q),
        None => mode is Swimmer,
    }
}

/// What to draw for a character. Only floaters are reflected.
pub fn compose(mode: WaterMode, p: &Placement) -> (r: SpriteDraw)
    ensures
        composed(mode, *p, r),
{
    let zero = Single { bits: 0 };
    let clip = by_mode(mode, p.waterline, zero);
    let body = SpriteQuad {
        rect: [p.x, p.y, p.w, p.h],
        uv: p.uv,
        misc: [p.tilt, p.facing, clip, zero],
    };
    let reflection = match mode {
        WaterMode::Floater => Some(
            SpriteQuad {
                rect: [p.x, p.mirror_y, p.w, p.h],
                uv: [p.uv[0], p.uv[3], p.uv[2], p.uv[1]],
                misc: [p.tilt.negate(), p.facing, zero, Single { bits: ONE }],
            },
        ),
        WaterMode::Swimmer => None,
    };
    SpriteDraw { body, reflection }
}

impl SpriteDraw {
    /// The rectangles, those behind first.
    pub open spec fn in_order(self) -> Seq<SpriteQuad> {
        match self.reflection {
            Some(q) => seq![q, self.body],
            None => seq![self.body],
        }
    }

    /// The rectangles in the order in which they are drawn: the reflection,
    /// then the character on top of it.
    pub fn passes(&self) -> (r: Vec<SpriteQuad>)
        ensures
            r@ == self.in_order(),
    {
        let mut all: Vec<SpriteQuad> = Vec::new();
        if let Some(q) = self.reflection {
            all.push(q);
        }
        all.push(self.body);
        all
    }
}

/// A grid has another size than the one before.
pub open spec fn regrids(grid: (u32, u32), new_grid: (u32, u32)) -> bool {
    grid != new_grid
}

/// Whether the texture for the heights has to be made anew when a surface is
/// resized: only when its grid changes.
pub fn needs_height_texture(grid: (u32, u32), new_grid: (u32, u32)) -> (r: bool)
    ensures
        r == regrids(grid, new_grid),
{
    grid.0 != new_grid.0 || grid.1 != new_grid.1
}

/// Exchanging top and bottom twice changes nothing.
pub proof fn law_flip_twice(uv: Seq<Single>)
    requires
        uv.len() == 4,
    ensures
        flipped(flipped(uv)) == uv,
{
    assert(flipped(flipped(uv)) =~= uv);
}

/// A reflection is its character turned upside down: it has the same place
/// from left to right, the same size and the same direction, its picture has
/// top and bottom exchanged and its sides not, and it tilts the other way. It
/// is flagged as a reflection, and the character is not.
pub proof fn law_reflection_mirrors_the_body(
    mode: WaterMode,
    p: Placement,
    body: SpriteQuad,
    q: SpriteQuad,
)
    requires
        body_of(mode, p, body),
        reflection_of(p, q),
    ensures
        q.rect[0] == body.rect[0],
        q.rect[1] == p.mirror_y,
        q.rect[2] == body.rect[2],
        q.rect[3] == body.rect[3],
        q.uv[0] == body.uv[0],
        q.uv[1] == body.uv[3],
        q.uv[2] == body.uv[2],
        q.uv[3] == body.uv[1],
        q.misc[0] == body.misc[0].negated(),
        q.misc[1] == body.misc[1],
        q.misc[2].bits == 0,
        q.misc[3].bits == 0x3f80_0000,
        body.misc[3].bits == 0,
{
}

/// A character is drawn where it is placed, as large, tilted and turned as
/// it is. It is clipped at the water exactly if it floats.
pub proof fn law_body_is_where_it_is_placed(mode: WaterMode, p: Placement, body: SpriteQuad)
    requires
        body_of(mode, p, body),
    ensures
        body.rect[0] == p.x,
        body.rect[1] == p.y,
        body.rect[2] == p.w,
        body.rect[3] == p.h,
        forall|i: int| 0 <= i < 4 ==> #[trigger] body.uv[i] == p.uv[i],
        body.misc[0] == p.tilt,
        body.misc[1] == p.facing,
        mode is Floater ==> body.misc[2] == p.waterline,
        mode is Swimmer ==> body.misc[2].bits == 0,
{
    assert forall|i: int| 0 <= i < 4 implies #[trigger] body.uv[i] == p.uv[i] by {
        assert(body.uv@[i] == p.uv@[i]);
    }
}

/// A floater and nothing else has a reflection, which is drawn first; the
/// character itself is drawn last and once.
pub proof fn law_body_is_drawn_on_top(mode: WaterMode, p: Placement, d: SpriteDraw)
    requires
        composed(mode, p, d),
    ensures
        d.reflection is Some <==> mode is Floater,
        d.in_order().last() == d.body,
        d.in_order().len() == (if mode is Floater {
            2int
        } else {
            1
        }),
        d.reflection matches Some(q) ==> d.in_order().first() == q && reflection_of(p, q),
        body_of(mode, p, d.body),
{
}

/// Floaters and swimmers go by their own value, whatever the other one is.
pub proof fn law_values_by_mode(a: Single, b: Single)
    ensures
        chosen(WaterMode::Floater, a, b) == a,
        chosen(WaterMode::Swimmer, a, b) == b,
{
}

/// The texture stays as long as the grid keeps both its sizes, and only then.
pub proof fn law_texture_follows_the_grid(a: (u32, u32), b: (u32, u32))
    ensures
        !regrids(a, b) <==> a.0 == b.0 && a.1 == b.1,
        regrids(a, b) == regrids(b, a),
{
}

} // verus!
