//! RGBA images: cropping and finding what is visible in them.

use vstd::arithmetic::div_mod::lemma_fundamental_div_mod_converse;
use vstd::prelude::*;

verus! {

/// A pixel counts as visible when its alpha is above this.
pub const FAINT: u8 = 8;

/// What an [`Image`] shows.
pub struct Picture {
    pub width: int,
    pub height: int,
    pub data: Seq<u8>,
}

impl Picture {
    /// Where the four bytes of the pixel in column `x` of row `y` begin.
    pub open spec fn offset(self, x: int, y: int) -> int {
        (y * self.width + x) * 4
    }

    /// Channel `c` (red, green, blue, alpha) of a pixel.
    pub open spec fn channel(self, x: int, y: int, c: int) -> u8 {
        self.data[self.offset(x, y) + c]
    }

    pub open spec fn inside(self, x: int, y: int) -> bool {
        0 <= x < self.width && 0 <= y < self.height
    }

    /// A pixel of the image that is not (nearly) transparent.
    pub open spec fn visible(self, x: int, y: int) -> bool {
        self.inside(x, y) && self.channel(x, y, 3) > FAINT
    }

    /// Every pixel has its four bytes, and their positions fit 32 bits.
    pub open spec fn sound(self) -> bool {
        &&& self.width >= 0
        &&& self.height >= 0
        &&& self.width * self.height * 4 <= self.data.len()
        &&& self.width * self.height * 4 <= 0x1_0000_0000
    }

    /// The `w` by `h` part of the picture whose top left pixel is at `x`, `y`.
    pub open spec fn cropped(self, x: int, y: int, w: int, h: int) -> Picture {
        Picture {
            width: w,
            height: h,
            data: Seq::new(
                (w * h * 4) as nat,
                |k: int| self.data[self.offset(x, y + k / (4 * w)) + k % (4 * w)],
            ),
        }
    }

    /// The part lies inside the picture.
    pub open spec fn holds(self, x: int, y: int, w: int, h: int) -> bool {
        x + w <= self.width && y + h <= self.height
    }

    /// Whether the part can be cut out: its size and the place of its last
    /// row fit 32 bits, and the picture has the bytes of that row.
    pub open spec fn croppable(self, x: int, y: int, w: int, h: int) -> bool {
        &&& x + w <= u32::MAX
        &&& y + h <= u32::MAX
        &&& x + w <= self.width && y + h <= self.height ==> {
            &&& w * h * 4 <= u32::MAX
            &&& h > 0 ==> self.offset(x, y + h - 1) <= u32::MAX
            &&& h > 0 ==> self.offset(x + w, y + h - 1) <= self.data.len()
        }
    }
}

/// A rectangle of pixels: the left column, the top row, width and height.
#[derive(Debug, Clone, Copy, PartialEq, Eq, Structural)]
pub struct Area {
    pub x: u32,
    pub y: u32,
    pub w: u32,
    pub h: u32,
}

impl Area {
    pub open spec fn has(self, x: int, y: int) -> bool {
        self.x <= x < self.x + self.w && self.y <= y < self.y + self.h
    }
}

/// `a` is the smallest area that holds every visible pixel of `p`: it holds
/// them all, and a visible pixel lies on each of its four sides.
pub open spec fn tight(p: Picture, a: Area) -> bool {
    &&& forall|x: int, y: int| #[trigger] p.visible(x, y) ==> a.has(x, y)
    &&& exists|x: int, y: int| #[trigger] p.visible(x, y) && x == a.x
    &&& exists|x: int, y: int| #[trigger] p.visible(x, y) && x == a.x + a.w - 1
    &&& exists|x: int, y: int| #[trigger] p.visible(x, y) && y == a.y
    &&& exists|x: int, y: int| #[trigger] p.visible(x, y) && y == a.y + a.h - 1
}

/// Nothing in `p` is visible.
pub open spec fn blank(p: Picture) -> bool {
    forall|x: int, y: int| !#[trigger] p.visible(x, y)
}

/// An image cannot be cut as asked.
#[derive(Debug, Clone, Copy, PartialEq, Eq, Structural)]
pub struct OutOfBounds;

/// Pixels in rows from the top, four bytes each: red, green, blue, alpha.
pub struct Image {
    pub width: u32,
    pub height: u32,
    pub data: Vec<u8>,
}

impl View for Image {
    type V = Picture;

    open spec fn view(&self) -> Picture {
        Picture { width: self.width as int, height: self.height as int, data: self.data@ }
    }
}

/// Pixels in earlier rows, or further left, begin at earlier bytes.
pub proof fn lemma_offset_bound(width: int, x: int, y: int, height: int)
    requires
        0 <= x < width,
        0 <= y < height,
    ensures
        0 <= (y * width + x) * 4,
        (y * width + x) * 4 + 4 <= width * height * 4,
        0 <= y * width,
        y * width + x < width * height,
{
    assert(0 <= y * width && y * width + x + 1 <= width * height) by (nonlinear_arith)
        requires
            0 <= x < width,
            0 <= y < height,
    ;
}

/// The product of two numbers of at most 2^32 is at most 2^64.
pub proof fn lemma_product(a: int, b: int)
    requires
        0 <= a <= 0x1_0000_0000,
        0 <= b <= 0x1_0000_0000,
    ensures
        0 <= a * b <= 0x1_0000_0000 * 0x1_0000_0000,
{
    assert(0 <= a * b <= 0x1_0000_0000 * 0x1_0000_0000) by (nonlinear_arith)
        requires
            0 <= a <= 0x1_0000_0000,
            0 <= b <= 0x1_0000_0000,
    ;
}

impl Image {
    /// Whether every pixel has its four bytes, at positions that fit 32 bits.
    pub fn is_sound(&self) -> (r: bool)
        ensures
            r == self@.sound(),
    {
        proof {
            lemma_product(self.width as int, self.height as int);
        }
        let size: u128 = self.width as u128 * self.height as u128 * 4;
        size <= self.data.len() as u128 && size <= 0x1_0000_0000
    }

    /// Whether [`Image::crop`] may be asked for this part.
    pub fn can_crop(&self, x: u32, y: u32, w: u32, h: u32) -> (r: bool)
        ensures
            r == self@.croppable(x as int, y as int, w as int, h as int),
    {
        let limit: u64 = u32::MAX as u64;
        if x as u64 + w as u64 > limit || y as u64 + h as u64 > limit {
            return false;
        }
        if x + w > self.width || y + h > self.height {
            return true;
        }
        proof {
            lemma_product(w as int, h as int);
        }
        if w as u128 * h as u128 * 4 > limit as u128 {
            return false;
        }
        if h == 0 {
            return true;
        }
        proof {
            lemma_product((y + h - 1) as int, self.width as int);
        }
        let row: u128 = (y + h - 1) as u128 * self.width as u128;
        (row + x as u128) * 4 <= limit as u128 && (row + (x + w) as u128) * 4
            <= self.data.len() as u128
    }

    /// Cuts out the `w` by `h` part whose top left pixel is at `x`, `y`.
    pub fn crop(&self, x: u32, y: u32, w: u32, h: u32) -> (r: Result<Image, OutOfBounds>)
        requires
            self@.croppable(x as int, y as int, w as int, h as int),
        ensures
            r is Err <==> !self@.holds(x as int, y as int, w as int, h as int),
            r matches Ok(part) ==> part@ == self@.cropped(x as int, y as int, w as int, h as int),
    {
        if x + w > self.width || y + h > self.height {
            return Err(OutOfBounds);
        }
        let ghost goal = self@.cropped(x as int, y as int, w as int, h as int).data;
        proof {
            assert(0 <= w * h && w * h * 4 == h * (4 * w)) by (nonlinear_arith)
                requires
                    w >= 0,
                    h >= 0,
            ;
            if h > 0 {
                assert(w <= w * h) by (nonlinear_arith)
                    requires
                        w >= 0,
                        h >= 1,
                ;
            }
        }
        let mut data: Vec<u8> = Vec::new();
        let mut row: u32 = 0;
        while row < h
            invariant
                row <= h,
                h > 0 ==> w * 4 <= u32::MAX,
                x + w <= self.width,
                y + h <= self.height,
                h > 0 ==> self@.offset(x as int, y + h - 1) <= u32::MAX,
                h > 0 ==> self@.offset(x + w, y + h - 1) <= self.data.len(),
                goal == self@.cropped(x as int, y as int, w as int, h as int).data,
                data.len() == row * (4 * w),
                data.len() <= goal.len(),
                goal.len() == h * (4 * w),
                forall|j: int| 0 <= j < data.len() ==> data[j] == goal[j],
            decreases h - row,
        {
            proof {
                assert(self@.offset(x as int, y + row) <= self@.offset(x as int, y + h - 1))
                    by (nonlinear_arith)
                    requires
                        self@.offset(x as int, y + row) == ((y + row) * self.width + x) * 4,
                        self@.offset(x as int, y + h - 1) == ((y + h - 1) * self.width + x) * 4,
                        row <= h - 1,
                        self.width >= 0,
                ;
                assert(0 <= (y + row) * self.width) by (nonlinear_arith)
                    requires
                        y + row >= 0,
                        self.width >= 0,
                ;
                assert(self@.offset(x as int, y + row) + 4 * w <= self.data.len())
                    by (nonlinear_arith)
                    requires
                        self@.offset(x as int, y + row) == ((y + row) * self.width + x) * 4,
                        self@.offset(x + w, y + h - 1) == ((y + h - 1) * self.width + x + w) * 4,
                        self@.offset(x + w, y + h - 1) <= self.data.len(),
                        row <= h - 1,
                        self.width >= 0,
                ;
                assert((row + 1) * (4 * w) == row * (4 * w) + 4 * w) by (nonlinear_arith);
                assert((row + 1) * (4 * w) <= h * (4 * w)) by (nonlinear_arith)
                    requires
                        row + 1 <= h,
                        w >= 0,
                ;
            }
            let start: usize = (((y + row) * self.width + x) * 4) as usize;
            let len: usize = (w * 4) as usize;
            let mut k: usize = 0;
            while k < len
                invariant
                    k <= len,
                    len == 4 * w,
                    row < h,
                    start == self@.offset(x as int, y + row),
                    start + len <= self.data.len(),
                    goal == self@.cropped(x as int, y as int, w as int, h as int).data,
                    data.len() == row * (4 * w) + k,
                    row * (4 * w) + 4 * w <= goal.len(),
                    forall|j: int| 0 <= j < data.len() ==> data[j] == goal[j],
                decreases len - k,
            {
                proof {
                    let j = data.len() as int;
                    lemma_fundamental_div_mod_converse(j, 4 * w as int, row as int, k as int);
                    assert(goal[j] == self.data[start + k]);
                }
                data.push(self.data[start + k]);
                k = k + 1;
            }
            row = row + 1;
        }
        let part = Image { width: w, height: h, data };
        proof {
            assert(part@.data =~= goal);
        }
        Ok(part)
    }

    /// The smallest area with everything visible in it; none when the image
    /// is blank.
    pub fn alpha_bounds(&self) -> (r: Option<Area>)
        requires
            self@.sound(),
        ensures
            r is None <==> blank(self@),
            r matches Some(a) ==> tight(self@, a) && a.w > 0 && a.h > 0
                && a.x + a.w <= self.width && a.y + a.h <= self.height,
    {
        let ghost p = self@;
        let mut found: Option<(u32, u32, u32, u32)> = None;
        let mut y: u32 = 0;
        while y < self.height
            invariant
                y <= self.height,
                p == self@,
                p.sound(),
                seen(p, found, self.width as int, y as int - 1, self.width as int),
            decreases self.height - y,
        {
            let mut x: u32 = 0;
            proof {
                assert(seen(p, found, self.width as int, y as int, 0));
            }
            while x < self.width
                invariant
                    x <= self.width,
                    y < self.height,
                    p == self@,
                    p.sound(),
                    seen(p, found, self.width as int, y as int, x as int),
                decreases self.width - x,
            {
                proof {
                    lemma_offset_bound(self.width as int, x as int, y as int, self.height as int);
                    assert(p.inside(x as int, y as int));
                }
                let i: usize = ((y * self.width + x) * 4 + 3) as usize;
                if self.data[i] > FAINT {
                    proof {
                        assert(p.visible(x as int, y as int));
                    }
                    found = match found {
                        None => Some((x, y, x, y)),
                        Some((x0, y0, x1, y1)) => Some(
                            (
                                if x < x0 { x } else { x0 },
                                if y < y0 { y } else { y0 },
                                if x > x1 { x } else { x1 },
                                if y > y1 { y } else { y1 },
                            ),
                        ),
                    };
                } else {
                    assert(!p.visible(x as int, y as int));
                }
                x = x + 1;
            }
            y = y + 1;
        }
        match found {
            None => {
                assert forall|px: int, py: int| !#[trigger] p.visible(px, py) by {}
                None
            },
            Some((x0, y0, x1, y1)) => {
                let a = Area { x: x0, y: y0, w: x1 - x0 + 1, h: y1 - y0 + 1 };
                Some(a)
            },
        }
    }
}

/// The pixels before column `upto` of row `row` (all of the rows above it
/// included) have been looked at: `found` spans the visible ones among them.
spec fn seen(
    p: Picture,
    found: Option<(u32, u32, u32, u32)>,
    width: int,
    row: int,
    upto: int,
) -> bool {
    match found {
        None => forall|x: int, y: int|
            #[trigger] p.visible(x, y) ==> !(y < row || (y == row && x < upto)),
        Some((x0, y0, x1, y1)) => {
            &&& forall|x: int, y: int| #[trigger]
                p.visible(x, y) && (y < row || (y == row && x < upto)) ==> x0 <= x <= x1 && y0 <= y
                    <= y1
            &&& exists|x: int, y: int| #[trigger] p.visible(x, y) && x == x0
            &&& exists|x: int, y: int| #[trigger] p.visible(x, y) && x == x1
            &&& exists|x: int, y: int| #[trigger] p.visible(x, y) && y == y0
            &&& exists|x: int, y: int| #[trigger] p.visible(x, y) && y == y1
        },
    }
}

/// Cutting a part out of a picture moves its pixels and changes none: what
/// was at `x + u`, `y + v` is at `u`, `v`.
pub proof fn law_cropping_keeps_pixels(
    p: Picture,
    x: int,
    y: int,
    w: int,
    h: int,
    u: int,
    v: int,
    c: int,
)
    requires
        0 <= u < w,
        0 <= v < h,
        0 <= c < 4,
    ensures
        p.cropped(x, y, w, h).width == w,
        p.cropped(x, y, w, h).height == h,
        p.cropped(x, y, w, h).data.len() == w * h * 4,
        p.cropped(x, y, w, h).data[(v * w + u) * 4 + c] == p.data[((y + v) * p.width + x + u) * 4
            + c],
{
    let k = (v * w + u) * 4 + c;
    let line = 4 * w;
    lemma_offset_bound(w, u, v, h);
    assert(k == v * line + (u * 4 + c)) by (nonlinear_arith)
        requires
            k == (v * w + u) * 4 + c,
            line == 4 * w,
    ;
    vstd::arithmetic::div_mod::lemma_fundamental_div_mod_converse(k, line, v, u * 4 + c);
    assert(p.cropped(x, y, w, h).data[k] == p.data[p.offset(x, y + v) + (u * 4 + c)]);
}

/// A pixel counts as visible exactly if it lies in the picture and its alpha,
/// the last of its four bytes, is above 8.
pub proof fn law_what_is_visible(p: Picture, x: int, y: int)
    ensures
        p.visible(x, y) <==> 0 <= x < p.width && 0 <= y < p.height && p.data[(y * p.width + x) * 4
            + 3] > 8,
{
}

/// What is visible lies inside the bounds of a picture, and a picture without
/// bounds has nothing visible: no alpha in it is above 8.
pub proof fn law_bounds_hold_what_is_visible(p: Picture, a: Area, x: int, y: int)
    requires
        0 <= x < p.width,
        0 <= y < p.height,
    ensures
        tight(p, a) && p.data[(y * p.width + x) * 4 + 3] > 8 ==> a.x <= x < a.x + a.w && a.y <= y
            < a.y + a.h,
        blank(p) ==> p.data[(y * p.width + x) * 4 + 3] <= 8,
        (forall|u: int, v: int|
            0 <= u < p.width && 0 <= v < p.height ==> #[trigger] p.data[(v * p.width + u) * 4 + 3]
                <= 8) ==> blank(p),
{
    if tight(p, a) && p.data[(y * p.width + x) * 4 + 3] > 8 {
        assert(p.visible(x, y));
    }
    if blank(p) {
        assert(!p.visible(x, y));
    }
    if forall|u: int, v: int|
        0 <= u < p.width && 0 <= v < p.height ==> #[trigger] p.data[(v * p.width + u) * 4 + 3]
            <= 8 {
        assert forall|u: int, v: int| !#[trigger] p.visible(u, v) by {
            if p.inside(u, v) {
                assert(p.data[(v * p.width + u) * 4 + 3] <= 8);
            }
        }
    }
}

/// The bounds of a picture are the smallest area with everything visible:
/// they lie inside the picture and inside every other such area.
pub proof fn law_bounds_are_smallest(p: Picture, a: Area, b: Area)
    requires
        tight(p, a),
        forall|x: int, y: int| #[trigger] p.visible(x, y) ==> b.has(x, y),
    ensures
        b.x <= a.x,
        b.y <= a.y,
        a.x + a.w <= b.x + b.w,
        a.y + a.h <= b.y + b.h,
        0 <= a.x && a.x + a.w <= p.width,
        0 <= a.y && a.y + a.h <= p.height,
        a.w > 0 && a.h > 0,
        tight(p, b) ==> a == b,
        !blank(p),
{
    let (x0, y0) = choose|x: int, y: int| #[trigger] p.visible(x, y) && x == a.x;
    let (x1, y1) = choose|x: int, y: int| #[trigger] p.visible(x, y) && x == a.x + a.w - 1;
    let (x2, y2) = choose|x: int, y: int| #[trigger] p.visible(x, y) && y == a.y;
    let (x3, y3) = choose|x: int, y: int| #[trigger] p.visible(x, y) && y == a.y + a.h - 1;
    assert(p.visible(x0, y0) && p.visible(x1, y1) && p.visible(x2, y2) && p.visible(x3, y3));
    assert(b.has(x0, y0) && b.has(x1, y1) && b.has(x2, y2) && b.has(x3, y3));
    assert(a.has(x0, y0));
    if tight(p, b) {
        let (s0, t0) = choose|x: int, y: int| #[trigger] p.visible(x, y) && x == b.x;
        let (s1, t1) = choose|x: int, y: int| #[trigger] p.visible(x, y) && x == b.x + b.w - 1;
        let (s2, t2) = choose|x: int, y: int| #[trigger] p.visible(x, y) && y == b.y;
        let (s3, t3) = choose|x: int, y: int| #[trigger] p.visible(x, y) && y == b.y + b.h - 1;
        assert(p.visible(s0, t0) && p.visible(s1, t1) && p.visible(s2, t2) && p.visible(s3, t3));
        assert(a.has(s0, t0) && a.has(s1, t1) && a.has(s2, t2) && a.has(s3, t3));
    }
}

/// A part lies inside a picture exactly if its corners do: with it lies every
/// smaller part from the same corner, the whole picture is a part of itself,
/// and nothing that sticks out to the right or at the bottom is.
pub proof fn law_parts_of_a_picture(p: Picture, x: int, y: int, w: int, h: int, u: int, v: int)
    ensures
        p.holds(0, 0, p.width, p.height),
        p.holds(x, y, w, h) && u <= w && v <= h ==> p.holds(x, y, u, v),
        x + w > p.width || y + h > p.height ==> !p.holds(x, y, w, h),
        x + w <= p.width && y + h <= p.height ==> p.holds(x, y, w, h),
{
}

/// Every part of a complete picture whose bytes 32 bits can count can be cut
/// out, and for a part that sticks out the question can be asked.
pub proof fn law_ordinary_parts_can_be_cut(p: Picture, x: int, y: int, w: int, h: int)
    requires
        0 <= x,
        0 <= y,
        0 <= w,
        0 <= h,
        x + w <= u32::MAX,
        y + h <= u32::MAX,
        p.data.len() == p.width * p.height * 4,
        p.width * p.height * 4 <= u32::MAX,
    ensures
        p.croppable(x, y, w, h),
{
    if x + w <= p.width && y + h <= p.height {
        assert(w * h * 4 <= p.width * p.height * 4) by (nonlinear_arith)
            requires
                0 <= w <= p.width,
                0 <= h <= p.height,
        ;
        if h > 0 {
            let (last, right) = (y + h - 1, x + w);
            assert((last * p.width + right) * 4 <= p.width * p.height * 4) by (nonlinear_arith)
                requires
                    0 <= last < p.height,
                    0 <= right <= p.width,
            ;
            assert(p.offset(x, last) <= p.offset(right, last));
        }
    }
}

} // verus!
