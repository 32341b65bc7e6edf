//! Interactive water: two height fields on a grid that is coarser than the
//! taskbar, stepped by the wave equation.
//!
//! The arithmetic on heights comes from the caller; which cells it reads, in
//! which order it runs and where its results go is settled here.

use vstd::prelude::*;

use crate::single::Single;

verus! {

/// Size of a cell in pixels.
pub const CELL: u32 = 2;

/// 0.
pub const LEVEL: u32 = 0;

/// 1.
pub const FULL: u32 = 0x3f80_0000;

/// 0.0001: ripples with less energy cannot be seen.
pub const CALM: u32 = 0x38d1_b717;

/// A pool of water.
pub struct RippleSim {
    pub width: u32,
    pub height: u32,
    pub curr: Vec<Single>,
    pub prev: Vec<Single>,
    /// An estimate of how much the water moves.
    pub energy: Single,
}

/// The larger of two sizes.
pub open spec fn at_least(size: int, least: int) -> int {
    if size > least {
        size
    } else {
        least
    }
}

/// Cells across a surface of this many pixels.
pub open spec fn columns(surface_w: u32) -> int {
    at_least(surface_w as int / 2, 8)
}

/// Cells down a surface of this many pixels.
pub open spec fn rows(surface_h: u32) -> int {
    at_least(surface_h as int / 2, 4)
}

/// The cell above, or the cell itself at the top edge.
pub open spec fn above(y: int) -> int {
    if y == 0 {
        0
    } else {
        y - 1
    }
}

/// The cell after, or the cell itself at the far edge.
pub open spec fn after(v: int, size: int) -> int {
    if v == size - 1 {
        v
    } else {
        v + 1
    }
}

/// `total` was reached from zero by adding the values one after the other.
pub open spec fn summed<S: Fn(Single, Single) -> Single>(
    sum: S,
    values: Seq<Single>,
    total: Single,
) -> bool
    decreases values.len(),
{
    if values.len() == 0 {
        total == (Single { bits: LEVEL })
    } else {
        exists|before: Single| #[trigger] call_ensures(sum, (before, values.last()), total)
            && summed(sum, values.drop_last(), before)
    }
}

impl RippleSim {
    /// The grid has its smallest size at least, and both fields cover it.
    pub open spec fn wf(&self) -> bool {
        &&& self.width >= 8
        &&& self.height >= 4
        &&& self.width * self.height <= u32::MAX
        &&& self.curr.len() == self.width * self.height
        &&& self.prev.len() == self.width * self.height
    }

    /// Where a cell is in a field.
    pub open spec fn cell(&self, x: int, y: int) -> int {
        y * self.width + x
    }

    pub open spec fn inside(&self, x: int, y: int) -> bool {
        0 <= x < self.width && 0 <= y < self.height
    }

    /// The height of the water at a cell.
    pub open spec fn level(&self, x: int, y: int) -> Single {
        self.curr[self.cell(x, y)]
    }

    /// The five heights that decide what a cell does next: its neighbours
    /// above, below, left and right, and what it was one step ago. At an edge
    /// a cell stands in for the neighbour that is not there.
    pub open spec fn around(&self, x: int, y: int) -> (Single, Single, Single, Single, Single) {
        (
            self.level(x, above(y)),
            self.level(x, after(y, self.height as int)),
            self.level(above(x), y),
            self.level(after(x, self.width as int), y),
            self.prev[self.cell(x, y)],
        )
    }

    /// Still water for a surface of this many pixels.
    pub open spec fn fresh(&self, surface_w: u32, surface_h: u32) -> bool {
        &&& self.wf()
        &&& self.width == columns(surface_w)
        &&& self.height == rows(surface_h)
        &&& forall|i: int|
            0 <= i < self.curr.len() ==> #[trigger] self.curr[i] == (Single { bits: LEVEL })
        &&& forall|i: int|
            0 <= i < self.prev.len() ==> #[trigger] self.prev[i] == (Single { bits: LEVEL })
        &&& self.energy == (Single { bits: LEVEL })
    }

    /// `now` is this water after a splash in the box from `(x0, y0)` to
    /// `(x1, y1)`.
    pub open spec fn splashed_to<D: Fn(u32, u32) -> Single, B: Fn(Single, Single) -> Single>(
        &self,
        now: RippleSim,
        x0: u32,
        y0: u32,
        x1: u32,
        y1: u32,
        distance: D,
        bump: B,
        energy: Single,
    ) -> bool {
        &&& now.width == self.width
        &&& now.height == self.height
        &&& now.prev@ == self.prev@
        &&& now.energy == energy
        &&& forall|x: int, y: int|
            self.inside(x, y) && !(x0 <= x <= x1 && y0 <= y <= y1) ==> #[trigger] now.level(x, y)
                == self.level(x, y)
        &&& forall|x: int, y: int|
            x0 <= x <= x1 && y0 <= y <= y1 ==> splashed(
                distance,
                bump,
                x as u32,
                y as u32,
                self.level(x, y),
                #[trigger] now.level(x, y),
            )
    }

    /// `now` is this water after a step.
    pub open spec fn stepped_to<R: Fn(Single, Single, Single, Single, Single) -> Single, S: Fn(
        Single,
        Single,
    ) -> Single>(&self, now: RippleSim, relax: R, sum: S) -> bool {
        &&& now.width == self.width
        &&& now.height == self.height
        &&& now.prev@ == self.curr@
        &&& forall|x: int, y: int|
            self.inside(x, y) ==> call_ensures(
                relax,
                self.around(x, y),
                #[trigger] now.level(x, y),
            )
        &&& summed(sum, now.curr@, now.energy)
    }

    /// The height in the middle row, at a column or at the last one.
    pub open spec fn middle(&self, column: u32) -> Single {
        self.level(
            if column < self.width {
                column as int
            } else {
                self.width - 1
            },
            self.height as int / 2,
        )
    }

    /// The ripples cannot be seen.
    pub open spec fn calm(&self) -> bool {
        self.energy.lt(Single { bits: CALM })
    }

    /// Whether [`RippleSim::new`] may be asked for a surface of this size.
    pub fn fits(surface_w: u32, surface_h: u32) -> (r: bool)
        ensures
            r == (columns(surface_w) * rows(surface_h) <= u32::MAX),
    {
        let mut width: u64 = (surface_w / CELL) as u64;
        if width < 8 {
            width = 8;
        }
        let mut height: u64 = (surface_h / CELL) as u64;
        if height < 4 {
            height = 4;
        }
        assert(0 <= width * height <= 0x8000_0000 * 0x8000_0000) by (nonlinear_arith)
            requires
                0 <= width <= 0x8000_0000,
                0 <= height <= 0x8000_0000,
        ;
        assert(width == columns(surface_w) && height == rows(surface_h));
        width * height <= u32::MAX as u64
    }

    /// Still water for a surface of this many pixels.
    pub fn new(surface_w: u32, surface_h: u32) -> (r: RippleSim)
        requires
            columns(surface_w) * rows(surface_h) <= u32::MAX,
        ensures
            r.wf(),
            r.fresh(surface_w, surface_h),
    {
        let mut width: u32 = surface_w / CELL;
        if width < 8 {
            width = 8;
        }
        let mut height: u32 = surface_h / CELL;
        if height < 4 {
            height = 4;
        }
        assert(width == columns(surface_w) && height == rows(surface_h));
        let n: usize = (width * height) as usize;
        let mut curr: Vec<Single> = Vec::new();
        let mut prev: Vec<Single> = Vec::new();
        let mut i: usize = 0;
        while i < n
            invariant
                i <= n,
                curr.len() == i,
                prev.len() == i,
                forall|k: int| 0 <= k < i ==> #[trigger] curr[k] == (Single { bits: LEVEL }),
                forall|k: int| 0 <= k < i ==> #[trigger] prev[k] == (Single { bits: LEVEL }),
            decreases n - i,
        {
            curr.push(Single { bits: LEVEL });
            prev.push(Single { bits: LEVEL });
            i = i + 1;
        }
        RippleSim { width, height, curr, prev, energy: Single { bits: LEVEL } }
    }

    /// Disturbs the cells from `(x0, y0)` to `(x1, y1)`, both included.
    /// `distance` tells how far a cell is from the centre, with 1 at the rim;
    /// every cell within the rim goes from its height to the one that `bump`
    /// makes of its distance and height. `energy` is the estimate afterwards.
    pub fn splash<D: Fn(u32, u32) -> Single, B: Fn(Single, Single) -> Single>(
        &mut self,
        x0: u32,
        y0: u32,
        x1: u32,
        y1: u32,
        distance: D,
        bump: B,
        energy: Single,
    )
        requires
            old(self).wf(),
            x1 < old(self).width,
            y1 < old(self).height,
            forall|x: u32, y: u32| call_requires(distance, (x, y)),
            forall|d: Single, v: Single| call_requires(bump, (d, v)),
        ensures
            final(self).wf(),
            old(self).splashed_to(*final(self), x0, y0, x1, y1, distance, bump, energy),
    {
        let ghost was = *self;
        self.energy = energy;
        let mut y: u32 = y0;
        while y <= y1
            invariant
                was.wf(),
                self.wf(),
                self.width == was.width,
                self.height == was.height,
                self.prev@ == was.prev@,
                self.energy == energy,
                y0 <= y,
                y <= y1 + 1 || y == y0,
                x1 < was.width,
                y1 < was.height,
                forall|x: u32, y: u32| call_requires(distance, (x, y)),
                forall|d: Single, v: Single| call_requires(bump, (d, v)),
                forall|u: int, v: int|
                    was.inside(u, v) && !(x0 <= u <= x1 && y0 <= v < y)
                        ==> #[trigger] self.level(u, v) == was.level(u, v),
                forall|u: int, v: int|
                    x0 <= u <= x1 && y0 <= v < y ==> splashed(
                        distance,
                        bump,
                        u as u32,
                        v as u32,
                        was.level(u, v),
                        #[trigger] self.level(u, v),
                    ),
            decreases y1 + 1 - y,
        {
            let mut x: u32 = x0;
            while x <= x1
                invariant
                    was.wf(),
                    self.wf(),
                    self.width == was.width,
                    self.height == was.height,
                    self.prev@ == was.prev@,
                    self.energy == energy,
                    y0 <= y <= y1,
                    x0 <= x,
                    x <= x1 + 1 || x == x0,
                    x1 < was.width,
                    y1 < was.height,
                    forall|x: u32, y: u32| call_requires(distance, (x, y)),
                    forall|d: Single, v: Single| call_requires(bump, (d, v)),
                    forall|u: int, v: int|
                        was.inside(u, v) && !(x0 <= u <= x1 && y0 <= v < y) && !(x0 <= u < x && v
                            == y) ==> #[trigger] self.level(u, v) == was.level(u, v),
                    forall|u: int, v: int|
                        (x0 <= u <= x1 && y0 <= v < y) || (x0 <= u < x && v == y) ==> splashed(
                            distance,
                            bump,
                            u as u32,
                            v as u32,
                            was.level(u, v),
                            #[trigger] self.level(u, v),
                        ),
                decreases x1 + 1 - x,
            {
                let d = distance(x, y);
                if d.is_below(Single { bits: FULL }) {
                    proof {
                        lemma_cell(self.width as int, self.height as int, x as int, y as int);
                    }
                    let i: usize = (y * self.width + x) as usize;
                    let level = bump(d, self.curr[i]);
                    let ghost before = *self;
                    assert(before.level(x as int, y as int) == was.level(x as int, y as int));
                    self.curr.set(i, level);
                    assert forall|u: int, v: int|
                        was.inside(u, v) && (u != x || v != y) implies #[trigger] self.level(u, v)
                        == before.level(u, v) by {
                        lemma_cell(self.width as int, self.height as int, u, v);
                        lemma_cells_apart(self.width as int, u, v, x as int, y as int);
                    }
                    assert(self.level(x as int, y as int) == level);
                    assert(call_ensures(bump, (d, was.level(x as int, y as int)), level));
                }
                assert(splashed(
                    distance,
                    bump,
                    x,
                    y,
                    was.level(x as int, y as int),
                    self.level(x as int, y as int),
                ));
                x = x + 1;
            }
            y = y + 1;
        }
    }

    /// One step of the wave equation. `relax` makes the next height of a cell
    /// from those around it, and `sum` adds a height's share to the energy,
    /// cell by cell along the rows.
    pub fn step<R: Fn(Single, Single, Single, Single, Single) -> Single, S: Fn(
        Single,
        Single,
    ) -> Single>(&mut self, relax: R, sum: S)
        requires
            old(self).wf(),
            forall|u: Single, d: Single, l: Single, r: Single, p: Single|
                call_requires(relax, (u, d, l, r, p)),
            forall|total: Single, v: Single| call_requires(sum, (total, v)),
        ensures
            final(self).wf(),
            old(self).stepped_to(*final(self), relax, sum),
    {
        let ghost was = *self;
        let w: usize = self.width as usize;
        let h: usize = self.height as usize;
        let mut next: Vec<Single> = Vec::new();
        let mut energy = Single { bits: LEVEL };
        let mut y: usize = 0;
        while y < h
            invariant
                *self == was,
                was.wf(),
                w == was.width,
                h == was.height,
                y <= h,
                next.len() == y * w,
                forall|u: Single, d: Single, l: Single, r: Single, p: Single|
                    call_requires(relax, (u, d, l, r, p)),
                forall|total: Single, v: Single| call_requires(sum, (total, v)),
                forall|u: int, v: int|
                    0 <= u < w && 0 <= v < y ==> call_ensures(
                        relax,
                        #[trigger] was.around(u, v),
                        next@[v * w + u],
                    ),
                summed(sum, next@, energy),
            decreases h - y,
        {
            let up_row: usize = if y == 0 {
                0
            } else {
                y - 1
            };
            let down_row: usize = if y == h - 1 {
                y
            } else {
                y + 1
            };
            proof {
                lemma_cell(w as int, h as int, 0, up_row as int);
                lemma_cell(w as int, h as int, 0, down_row as int);
                lemma_cell(w as int, h as int, 0, y as int);
            }
            let up: usize = up_row * w;
            let down: usize = down_row * w;
            let row: usize = y * w;
            let mut x: usize = 0;
            while x < w
                invariant
                    *self == was,
                    was.wf(),
                    w == was.width,
                    h == was.height,
                    y < h,
                    x <= w,
                    up_row == above(y as int),
                    down_row == after(y as int, h as int),
                    up == up_row * w,
                    down == down_row * w,
                    row == y * w,
                    next.len() == row + x,
                    forall|u: Single, d: Single, l: Single, r: Single, p: Single|
                        call_requires(relax, (u, d, l, r, p)),
                    forall|total: Single, v: Single| call_requires(sum, (total, v)),
                    forall|u: int, v: int|
                        (0 <= u < w && 0 <= v < y) || (0 <= u < x && v == y) ==> call_ensures(
                            relax,
                            #[trigger] was.around(u, v),
                            next@[v * w + u],
                        ),
                    summed(sum, next@, energy),
                decreases w - x,
            {
                proof {
                    lemma_cell(w as int, h as int, x as int, up_row as int);
                    lemma_cell(w as int, h as int, x as int, down_row as int);
                    lemma_cell(w as int, h as int, x as int, y as int);
                    lemma_cell(w as int, h as int, above(x as int), y as int);
                    lemma_cell(w as int, h as int, after(x as int, w as int), y as int);
                }
                let left: usize = if x == 0 {
                    row
                } else {
                    row + (x - 1)
                };
                let right: usize = if x == w - 1 {
                    row + x
                } else {
                    row + (x + 1)
                };
                let value = relax(
                    self.curr[up + x],
                    self.curr[down + x],
                    self.curr[left],
                    self.curr[right],
                    self.prev[row + x],
                );
                let ghost done = next@;
                let ghost so_far = energy;
                next.push(value);
                energy = sum(energy, value);
                proof {
                    lemma_summed(sum, done, so_far, value, energy);
                    assert(w * y == y * w) by (nonlinear_arith);
                    assert forall|u: int, v: int|
                        (0 <= u < w && 0 <= v < y) || (0 <= u < x + 1 && v == y) implies call_ensures(
                        relax,
                        #[trigger] was.around(u, v),
                        next@[v * w + u],
                    ) by {
                        if v < y {
                            lemma_cell(w as int, y as int, u, v);
                            assert(next@[v * w + u] == done[v * w + u]);
                        } else if u < x {
                            assert(next@[v * w + u] == done[v * w + u]);
                        }
                    }
                }
                x = x + 1;
            }
            assert((y + 1) * w == y * w + w) by (nonlinear_arith);
            y = y + 1;
        }
        let ghost fresh = next@;
        std::mem::swap(&mut self.curr, &mut next);
        self.prev = next;
        self.energy = energy;
        assert(h * w == was.width * was.height) by (nonlinear_arith)
            requires
                w == was.width,
                h == was.height,
        ;
        assert forall|x: int, y: int| was.inside(x, y) implies call_ensures(
            relax,
            was.around(x, y),
            #[trigger] self.level(x, y),
        ) by {
            assert(self.level(x, y) == fresh[y * w + x]);
            let seen = was.around(x, y);
        }
    }

    /// The height of the water in the middle row, at a column or at the last
    /// one.
    pub fn height_at(&self, column: u32) -> (r: Single)
        requires
            self.wf(),
        ensures
            r == self.middle(column),
    {
        let x: u32 = if column < self.width {
            column
        } else {
            self.width - 1
        };
        let y: u32 = self.height / 2;
        proof {
            lemma_cell(self.width as int, self.height as int, x as int, y as int);
        }
        self.curr[(y * self.width + x) as usize]
    }

    /// Whether the ripples have decayed below perception.
    pub fn is_calm(&self) -> (r: bool)
        ensures
            r == self.calm(),
    {
        self.energy.is_below(Single { bits: CALM })
    }

    /// The heights, row by row.
    pub fn field(&self) -> (r: &Vec<Single>)
        ensures
            r@ == self.curr@,
    {
        &self.curr
    }
}

/// Adding one more value.
proof fn lemma_summed<S: Fn(Single, Single) -> Single>(
    sum: S,
    values: Seq<Single>,
    before: Single,
    value: Single,
    total: Single,
)
    requires
        summed(sum, values, before),
        call_ensures(sum, (before, value), total),
    ensures
        summed(sum, values.push(value), total),
{
    assert(values.push(value).drop_last() =~= values);
    assert(call_ensures(sum, (before, values.push(value).last()), total));
}

/// What a splash makes of a cell within its box.
pub open spec fn splashed<D: Fn(u32, u32) -> Single, B: Fn(Single, Single) -> Single>(
    distance: D,
    bump: B,
    x: u32,
    y: u32,
    was: Single,
    now: Single,
) -> bool {
    exists|d: Single| #[trigger] call_ensures(distance, (x, y), d) && if d.lt(Single { bits: FULL }) {
        call_ensures(bump, (d, was), now)
    } else {
        now == was
    }
}

/// Still water stays still: as long as the arithmetic makes level water out of
/// level water, stepping a level pool leaves it level.
pub proof fn law_still_water_stays<R: Fn(Single, Single, Single, Single, Single) -> Single>(
    relax: R,
    was: RippleSim,
    now: RippleSim,
    x: int,
    y: int,
)
    requires
        was.wf(),
        now.wf(),
        now.width == was.width,
        now.height == was.height,
        forall|i: int| 0 <= i < was.curr.len() ==> #[trigger] was.curr[i] == (Single { bits: LEVEL }),
        forall|i: int| 0 <= i < was.prev.len() ==> #[trigger] was.prev[i] == (Single { bits: LEVEL }),
        forall|x: int, y: int|
            was.inside(x, y) ==> call_ensures(
                relax,
                was.around(x, y),
                #[trigger] now.level(x, y),
            ),
        forall|v: Single|
            call_ensures(
                relax,
                (
                    Single { bits: LEVEL },
                    Single { bits: LEVEL },
                    Single { bits: LEVEL },
                    Single { bits: LEVEL },
                    Single { bits: LEVEL },
                ),
                v,
            ) ==> v == (Single { bits: LEVEL }),
        was.inside(x, y),
    ensures
        now.level(x, y) == (Single { bits: LEVEL }),
{
    let (w, h) = (was.width as int, was.height as int);
    lemma_cell(w, h, x, y);
    lemma_cell(w, h, x, above(y));
    lemma_cell(w, h, x, after(y, h));
    lemma_cell(w, h, above(x), y);
    lemma_cell(w, h, after(x, w), y);
    let v = now.level(x, y);
}

/// Cells of the grid lie in the field.
pub proof fn lemma_cell(width: int, height: int, x: int, y: int)
    requires
        0 <= x < width,
        0 <= y < height,
    ensures
        0 <= y * width,
        0 <= y * width + x < width * height,
        y * width <= width * height,
{
    assert(0 <= y * width && y * width + width <= width * height) by (nonlinear_arith)
        requires
            0 <= x < width,
            0 <= y < height,
    ;
}

/// Different cells lie at different places of a field.
pub proof fn lemma_cells_apart(width: int, x: int, y: int, u: int, v: int)
    requires
        0 <= x < width,
        0 <= u < width,
        x != u || y != v,
    ensures
        y * width + x != v * width + u,
{
    assert(y * width + x != v * width + u) by (nonlinear_arith)
        requires
            0 <= x < width,
            0 <= u < width,
            x != u || y != v,
    ;
}

// ---- laws of the grid -----------------------------------------------------

/// A cell is two pixels wide and high: the grid covers its surface but for an
/// odd pixel, and small surfaces get eight by four cells. Every surface of up
/// to 65535 pixels either way has a grid.
pub proof fn law_grid_covers_the_surface(surface_w: u32, surface_h: u32)
    ensures
        surface_w >= 16 ==> 2 * columns(surface_w) <= surface_w <= 2 * columns(surface_w) + 1,
        surface_w < 16 ==> columns(surface_w) == 8,
        surface_h >= 8 ==> 2 * rows(surface_h) <= surface_h <= 2 * rows(surface_h) + 1,
        surface_h < 8 ==> rows(surface_h) == 4,
        surface_w <= 65535 && surface_h <= 65535 ==> columns(surface_w) * rows(surface_h)
            <= u32::MAX,
{
    if surface_w <= 65535 && surface_h <= 65535 {
        let (w, h) = (columns(surface_w), rows(surface_h));
        assert(w * h <= 32767 * 32767) by (nonlinear_arith)
            requires
                0 <= w <= 32767,
                0 <= h <= 32767,
        ;
    }
}

/// New water is still and level everywhere, in a grid of its surface's size.
pub proof fn law_new_water_is_still(surface_w: u32, surface_h: u32, r: RippleSim, x: int, y: int)
    requires
        r.fresh(surface_w, surface_h),
        r.inside(x, y),
    ensures
        r.width == columns(surface_w),
        r.height == rows(surface_h),
        r.level(x, y).bits == 0,
        r.prev[y * r.width + x].bits == 0,
        r.calm(),
        forall|column: u32| (#[trigger] r.middle(column)).bits == 0,
{
    lemma_cell(r.width as int, r.height as int, x, y);
    assert forall|column: u32| (#[trigger] r.middle(column)).bits == 0 by {
        let c = if column < r.width {
            column as int
        } else {
            r.width - 1
        };
        lemma_cell(r.width as int, r.height as int, c, r.height as int / 2);
    }
}

/// Away from the edges a step makes a cell's next height from the four cells
/// next to it, above, below, left and right in this order, and from what the
/// cell was a step before. What the water was becomes what it was a step
/// before.
pub proof fn law_step_looks_at_the_neighbours<
    R: Fn(Single, Single, Single, Single, Single) -> Single,
    S: Fn(Single, Single) -> Single,
>(relax: R, sum: S, was: RippleSim, now: RippleSim, x: int, y: int)
    requires
        was.wf(),
        was.stepped_to(now, relax, sum),
        0 < x < was.width - 1,
        0 < y < was.height - 1,
    ensures
        ({
            let at = y * was.width + x;
            call_ensures(
                relax,
                (
                    was.curr[at - was.width],
                    was.curr[at + was.width],
                    was.curr[at - 1],
                    was.curr[at + 1],
                    was.prev[at],
                ),
                now.curr[at],
            )
        }),
        now.prev@ == was.curr@,
        now.width == was.width,
        now.height == was.height,
{
    let w = was.width as int;
    assert((y - 1) * w + x == y * w + x - w) by (nonlinear_arith);
    assert((y + 1) * w + x == y * w + x + w) by (nonlinear_arith);
    let level = now.level(x, y);
    assert(was.inside(x, y));
    assert(call_ensures(relax, was.around(x, y), level));
}

/// At an edge a cell stands in for the neighbour that is not there, so that
/// waves are thrown back; the other neighbours are those of any cell.
pub proof fn law_edges_throw_waves_back<
    R: Fn(Single, Single, Single, Single, Single) -> Single,
    S: Fn(Single, Single) -> Single,
>(relax: R, sum: S, was: RippleSim, now: RippleSim, x: int, y: int)
    requires
        was.wf(),
        was.stepped_to(now, relax, sum),
        0 <= x < was.width,
        0 <= y < was.height,
    ensures
        ({
            let at = y * was.width + x;
            exists|up: Single, down: Single, left: Single, right: Single|
                {
                    &&& #[trigger] call_ensures(
                        relax,
                        (up, down, left, right, was.prev[at]),
                        now.curr[at],
                    )
                    &&& up == if y == 0 {
                        was.curr[at]
                    } else {
                        was.curr[at - was.width]
                    }
                    &&& down == if y + 1 == was.height {
                        was.curr[at]
                    } else {
                        was.curr[at + was.width]
                    }
                    &&& left == if x == 0 {
                        was.curr[at]
                    } else {
                        was.curr[at - 1]
                    }
                    &&& right == if x + 1 == was.width {
                        was.curr[at]
                    } else {
                        was.curr[at + 1]
                    }
                }
        }),
{
    let w = was.width as int;
    assert((y - 1) * w + x == y * w + x - w) by (nonlinear_arith);
    assert((y + 1) * w + x == y * w + x + w) by (nonlinear_arith);
    let level = now.level(x, y);
    assert(was.inside(x, y));
    let seen = was.around(x, y);
    assert(call_ensures(relax, (seen.0, seen.1, seen.2, seen.3, seen.4), level));
}

/// The energy after a step is the sum over all cells, row by row from zero:
/// one more cell adds its share to the sum of those before.
pub proof fn law_energy_is_a_sum<S: Fn(Single, Single) -> Single>(
    sum: S,
    values: Seq<Single>,
    value: Single,
    before: Single,
    total: Single,
)
    ensures
        summed(sum, Seq::empty(), total) <==> total.bits == 0,
        summed(sum, values, before) && call_ensures(sum, (before, value), total) ==> summed(
            sum,
            values.push(value),
            total,
        ),
        summed(sum, values.push(value), total) ==> exists|t: Single| #[trigger]
            call_ensures(sum, (t, value), total) && summed(sum, values, t),
{
    assert(values.push(value).drop_last() =~= values);
    assert(values.push(value).last() == value);
    if summed(sum, values, before) && call_ensures(sum, (before, value), total) {
        lemma_summed(sum, values, before, value, total);
    }
}

/// The energy of a step is that of all its cells.
pub proof fn law_step_sums_all_cells<
    R: Fn(Single, Single, Single, Single, Single) -> Single,
    S: Fn(Single, Single) -> Single,
>(relax: R, sum: S, was: RippleSim, now: RippleSim)
    requires
        was.stepped_to(now, relax, sum),
    ensures
        summed(sum, now.curr@, now.energy),
{
}

/// A splash changes the cells of its box that lie within the rim, the last
/// column and the last row of the box included, to what `bump` makes of
/// their distance and height. No other cell changes, nothing of the step
/// before does, and the energy is what it was told to be.
pub proof fn law_splash_stays_within_its_rim<
    D: Fn(u32, u32) -> Single,
    B: Fn(Single, Single) -> Single,
>(
    distance: D,
    bump: B,
    was: RippleSim,
    now: RippleSim,
    x0: u32,
    y0: u32,
    x1: u32,
    y1: u32,
    energy: Single,
    x: u32,
    y: u32,
    d: Single,
)
    requires
        was.wf(),
        was.splashed_to(now, x0, y0, x1, y1, distance, bump, energy),
        x < was.width,
        y < was.height,
        forall|e: Single| call_ensures(distance, (x, y), e) ==> e == d,
    ensures
        ({
            let at = y * was.width + x;
            let hit = x0 <= x <= x1 && y0 <= y <= y1 && d.lt(Single { bits: 0x3f80_0000 });
            &&& hit ==> call_ensures(bump, (d, was.curr[at]), now.curr[at])
            &&& !hit ==> now.curr[at] == was.curr[at]
            &&& now.prev@ == was.prev@
            &&& now.energy == energy
            &&& now.width == was.width
            &&& now.height == was.height
        }),
{
    assert(was.inside(x as int, y as int));
    let level = now.level(x as int, y as int);
    assert(was.level(x as int, y as int) == was.curr[y * was.width + x]);
}

/// What a character feels is the height in the middle row, at its column and
/// past the last column at that one.
pub proof fn law_height_is_that_of_the_middle_row(pool: RippleSim, column: u32)
    requires
        pool.wf(),
    ensures
        column < pool.width ==> pool.middle(column) == pool.curr[(pool.height / 2) * pool.width
            + column],
        column >= pool.width ==> pool.middle(column) == pool.middle((pool.width - 1) as u32),
{
}

/// Water is calm exactly while its energy is below a ten-thousandth, so that
/// less energy is calm too.
pub proof fn law_calm(a: RippleSim, b: RippleSim)
    ensures
        a.calm() && b.energy.le(a.energy) ==> b.calm(),
        a.calm() <==> a.energy.lt(Single { bits: 0x38d1_b717 }),
{
}

} // verus!
