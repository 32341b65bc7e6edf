//! Taskbars: their geometry, and the scan that lists them.
//!
//! Windows has one primary taskbar window and one secondary one per further
//! monitor.

use vstd::prelude::*;

verus! {

/// A rectangle of the screen; `right` and `bottom` lie just outside of it.
#[derive(Debug, Clone, Copy, PartialEq, Eq, Structural)]
pub struct Rect {
    pub left: i32,
    pub top: i32,
    pub right: i32,
    pub bottom: i32,
}

/// A taskbar as it was last seen. Its window is known by its handle.
#[derive(Debug, Clone, Copy, PartialEq, Eq, Structural)]
pub struct TaskbarInfo {
    pub hwnd: isize,
    pub rect: Rect,
    pub visible: bool,
    pub primary: bool,
}

impl TaskbarInfo {
    pub open spec fn wide(self) -> int {
        self.rect.right - self.rect.left
    }

    pub open spec fn high(self) -> int {
        self.rect.bottom - self.rect.top
    }

    /// Both extents fit 32 bits.
    pub open spec fn measurable(self) -> bool {
        i32::MIN <= self.wide() <= i32::MAX && i32::MIN <= self.high() <= i32::MAX
    }

    /// A visible horizontal bar of sane size.
    pub open spec fn fit_for_overlay(self) -> bool {
        self.visible && self.wide() > self.high() && 20 <= self.high() <= 200
    }

    /// Whether the bar can be measured.
    pub fn is_measurable(&self) -> (r: bool)
        ensures
            r == self.measurable(),
    {
        let width: i64 = self.rect.right as i64 - self.rect.left as i64;
        let height: i64 = self.rect.bottom as i64 - self.rect.top as i64;
        i32::MIN as i64 <= width && width <= i32::MAX as i64 && i32::MIN as i64 <= height && height
            <= i32::MAX as i64
    }

    pub fn width(&self) -> (r: i32)
        requires
            i32::MIN <= self.wide() <= i32::MAX,
        ensures
            r == self.wide(),
    {
        self.rect.right - self.rect.left
    }

    pub fn height(&self) -> (r: i32)
        requires
            i32::MIN <= self.high() <= i32::MAX,
        ensures
            r == self.high(),
    {
        self.rect.bottom - self.rect.top
    }

    /// Overlaying only makes sense for horizontal taskbars of sane size; the
    /// bar can also be docked vertically, and such bars are skipped.
    pub fn usable(&self) -> (r: bool)
        requires
            self.visible ==> self.measurable(),
        ensures
            r == self.fit_for_overlay(),
    {
        self.visible && self.width() > self.height() && self.height() >= 20 && self.height() <= 200
    }
}

/// What the scan needs next.
#[derive(Debug, Clone, Copy, PartialEq, Eq, Structural)]
pub enum ScanStep {
    /// Look for the window of the primary taskbar.
    FindPrimary,
    /// Measure this window.
    Measure { hwnd: isize, primary: bool },
    /// Look for the window of a secondary taskbar after this one.
    FindSecondary { after: Option<isize> },
    Done,
}

/// A scan for the taskbars that exist now. The program looks up and measures
/// windows as asked by `step` and reports what it got.
pub struct Scan {
    pub include_secondary: bool,
    pub step: ScanStep,
    pub bars: Vec<TaskbarInfo>,
}

/// Only the first bar of a list may be the primary one.
pub open spec fn primary_first(bars: Seq<TaskbarInfo>) -> bool {
    forall|i: int| 0 < i < bars.len() ==> !(#[trigger] bars[i]).primary
}

/// What the scan needs once the primary taskbar is dealt with.
pub open spec fn after_primary(include_secondary: bool) -> ScanStep {
    if include_secondary {
        ScanStep::FindSecondary { after: None }
    } else {
        ScanStep::Done
    }
}

/// What the scan needs after looking for a window gave `found`. A zero handle
/// is no window.
pub open spec fn step_after_find(
    include_secondary: bool,
    step: ScanStep,
    found: Option<isize>,
) -> ScanStep {
    match (step, found) {
        (ScanStep::FindPrimary, Some(hwnd)) => ScanStep::Measure { hwnd, primary: true },
        (ScanStep::FindPrimary, None) => after_primary(include_secondary),
        (ScanStep::FindSecondary { .. }, Some(hwnd)) => if hwnd == 0 {
            ScanStep::Done
        } else {
            ScanStep::Measure { hwnd, primary: false }
        },
        (ScanStep::FindSecondary { .. }, None) => ScanStep::Done,
        _ => step,
    }
}

/// What the scan needs after measuring a window.
pub open spec fn step_after_measure(include_secondary: bool, step: ScanStep) -> ScanStep {
    match step {
        ScanStep::Measure { hwnd, primary } => if primary {
            after_primary(include_secondary)
        } else {
            ScanStep::FindSecondary { after: Some(hwnd) }
        },
        _ => step,
    }
}

/// The bars after measuring a window gave `size`: its rectangle and whether
/// it is visible.
pub open spec fn bars_after_measure(
    bars: Seq<TaskbarInfo>,
    step: ScanStep,
    size: Option<(Rect, bool)>,
) -> Seq<TaskbarInfo> {
    match (step, size) {
        (ScanStep::Measure { hwnd, primary }, Some((rect, visible))) => bars.push(
            TaskbarInfo { hwnd, rect, visible, primary },
        ),
        _ => bars,
    }
}

impl Scan {
    /// The primary bar comes first, nothing precedes it, and there are
    /// secondary ones only if they were asked for.
    pub open spec fn wf(&self) -> bool {
        &&& primary_first(self.bars@)
        &&& self.step is FindPrimary ==> self.bars.len() == 0
        &&& self.step matches ScanStep::Measure { primary, .. } ==> if primary {
            self.bars.len() == 0
        } else {
            self.include_secondary
        }
        &&& self.step is FindSecondary ==> self.include_secondary
        &&& !self.include_secondary ==> self.bars.len() <= 1
        &&& !self.include_secondary ==> forall|i: int|
            0 <= i < self.bars.len() ==> (#[trigger] self.bars[i]).primary
    }

    pub fn new(include_secondary: bool) -> (r: Scan)
        ensures
            r.wf(),
            r.include_secondary == include_secondary,
            r.step == ScanStep::FindPrimary,
            r.bars@ == Seq::<TaskbarInfo>::empty(),
    {
        Scan { include_secondary, step: ScanStep::FindPrimary, bars: Vec::new() }
    }

    /// Reports what looking for a window gave.
    pub fn found(&mut self, hwnd: Option<isize>)
        requires
            old(self).wf(),
        ensures
            final(self).wf(),
            final(self).include_secondary == old(self).include_secondary,
            final(self).bars == old(self).bars,
            final(self).step == step_after_find(
                old(self).include_secondary,
                old(self).step,
                hwnd,
            ),
    {
        let next: ScanStep = match (self.step, hwnd) {
            (ScanStep::FindPrimary, Some(h)) => ScanStep::Measure { hwnd: h, primary: true },
            (ScanStep::FindPrimary, None) => if self.include_secondary {
                ScanStep::FindSecondary { after: None }
            } else {
                ScanStep::Done
            },
            (ScanStep::FindSecondary { .. }, Some(h)) => if h == 0 {
                ScanStep::Done
            } else {
                ScanStep::Measure { hwnd: h, primary: false }
            },
            (ScanStep::FindSecondary { .. }, None) => ScanStep::Done,
            _ => self.step,
        };
        self.step = next;
    }

    /// Reports what measuring a window gave: its rectangle and whether it is
    /// visible. A window that could not be measured is left out.
    pub fn measured(&mut self, size: Option<(Rect, bool)>)
        requires
            old(self).wf(),
        ensures
            final(self).wf(),
            final(self).include_secondary == old(self).include_secondary,
            final(self).bars@ == bars_after_measure(old(self).bars@, old(self).step, size),
            final(self).step == step_after_measure(old(self).include_secondary, old(self).step),
    {
        if let ScanStep::Measure { hwnd, primary } = self.step {
            if let Some((rect, visible)) = size {
                self.bars.push(TaskbarInfo { hwnd, rect, visible, primary });
            }
            self.step = if primary {
                if self.include_secondary {
                    ScanStep::FindSecondary { after: None }
                } else {
                    ScanStep::Done
                }
            } else {
                ScanStep::FindSecondary { after: Some(hwnd) }
            };
        }
    }
}

/// A bar that is fit for an overlay has an extent in both directions.
pub proof fn law_usable_has_extent(bar: TaskbarInfo)
    requires
        bar.fit_for_overlay(),
    ensures
        bar.wide() > 20,
        bar.high() >= 20,
{
}

/// Which bars get an overlay is a matter of visibility and size alone: where
/// a bar lies, which window it is and whether it is the primary one make no
/// difference.
pub proof fn law_usable_wherever_it_lies(a: TaskbarInfo, b: TaskbarInfo)
    requires
        a.visible == b.visible,
        a.rect.right - a.rect.left == b.rect.right - b.rect.left,
        a.rect.bottom - a.rect.top == b.rect.bottom - b.rect.top,
    ensures
        a.fit_for_overlay() == b.fit_for_overlay(),
        a.measurable() == b.measurable(),
        a.wide() == b.wide(),
        a.high() == b.high(),
{
}

/// Every visible bar of `width` by `height` pixels is usable if it is wider
/// than high and from 20 to 200 pixels high, wherever it lies.
pub proof fn law_sane_bars_are_usable(bar: TaskbarInfo, width: int, height: int)
    requires
        bar.visible,
        bar.rect.right == bar.rect.left + width,
        bar.rect.bottom == bar.rect.top + height,
        height < width,
        20 <= height <= 200,
    ensures
        bar.fit_for_overlay(),
{
}

/// Hidden bars, upright bars and bars of a size that no taskbar has are not
/// usable, and nothing else is refused.
pub proof fn law_what_makes_a_bar_unusable(bar: TaskbarInfo)
    ensures
        !bar.fit_for_overlay() <==> !bar.visible || bar.rect.right <= bar.rect.left + (
        bar.rect.bottom - bar.rect.top) || bar.rect.bottom < bar.rect.top + 20
            || bar.rect.bottom > bar.rect.top + 200,
{
}

/// What a whole scan of at most `steps` steps comes to, on a screen where
/// looking for the primary taskbar gives `primary`, looking for the secondary
/// one after another gives `next`, and measuring a window gives `size`.
pub open spec fn scanned(
    include_secondary: bool,
    step: ScanStep,
    bars: Seq<TaskbarInfo>,
    primary: Option<isize>,
    next: spec_fn(Option<isize>) -> Option<isize>,
    size: spec_fn(isize) -> Option<(Rect, bool)>,
    steps: nat,
) -> (ScanStep, Seq<TaskbarInfo>)
    decreases steps,
{
    if steps == 0 {
        (step, bars)
    } else {
        let less = (steps - 1) as nat;
        match step {
            ScanStep::FindPrimary => scanned(
                include_secondary,
                step_after_find(include_secondary, step, primary),
                bars,
                primary,
                next,
                size,
                less,
            ),
            ScanStep::FindSecondary { after } => scanned(
                include_secondary,
                step_after_find(include_secondary, step, next(after)),
                bars,
                primary,
                next,
                size,
                less,
            ),
            ScanStep::Measure { hwnd, .. } => scanned(
                include_secondary,
                step_after_measure(include_secondary, step),
                bars_after_measure(bars, step, size(hwnd)),
                primary,
                next,
                size,
                less,
            ),
            ScanStep::Done => (step, bars),
        }
    }
}

/// What is known of a window that was measured; nothing if it could not be.
pub open spec fn sight(
    hwnd: isize,
    primary: bool,
    size: spec_fn(isize) -> Option<(Rect, bool)>,
) -> Seq<TaskbarInfo> {
    match size(hwnd) {
        Some((rect, visible)) => seq![TaskbarInfo { hwnd, rect, visible, primary }],
        None => Seq::empty(),
    }
}

/// What is known of secondary taskbars, in order.
pub open spec fn sights(
    hwnds: Seq<isize>,
    size: spec_fn(isize) -> Option<(Rect, bool)>,
) -> Seq<TaskbarInfo>
    decreases hwnds.len(),
{
    if hwnds.len() == 0 {
        Seq::empty()
    } else {
        sight(hwnds[0], false, size) + sights(hwnds.drop_first(), size)
    }
}

/// Looking for one taskbar after another gives `hwnds`, in order, and then
/// none.
pub open spec fn lists(next: spec_fn(Option<isize>) -> Option<isize>, hwnds: Seq<isize>) -> bool {
    &&& next(None) == (if hwnds.len() == 0 {
        None::<isize>
    } else {
        Some(hwnds[0])
    })
    &&& forall|i: int|
        0 <= i < hwnds.len() ==> #[trigger] next(Some(hwnds[i])) == (if i + 1 < hwnds.len() {
            Some(hwnds[i + 1])
        } else {
            None::<isize>
        })
    &&& forall|i: int| 0 <= i < hwnds.len() ==> #[trigger] hwnds[i] != 0
}

/// The rest of a scan, from secondary taskbar `k` on.
proof fn lemma_rest_of_scan(
    bars: Seq<TaskbarInfo>,
    primary: Option<isize>,
    next: spec_fn(Option<isize>) -> Option<isize>,
    size: spec_fn(isize) -> Option<(Rect, bool)>,
    hwnds: Seq<isize>,
    k: int,
)
    requires
        lists(next, hwnds),
        0 <= k <= hwnds.len(),
    ensures
        scanned(
            true,
            ScanStep::FindSecondary {
                after: if k == 0 {
                    None
                } else {
                    Some(hwnds[k - 1])
                },
            },
            bars,
            primary,
            next,
            size,
            (2 * (hwnds.len() - k) + 1) as nat,
        ) == (ScanStep::Done, bars + sights(hwnds.skip(k), size)),
    decreases hwnds.len() - k,
{
    let rest = hwnds.skip(k);
    let after = if k == 0 {
        None
    } else {
        Some(hwnds[k - 1])
    };
    let look = ScanStep::FindSecondary { after };
    let steps = (2 * (hwnds.len() - k) + 1) as nat;
    if k > 0 {
        assert(next(Some(hwnds[k - 1])) == (if k < hwnds.len() {
            Some(hwnds[k])
        } else {
            None::<isize>
        }));
    }
    if k < hwnds.len() {
        let (seen, more) = (sight(hwnds[k], false, size), sights(hwnds.skip(k + 1), size));
        let measure = ScanStep::Measure { hwnd: hwnds[k], primary: false };
        let on = ScanStep::FindSecondary { after: Some(hwnds[k]) };
        assert(hwnds[k] != 0);
        assert(next(after) == Some(hwnds[k]));
        assert(step_after_find(true, look, next(after)) == measure);
        lemma_scan_looks(bars, primary, next, size, after, steps);
        assert(bars_after_measure(bars, measure, size(hwnds[k])) =~= bars + seen);
        lemma_scan_measures(bars, primary, next, size, hwnds[k], (steps - 1) as nat);
        lemma_rest_of_scan(bars + seen, primary, next, size, hwnds, k + 1);
        assert(rest.drop_first() =~= hwnds.skip(k + 1));
        assert(rest[0] == hwnds[k]);
        assert(bars + sights(rest, size) =~= (bars + seen) + more);
    } else {
        assert(next(after) == None::<isize>);
        lemma_scan_looks(bars, primary, next, size, after, steps);
        assert(bars + sights(rest, size) =~= bars);
    }
}

/// A step of a scan that looks for a secondary taskbar.
proof fn lemma_scan_looks(
    bars: Seq<TaskbarInfo>,
    primary: Option<isize>,
    next: spec_fn(Option<isize>) -> Option<isize>,
    size: spec_fn(isize) -> Option<(Rect, bool)>,
    after: Option<isize>,
    steps: nat,
)
    requires
        steps > 0,
    ensures
        scanned(true, ScanStep::FindSecondary { after }, bars, primary, next, size, steps)
            == scanned(
            true,
            step_after_find(true, ScanStep::FindSecondary { after }, next(after)),
            bars,
            primary,
            next,
            size,
            (steps - 1) as nat,
        ),
{
}

/// A step of a scan that measures a secondary taskbar.
proof fn lemma_scan_measures(
    bars: Seq<TaskbarInfo>,
    primary: Option<isize>,
    next: spec_fn(Option<isize>) -> Option<isize>,
    size: spec_fn(isize) -> Option<(Rect, bool)>,
    hwnd: isize,
    steps: nat,
)
    requires
        steps > 0,
    ensures
        scanned(
            true,
            ScanStep::Measure { hwnd, primary: false },
            bars,
            primary,
            next,
            size,
            steps,
        ) == scanned(
            true,
            ScanStep::FindSecondary { after: Some(hwnd) },
            bars_after_measure(bars, ScanStep::Measure { hwnd, primary: false }, size(hwnd)),
            primary,
            next,
            size,
            (steps - 1) as nat,
        ),
{
}

/// A scan lists every taskbar once: the primary one first, then, if they are
/// asked for, the secondary ones in the order in which they are found. Each
/// has the rectangle and the visibility that it was measured with, only the
/// primary one is marked as such, and windows that cannot be measured are
/// left out.
pub proof fn law_scan_lists_the_bars(
    include_secondary: bool,
    primary: Option<isize>,
    next: spec_fn(Option<isize>) -> Option<isize>,
    size: spec_fn(isize) -> Option<(Rect, bool)>,
    hwnds: Seq<isize>,
)
    requires
        lists(next, hwnds),
    ensures
        scanned(
            include_secondary,
            ScanStep::FindPrimary,
            Seq::empty(),
            primary,
            next,
            size,
            (2 * hwnds.len() + (if primary is Some {
                3int
            } else {
                2
            })) as nat,
        ) == (
            ScanStep::Done,
            (match primary {
                Some(hwnd) => sight(hwnd, true, size),
                None => Seq::empty(),
            }) + (if include_secondary {
                sights(hwnds, size)
            } else {
                Seq::empty()
            }),
        ),
{
    reveal_with_fuel(scanned, 4);
    let none = Seq::<TaskbarInfo>::empty();
    let seen = match primary {
        Some(hwnd) => sight(hwnd, true, size),
        None => none,
    };
    assert(hwnds.skip(0) =~= hwnds);
    lemma_rest_of_scan(seen, primary, next, size, hwnds, 0);
    if let Some(hwnd) = primary {
        let step = ScanStep::Measure { hwnd, primary: true };
        assert(bars_after_measure(none, step, size(hwnd)) =~= seen);
    }
    assert(seen + none =~= seen);
}

/// Bars can be measured exactly if neither extent exceeds 32 bits, which no
/// bar on a screen does.
pub proof fn law_bars_on_screens_are_measurable(bar: TaskbarInfo)
    ensures
        bar.wide() == bar.rect.right - bar.rect.left,
        bar.high() == bar.rect.bottom - bar.rect.top,
        -0x4000_0000 <= bar.rect.left <= 0x3fff_ffff && -0x4000_0000 <= bar.rect.right
            <= 0x3fff_ffff && -0x4000_0000 <= bar.rect.top <= 0x3fff_ffff && -0x4000_0000
            <= bar.rect.bottom <= 0x3fff_ffff ==> bar.measurable(),
        bar.measurable() <==> -0x8000_0000 <= bar.rect.right - bar.rect.left <= 0x7fff_ffff
            && -0x8000_0000 <= bar.rect.bottom - bar.rect.top <= 0x7fff_ffff,
{
}

/// A scan only listens to what it asked for: other reports change nothing. A
/// secondary taskbar without a handle ends the search like none at all.
pub proof fn law_scan_hears_what_it_asked(
    include_secondary: bool,
    step: ScanStep,
    bars: Seq<TaskbarInfo>,
    found: Option<isize>,
    size: Option<(Rect, bool)>,
)
    ensures
        step is Measure || step is Done ==> step_after_find(include_secondary, step, found) == step,
        !(step is Measure) ==> step_after_measure(include_secondary, step) == step
            && bars_after_measure(bars, step, size) == bars,
        step is FindSecondary ==> step_after_find(include_secondary, step, Some(0)) is Done,
        bars_after_measure(bars, step, None) == bars,
        bars_after_measure(bars, step, size).take(bars.len() as int) == bars,
        bars_after_measure(bars, step, size).len() <= bars.len() + 1,
{
    assert(bars_after_measure(bars, step, size).take(bars.len() as int) =~= bars);
}

} // verus!
