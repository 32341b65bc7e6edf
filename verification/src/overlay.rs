//! Overlay windows: one on top of each usable taskbar.
//!
//! [`Overlays`] knows the taskbar under each overlay. The program owns the
//! windows themselves, in the same order, and carries out what is planned
//! here.

use vstd::prelude::*;

use crate::message::{HTTRANSPARENT, MA_NOACTIVATE, WM_MOUSEACTIVATE, WM_NCHITTEST};
use crate::taskbar::TaskbarInfo;

verus! {

/// The taskbars that have an overlay, as they were when it was last placed.
pub struct Overlays {
    pub infos: Vec<TaskbarInfo>,
}

/// What to do about one taskbar.
#[derive(Debug, Clone, Copy, PartialEq, Eq, Structural)]
pub enum BarPlan {
    /// Nothing: the bar is hidden or vertical, and has no overlay.
    Skip,
    /// Hide the overlay at `index`: its bar is hidden or vertical now.
    Hide { index: usize },
    /// Put the overlay at `index` back in place and on top, and resize its
    /// water if the bar was resized.
    Refresh { index: usize, resized: bool },
    /// Create an overlay.
    Create,
}

/// A bar of the list is this window.
pub open spec fn present(bars: Seq<TaskbarInfo>, hwnd: isize) -> bool {
    exists|j: int| 0 <= j < bars.len() && (#[trigger] bars[j]).hwnd == hwnd
}

/// The bar at `i` is the first of the list that is this window.
pub open spec fn first_at(bars: Seq<TaskbarInfo>, hwnd: isize, i: int) -> bool {
    &&& 0 <= i < bars.len()
    &&& bars[i].hwnd == hwnd
    &&& forall|j: int| 0 <= j < i ==> (#[trigger] bars[j]).hwnd != hwnd
}

/// No window occurs twice.
pub open spec fn distinct(bars: Seq<TaskbarInfo>) -> bool {
    forall|i: int, j: int|
        0 <= i < j < bars.len() ==> (#[trigger] bars[i]).hwnd != (#[trigger] bars[j]).hwnd
}

/// The plan for `bar` while the bars of `infos` have overlays.
pub open spec fn planned(infos: Seq<TaskbarInfo>, bar: TaskbarInfo, plan: BarPlan) -> bool {
    match plan {
        BarPlan::Skip => !bar.fit_for_overlay() && !present(infos, bar.hwnd),
        BarPlan::Hide { index } => !bar.fit_for_overlay() && first_at(
            infos,
            bar.hwnd,
            index as int,
        ),
        BarPlan::Refresh { index, resized } => {
            &&& bar.fit_for_overlay()
            &&& first_at(infos, bar.hwnd, index as int)
            &&& resized == (infos[index as int].wide() != bar.wide() || infos[index as int].high()
                != bar.high())
        },
        BarPlan::Create => bar.fit_for_overlay() && !present(infos, bar.hwnd),
    }
}

/// The bars with overlays once the plan for `bar` was carried out. `ok` says
/// whether creating or resizing worked; an overlay that could not be created
/// does not exist, and one that could not be resized keeps its old bar.
pub open spec fn settled(
    infos: Seq<TaskbarInfo>,
    bar: TaskbarInfo,
    plan: BarPlan,
    ok: bool,
) -> Seq<TaskbarInfo> {
    match plan {
        BarPlan::Skip => infos,
        BarPlan::Hide { index } => infos.update(index as int, bar),
        BarPlan::Refresh { index, resized } => if resized && !ok {
            infos
        } else {
            infos.update(index as int, bar)
        },
        BarPlan::Create => if ok {
            infos.push(bar)
        } else {
            infos
        },
    }
}

impl Overlays {
    pub fn new() -> (r: Overlays)
        ensures
            r.infos@ == Seq::<TaskbarInfo>::empty(),
    {
        Overlays { infos: Vec::new() }
    }

    /// Forgets every overlay: their windows are gone.
    pub fn clear(&mut self)
        ensures
            final(self).infos@ == Seq::<TaskbarInfo>::empty(),
    {
        self.infos = Vec::new();
    }

    /// Drops the overlays whose taskbar vanished. The result says of each
    /// overlay that there was whether it stays.
    pub fn retain(&mut self, bars: &Vec<TaskbarInfo>) -> (keep: Vec<bool>)
        ensures
            keep@ == kept(old(self).infos@, bars@),
            final(self).infos@ == retained(old(self).infos@, bars@),
    {
        let ghost was = self.infos@;
        let ghost stays = |o: TaskbarInfo| present(bars@, o.hwnd);
        let mut kept: Vec<TaskbarInfo> = Vec::new();
        let mut keep: Vec<bool> = Vec::new();
        let mut i: usize = 0;
        assert(was.take(0).filter(stays) =~= Seq::<TaskbarInfo>::empty()) by {
            reveal(Seq::filter);
        }
        while i < self.infos.len()
            invariant
                i <= self.infos.len(),
                self.infos@ == was,
                stays == (|o: TaskbarInfo| present(bars@, o.hwnd)),
                keep.len() == i,
                forall|k: int|
                    0 <= k < i ==> #[trigger] keep[k] == present(bars@, was[k].hwnd),
                kept@ == was.take(i as int).filter(stays),
            decreases self.infos.len() - i,
        {
            let o = self.infos[i];
            let there = contains(bars, o.hwnd);
            proof {
                assert(was.take(i + 1).drop_last() =~= was.take(i as int));
                reveal(Seq::filter);
            }
            if there {
                kept.push(o);
            }
            keep.push(there);
            i = i + 1;
        }
        assert(was.take(i as int) =~= was);
        assert(keep@ =~= self::kept(was, bars@));
        self.infos = kept;
        keep
    }

    /// What to do about `bar`.
    pub fn plan(&self, bar: &TaskbarInfo) -> (r: BarPlan)
        requires
            bar.visible ==> bar.measurable(),
            bar.fit_for_overlay() ==> forall|i: int|
                first_at(self.infos@, bar.hwnd, i) ==> (#[trigger] self.infos[i]).measurable(),
        ensures
            planned(self.infos@, *bar, r),
    {
        match position(&self.infos, bar.hwnd) {
            Some(index) => if bar.usable() {
                let was = self.infos[index];
                assert(first_at(self.infos@, bar.hwnd, index as int));
                let resized = was.width() != bar.width() || was.height() != bar.height();
                BarPlan::Refresh { index, resized }
            } else {
                BarPlan::Hide { index }
            },
            None => if bar.usable() {
                BarPlan::Create
            } else {
                BarPlan::Skip
            },
        }
    }

    /// Notes that the plan for `bar` was carried out, and whether creating or
    /// resizing the overlay worked.
    pub fn settle(&mut self, bar: &TaskbarInfo, plan: BarPlan, ok: bool)
        requires
            planned(old(self).infos@, *bar, plan),
        ensures
            final(self).infos@ == settled(old(self).infos@, *bar, plan, ok),
    {
        match plan {
            BarPlan::Skip => {},
            BarPlan::Hide { index } => {
                self.infos.set(index, *bar);
            },
            BarPlan::Refresh { index, resized } => {
                if !resized || ok {
                    self.infos.set(index, *bar);
                }
            },
            BarPlan::Create => {
                if ok {
                    self.infos.push(*bar);
                }
            },
        }
    }
}

fn position(infos: &Vec<TaskbarInfo>, hwnd: isize) -> (r: Option<usize>)
    ensures
        match r {
            Some(i) => first_at(infos@, hwnd, i as int),
            None => !present(infos@, hwnd),
        },
{
    let mut i: usize = 0;
    while i < infos.len()
        invariant
            i <= infos.len(),
            forall|j: int| 0 <= j < i ==> (#[trigger] infos[j]).hwnd != hwnd,
        decreases infos.len() - i,
    {
        if infos[i].hwnd == hwnd {
            return Some(i);
        }
        i = i + 1;
    }
    None
}

fn contains(bars: &Vec<TaskbarInfo>, hwnd: isize) -> (r: bool)
    ensures
        r == present(bars@, hwnd),
{
    match position(bars, hwnd) {
        Some(i) => {
            assert(bars[i as int].hwnd == hwnd);
            true
        },
        None => false,
    }
}

/// The answer of an overlay window to a message, if it has one of its own.
pub open spec fn reply_to(msg: u32) -> Option<isize> {
    if msg == WM_NCHITTEST {
        Some(HTTRANSPARENT)
    } else if msg == WM_MOUSEACTIVATE {
        Some(MA_NOACTIVATE)
    } else {
        None
    }
}

/// How an overlay window answers a message itself: every point of it counts
/// as transparent, and a click on it activates nothing. Other messages get
/// the default treatment.
pub fn reply(msg: u32) -> (r: Option<isize>)
    ensures
        r == reply_to(msg),
{
    if msg == WM_NCHITTEST {
        Some(HTTRANSPARENT)
    } else if msg == WM_MOUSEACTIVATE {
        Some(MA_NOACTIVATE)
    } else {
        None
    }
}

/// Whether the shell has reordered top-level windows since this was last
/// asked, which may have put a taskbar above its overlay.
#[derive(Debug, Clone, Copy, PartialEq, Eq, Structural)]
pub struct RaiseRequests {
    pub pending: bool,
}

impl RaiseRequests {
    pub fn none() -> (r: RaiseRequests)
        ensures
            !r.pending,
    {
        RaiseRequests { pending: false }
    }

    /// The requests after an event of the shell.
    pub open spec fn noted(self, object: i32) -> RaiseRequests {
        RaiseRequests { pending: self.pending || object == 0 }
    }

    /// The requests after the overlays were raised.
    pub open spec fn met(self) -> RaiseRequests {
        RaiseRequests { pending: false }
    }

    /// Notes an event of the shell. Only those of whole windows count: what
    /// happens to an object inside a window cannot change the order.
    pub fn note(&mut self, object: i32)
        ensures
            *final(self) == old(self).noted(object),
    {
        if object == 0 {
            self.pending = true;
        }
    }

    /// Whether to raise the overlays now. Any number of events before costs
    /// one raise.
    pub fn take_raise_request(&mut self) -> (r: bool)
        ensures
            r == old(self).pending,
            *final(self) == old(self).met(),
    {
        let pending = self.pending;
        self.pending = false;
        pending
    }
}

// ---- laws -----------------------------------------------------------------

/// The bars with overlays once `bar` was dealt with and everything worked.
pub open spec fn stepped(infos: Seq<TaskbarInfo>, bar: TaskbarInfo) -> Seq<TaskbarInfo> {
    if present(infos, bar.hwnd) {
        infos.update(choose|i: int| first_at(infos, bar.hwnd, i), bar)
    } else if bar.fit_for_overlay() {
        infos.push(bar)
    } else {
        infos
    }
}

/// The bars with overlays once all of `bars` were dealt with, from the first
/// on, and everything worked.
pub open spec fn reconciled(infos: Seq<TaskbarInfo>, bars: Seq<TaskbarInfo>) -> Seq<TaskbarInfo>
    decreases bars.len(),
{
    if bars.len() == 0 {
        infos
    } else {
        stepped(reconciled(infos, bars.drop_last()), bars.last())
    }
}

/// A window that is in the list has a first place there.
proof fn lemma_first_at(infos: Seq<TaskbarInfo>, hwnd: isize) -> (i: int)
    requires
        present(infos, hwnd),
    ensures
        first_at(infos, hwnd, i),
{
    let j = choose|j: int| 0 <= j < infos.len() && (#[trigger] infos[j]).hwnd == hwnd;
    lemma_first_before(infos, hwnd, j)
}

proof fn lemma_first_before(infos: Seq<TaskbarInfo>, hwnd: isize, j: int) -> (i: int)
    requires
        0 <= j < infos.len(),
        infos[j].hwnd == hwnd,
    ensures
        first_at(infos, hwnd, i),
    decreases j,
{
    if forall|k: int| 0 <= k < j ==> (#[trigger] infos[k]).hwnd != hwnd {
        j
    } else {
        let k = choose|k: int| 0 <= k < j && (#[trigger] infos[k]).hwnd == hwnd;
        lemma_first_before(infos, hwnd, k)
    }
}

/// Carrying out a plan keeps the windows distinct, whether or not it works.
pub proof fn law_settling_keeps_distinct(
    infos: Seq<TaskbarInfo>,
    bar: TaskbarInfo,
    plan: BarPlan,
    ok: bool,
)
    requires
        distinct(infos),
        planned(infos, bar, plan),
    ensures
        distinct(settled(infos, bar, plan, ok)),
{
    let after = settled(infos, bar, plan, ok);
    assert forall|i: int, j: int| 0 <= i < j < after.len() implies (#[trigger] after[i]).hwnd != (
    #[trigger] after[j]).hwnd by {
        if i < infos.len() && j < infos.len() {
            assert(infos[i].hwnd != infos[j].hwnd);
        }
    }
}

/// Carrying out the plan for a bar with success is the step for that bar.
pub proof fn law_settling_is_a_step(infos: Seq<TaskbarInfo>, bar: TaskbarInfo, plan: BarPlan)
    requires
        planned(infos, bar, plan),
    ensures
        settled(infos, bar, plan, true) == stepped(infos, bar),
{
    match plan {
        BarPlan::Hide { index } => {
            assert(infos[index as int].hwnd == bar.hwnd);
            let i = choose|i: int| first_at(infos, bar.hwnd, i);
            assert(first_at(infos, bar.hwnd, index as int));
            assert(i == index);
        },
        BarPlan::Refresh { index, .. } => {
            assert(infos[index as int].hwnd == bar.hwnd);
            let i = choose|i: int| first_at(infos, bar.hwnd, i);
            assert(first_at(infos, bar.hwnd, index as int));
            assert(i == index);
        },
        _ => {},
    }
}

/// A step leaves the windows distinct, gives a usable bar its overlay as it
/// is now, and touches no other bar.
proof fn lemma_step(infos: Seq<TaskbarInfo>, bar: TaskbarInfo)
    requires
        distinct(infos),
    ensures
        distinct(stepped(infos, bar)),
        stepped(infos, bar).contains(bar) <==> bar.fit_for_overlay() || present(infos, bar.hwnd),
        forall|o: TaskbarInfo| #[trigger]
            stepped(infos, bar).contains(o) ==> o == bar || (infos.contains(o) && o.hwnd
                != bar.hwnd),
        forall|o: TaskbarInfo| #[trigger]
            infos.contains(o) && o.hwnd != bar.hwnd ==> stepped(infos, bar).contains(o),
{
    let after = stepped(infos, bar);
    if present(infos, bar.hwnd) {
        let f = lemma_first_at(infos, bar.hwnd);
        let i = choose|i: int| first_at(infos, bar.hwnd, i);
        assert(first_at(infos, bar.hwnd, i));
        assert(after[i] == bar);
        assert forall|o: TaskbarInfo| #[trigger] after.contains(o) implies o == bar || (
        infos.contains(o) && o.hwnd != bar.hwnd) by {
            let k = choose|k: int| 0 <= k < after.len() && after[k] == o;
            if k != i {
                assert(infos[k] == o);
                assert(infos[i].hwnd == bar.hwnd);
                if k < i {
                    assert(infos[k].hwnd != infos[i].hwnd);
                } else {
                    assert(infos[i].hwnd != infos[k].hwnd);
                }
            }
        }
        assert forall|o: TaskbarInfo| #[trigger] infos.contains(o) && o.hwnd != bar.hwnd implies after.contains(o) by {
            let k = choose|k: int| 0 <= k < infos.len() && infos[k] == o;
            assert(after[k] == o);
        }
        assert forall|x: int, y: int| 0 <= x < y < after.len() implies (#[trigger] after[x]).hwnd
            != (#[trigger] after[y]).hwnd by {
            assert(infos[x].hwnd != infos[y].hwnd);
        }
    } else if bar.fit_for_overlay() {
        assert(after.last() == bar);
        assert forall|o: TaskbarInfo| #[trigger] after.contains(o) implies o == bar || (
        infos.contains(o) && o.hwnd != bar.hwnd) by {
            let k = choose|k: int| 0 <= k < after.len() && after[k] == o;
            if k < infos.len() {
                assert(infos[k] == o);
            }
        }
        assert forall|o: TaskbarInfo| #[trigger] infos.contains(o) && o.hwnd != bar.hwnd implies after.contains(o) by {
            let k = choose|k: int| 0 <= k < infos.len() && infos[k] == o;
            assert(after[k] == o);
        }
        assert forall|x: int, y: int| 0 <= x < y < after.len() implies (#[trigger] after[x]).hwnd
            != (#[trigger] after[y]).hwnd by {
            if y < infos.len() {
                assert(infos[x].hwnd != infos[y].hwnd);
            }
        }
    } else {
        assert forall|o: TaskbarInfo| #[trigger] infos.contains(o) implies o.hwnd != bar.hwnd by {
            let k = choose|k: int| 0 <= k < infos.len() && infos[k] == o;
            assert(infos[k].hwnd != bar.hwnd);
        }
    }
}

/// Which of the bars of `infos` still exist.
pub open spec fn kept(infos: Seq<TaskbarInfo>, bars: Seq<TaskbarInfo>) -> Seq<bool> {
    Seq::new(infos.len(), |i: int| present(bars, infos[i].hwnd))
}

/// The bars of `infos` that still exist.
pub open spec fn retained(infos: Seq<TaskbarInfo>, bars: Seq<TaskbarInfo>) -> Seq<TaskbarInfo> {
    infos.filter(|o: TaskbarInfo| present(bars, o.hwnd))
}

/// Dropping vanished bars keeps the windows distinct and leaves just those
/// that exist.
proof fn lemma_retained(infos: Seq<TaskbarInfo>, bars: Seq<TaskbarInfo>)
    requires
        distinct(infos),
    ensures
        distinct(retained(infos, bars)),
        forall|o: TaskbarInfo| #[trigger]
            retained(infos, bars).contains(o) ==> infos.contains(o) && present(bars, o.hwnd),
        forall|o: TaskbarInfo| #[trigger]
            infos.contains(o) && present(bars, o.hwnd) ==> retained(infos, bars).contains(o),
    decreases infos.len(),
{
    reveal(Seq::filter);
    if infos.len() > 0 {
        let front = infos.drop_last();
        assert forall|x: int, y: int| 0 <= x < y < front.len() implies (#[trigger] front[x]).hwnd
            != (#[trigger] front[y]).hwnd by {
            assert(infos[x].hwnd != infos[y].hwnd);
        }
        lemma_retained(front, bars);
        let before = retained(front, bars);
        let after = retained(infos, bars);
        assert forall|x: int| 0 <= x < before.len() implies (#[trigger] before[x]).hwnd
            != infos.last().hwnd && infos.contains(before[x]) by {
            assert(before.contains(before[x]));
            let k = choose|k: int| 0 <= k < front.len() && front[k] == before[x];
            assert(infos[k].hwnd != infos[infos.len() - 1].hwnd);
            assert(infos[k] == before[x]);
        }
        assert forall|o: TaskbarInfo| #[trigger] after.contains(o) implies infos.contains(o)
            && present(bars, o.hwnd) by {
            if before.contains(o) {
                let k = choose|k: int| 0 <= k < before.len() && before[k] == o;
                assert(infos.contains(before[k]));
            } else {
                assert(o == infos[infos.len() - 1]);
            }
        }
        assert forall|o: TaskbarInfo| #[trigger] infos.contains(o) && present(bars, o.hwnd) implies after.contains(o) by {
            let k = choose|k: int| 0 <= k < infos.len() && infos[k] == o;
            if k < front.len() {
                assert(front[k] == o);
                assert(front.contains(o));
                let j = choose|j: int| 0 <= j < before.len() && before[j] == o;
                assert(after[j] == o);
            } else {
                assert(after.last() == o);
            }
        }
    }
}

/// After a successful reconciliation the overlays match the taskbars. Every
/// overlay knows a bar that exists as it is now, and no bar has two. The bars
/// with an overlay are the usable ones, and those that had one before, whose
/// overlay is hidden.
pub proof fn law_overlays_match_bars(infos: Seq<TaskbarInfo>, bars: Seq<TaskbarInfo>)
    requires
        distinct(infos),
        distinct(bars),
    ensures
        distinct(reconciled(retained(infos, bars), bars)),
        forall|o: TaskbarInfo| #[trigger]
            reconciled(retained(infos, bars), bars).contains(o) ==> bars.contains(o),
        forall|b: TaskbarInfo| #[trigger]
            bars.contains(b) ==> (reconciled(retained(infos, bars), bars).contains(b)
                <==> b.fit_for_overlay() || present(infos, b.hwnd)),
{
    let kept = retained(infos, bars);
    lemma_retained(infos, bars);
    lemma_reconciled(kept, bars);
    let after = reconciled(kept, bars);
    assert forall|b: TaskbarInfo| #[trigger] bars.contains(b) implies (after.contains(b)
        <==> b.fit_for_overlay() || present(infos, b.hwnd)) by {
        let k = choose|k: int| 0 <= k < bars.len() && bars[k] == b;
        assert(present(bars, bars[k].hwnd));
        if present(infos, b.hwnd) {
            let i = choose|i: int| 0 <= i < infos.len() && (#[trigger] infos[i]).hwnd == b.hwnd;
            assert(infos.contains(infos[i]) && present(bars, infos[i].hwnd));
            let j = choose|j: int| 0 <= j < kept.len() && kept[j] == infos[i];
            assert(kept[j].hwnd == b.hwnd);
        }
        if present(kept, b.hwnd) {
            let j = choose|j: int| 0 <= j < kept.len() && (#[trigger] kept[j]).hwnd == b.hwnd;
            assert(kept.contains(kept[j]));
            let i = choose|i: int| 0 <= i < infos.len() && infos[i] == kept[j];
            assert(infos[i].hwnd == b.hwnd);
        }
    }
}

/// Without taskbars, or while overlays are switched off, none stays.
pub proof fn law_no_bars_no_overlays(infos: Seq<TaskbarInfo>)
    ensures
        reconciled(retained(infos, Seq::empty()), Seq::empty()) == Seq::<TaskbarInfo>::empty(),
    decreases infos.len(),
{
    reveal(Seq::filter);
    if infos.len() > 0 {
        law_no_bars_no_overlays(infos.drop_last());
    }
}

/// Which bars have an overlay in the end, and as what.
proof fn lemma_reconciled(infos: Seq<TaskbarInfo>, bars: Seq<TaskbarInfo>)
    requires
        distinct(infos),
        distinct(bars),
    ensures
        distinct(reconciled(infos, bars)),
        forall|b: TaskbarInfo| #[trigger]
            bars.contains(b) ==> (reconciled(infos, bars).contains(b) <==> b.fit_for_overlay()
                || present(infos, b.hwnd)),
        forall|o: TaskbarInfo| #[trigger]
            reconciled(infos, bars).contains(o) ==> bars.contains(o) || (infos.contains(o)
                && !present(bars, o.hwnd)),
        forall|hwnd: isize|
            !present(bars, hwnd) ==> (#[trigger] present(reconciled(infos, bars), hwnd) <==> present(
                infos,
                hwnd,
            )),
    decreases bars.len(),
{
    if bars.len() > 0 {
        let front = bars.drop_last();
        let bar = bars.last();
        assert forall|x: int, y: int| 0 <= x < y < front.len() implies (#[trigger] front[x]).hwnd
            != (#[trigger] front[y]).hwnd by {
            assert(bars[x].hwnd != bars[y].hwnd);
        }
        lemma_reconciled(infos, front);
        let before = reconciled(infos, front);
        let after = stepped(before, bar);
        lemma_step(before, bar);
        assert(!present(front, bar.hwnd)) by {
            if present(front, bar.hwnd) {
                let k = choose|k: int| 0 <= k < front.len() && (#[trigger] front[k]).hwnd == bar.hwnd;
                assert(bars[k].hwnd != bars[bars.len() - 1].hwnd);
            }
        }
        assert forall|hwnd: isize| present(bars, hwnd) <==> present(front, hwnd) || hwnd
            == bar.hwnd by {
            if present(bars, hwnd) {
                let k = choose|k: int| 0 <= k < bars.len() && (#[trigger] bars[k]).hwnd == hwnd;
                if k < front.len() {
                    assert(front[k].hwnd == hwnd);
                }
            }
            if present(front, hwnd) {
                let k = choose|k: int| 0 <= k < front.len() && (#[trigger] front[k]).hwnd == hwnd;
                assert(bars[k].hwnd == hwnd);
            }
            assert(bars[bars.len() - 1].hwnd == bar.hwnd);
        }
        assert forall|b: TaskbarInfo| #[trigger] bars.contains(b) implies (after.contains(b)
            <==> b.fit_for_overlay() || present(infos, b.hwnd)) by {
            let k = choose|k: int| 0 <= k < bars.len() && bars[k] == b;
            if k < front.len() {
                assert(front[k] == b);
                assert(front.contains(b));
                assert(bars[k].hwnd != bars[bars.len() - 1].hwnd);
            } else {
                assert(present(before, bar.hwnd) <==> present(infos, bar.hwnd));
            }
        }
        assert forall|o: TaskbarInfo| #[trigger] after.contains(o) implies bars.contains(o) || (
        infos.contains(o) && !present(bars, o.hwnd)) by {
            if o == bar {
                assert(bars[bars.len() - 1] == o);
            } else if front.contains(o) {
                let k = choose|k: int| 0 <= k < front.len() && front[k] == o;
                assert(bars[k] == o);
            }
        }
        assert forall|hwnd: isize| !present(bars, hwnd) implies (#[trigger] present(after, hwnd)
            <==> present(infos, hwnd)) by {
            assert(present(before, hwnd) <==> present(infos, hwnd));
            if present(after, hwnd) {
                let k = choose|k: int| 0 <= k < after.len() && (#[trigger] after[k]).hwnd == hwnd;
                assert(after.contains(after[k]));
                let j = choose|j: int| 0 <= j < before.len() && before[j] == after[k];
                assert(before[j].hwnd == hwnd);
            }
            if present(before, hwnd) {
                let k = choose|k: int| 0 <= k < before.len() && (#[trigger] before[k]).hwnd == hwnd;
                assert(before.contains(before[k]));
                let j = choose|j: int| 0 <= j < after.len() && after[j] == before[k];
                assert(after[j].hwnd == hwnd);
            }
        }
    }
}

/// Every bar has a plan, and just one.
pub proof fn law_one_plan_for_each_bar(infos: Seq<TaskbarInfo>, bar: TaskbarInfo, p: BarPlan, q: BarPlan)
    requires
        infos.len() <= usize::MAX,
    ensures
        planned(infos, bar, p) && planned(infos, bar, q) ==> p == q,
        exists|plan: BarPlan| #[trigger] planned(infos, bar, plan),
{
    if present(infos, bar.hwnd) {
        let i = lemma_first_at(infos, bar.hwnd);
        if bar.fit_for_overlay() {
            let resized = infos[i].wide() != bar.wide() || infos[i].high() != bar.high();
            assert(planned(infos, bar, BarPlan::Refresh { index: i as usize, resized }));
        } else {
            assert(planned(infos, bar, BarPlan::Hide { index: i as usize }));
        }
    } else if bar.fit_for_overlay() {
        assert(planned(infos, bar, BarPlan::Create));
    } else {
        assert(planned(infos, bar, BarPlan::Skip));
    }
    if planned(infos, bar, p) && planned(infos, bar, q) {
        lemma_same_index(infos, bar, p, q);
    }
}

/// The index of the overlay that a plan is about.
pub open spec fn index_of(plan: BarPlan) -> Option<usize> {
    match plan {
        BarPlan::Hide { index } => Some(index),
        BarPlan::Refresh { index, .. } => Some(index),
        _ => None,
    }
}

proof fn lemma_same_index(infos: Seq<TaskbarInfo>, bar: TaskbarInfo, p: BarPlan, q: BarPlan)
    requires
        planned(infos, bar, p),
        planned(infos, bar, q),
    ensures
        index_of(p) == index_of(q),
        p == q,
{
    if let Some(i) = index_of(p) {
        assert(infos[i as int].hwnd == bar.hwnd);
        assert(present(infos, bar.hwnd));
        if let Some(j) = index_of(q) {
            assert(infos[j as int].hwnd == bar.hwnd);
        }
    }
    if let Some(j) = index_of(q) {
        assert(infos[j as int].hwnd == bar.hwnd);
        assert(present(infos, bar.hwnd));
    }
}

/// A plan is about the overlay over the same window, wherever that window
/// has moved. A usable bar gets an overlay if it has none, and else keeps it;
/// an unusable one never gets one, and the one that it has is hidden.
pub proof fn law_plan_follows_the_window(infos: Seq<TaskbarInfo>, bar: TaskbarInfo, plan: BarPlan)
    requires
        planned(infos, bar, plan),
    ensures
        index_of(plan) matches Some(i) ==> i < infos.len() && infos[i as int].hwnd == bar.hwnd,
        index_of(plan) is None <==> forall|j: int|
            0 <= j < infos.len() ==> (#[trigger] infos[j]).hwnd != bar.hwnd,
        bar.fit_for_overlay() <==> plan is Create || plan is Refresh,
        plan is Create || plan is Skip <==> index_of(plan) is None,
{
    if let Some(i) = index_of(plan) {
        assert(infos[i as int].hwnd == bar.hwnd);
    }
}

/// The water is resized exactly if the bar has another width or another
/// height than when the overlay was last placed; a bar that only moved keeps
/// its water.
pub proof fn law_water_follows_the_size(
    infos: Seq<TaskbarInfo>,
    bar: TaskbarInfo,
    index: usize,
    resized: bool,
)
    requires
        planned(infos, bar, BarPlan::Refresh { index, resized }),
    ensures
        ({
            let was = infos[index as int].rect;
            let now = bar.rect;
            !resized <==> was.right - was.left == now.right - now.left && was.bottom - was.top
                == now.bottom - now.top
        }),
{
}

/// Carrying out a plan touches the overlay of its bar and no other, and keeps
/// their order. Only a new overlay makes them more, and it comes last. Of the
/// bar, what is known afterwards is what was seen, unless something failed.
pub proof fn law_plan_touches_one_overlay(
    infos: Seq<TaskbarInfo>,
    bar: TaskbarInfo,
    plan: BarPlan,
    ok: bool,
)
    requires
        planned(infos, bar, plan),
    ensures
        ({
            let after = settled(infos, bar, plan, ok);
            &&& after.len() == infos.len() + (if plan is Create && ok {
                1int
            } else {
                0
            })
            &&& forall|i: int|
                0 <= i < infos.len() && index_of(plan) != Some(i as usize) ==> #[trigger] after[i]
                    == infos[i]
            &&& plan is Create && ok ==> after.last() == bar
            &&& ok ==> (index_of(plan) matches Some(i) ==> after[i as int] == bar)
            &&& plan is Hide ==> settled(infos, bar, plan, false) == settled(infos, bar, plan, true)
            &&& (plan matches BarPlan::Refresh { resized: false, .. }) ==> settled(
                infos,
                bar,
                plan,
                false,
            ) == settled(infos, bar, plan, true)
        }),
{
}

/// What failed is tried again: after an overlay could not be created or
/// resized, the next plan for the same bar is the same. After it worked, the
/// next plan for the same bar leaves its size alone.
pub proof fn law_failures_are_tried_again(
    infos: Seq<TaskbarInfo>,
    bar: TaskbarInfo,
    plan: BarPlan,
    next: BarPlan,
)
    requires
        planned(infos, bar, plan),
        infos.len() < usize::MAX,
    ensures
        plan is Create || (plan matches BarPlan::Refresh { resized: true, .. }) ==> planned(
            settled(infos, bar, plan, false),
            bar,
            plan,
        ),
        bar.fit_for_overlay() && planned(settled(infos, bar, plan, true), bar, next) ==> (
        next matches BarPlan::Refresh { resized, .. } && !resized),
{
    let after = settled(infos, bar, plan, true);
    if bar.fit_for_overlay() && planned(after, bar, next) {
        match plan {
            BarPlan::Create => {
                assert(after[infos.len() as int].hwnd == bar.hwnd);
                assert(present(after, bar.hwnd));
            },
            BarPlan::Refresh { index, .. } => {
                assert(after[index as int].hwnd == bar.hwnd);
                assert(present(after, bar.hwnd));
            },
            _ => {},
        }
        match next {
            BarPlan::Refresh { index, .. } => {
                assert(after[index as int].hwnd == bar.hwnd);
                assert(after[index as int] == bar) by {
                    if plan is Create {
                        if index < infos.len() {
                            assert(infos[index as int].hwnd != bar.hwnd);
                        }
                    } else {
                        let i = index_of(plan)->0;
                        if index < i {
                            assert(infos[index as int].hwnd != bar.hwnd);
                        }
                        if i < index {
                            assert(after[i as int].hwnd != bar.hwnd);
                        }
                    }
                }
            },
            _ => {},
        }
    }
}

/// Overlays stay in order when those of vanished bars go, and each stays or
/// goes by its own bar alone, which is told by its window: one that moved or
/// was resized is the same bar.
pub proof fn law_overlays_stay_by_window(
    a: Seq<TaskbarInfo>,
    b: Seq<TaskbarInfo>,
    bars: Seq<TaskbarInfo>,
    o: TaskbarInfo,
)
    ensures
        retained(a + b, bars) == retained(a, bars) + retained(b, bars),
        (exists|j: int| 0 <= j < bars.len() && (#[trigger] bars[j]).hwnd == o.hwnd) ==> retained(
            seq![o],
            bars,
        ) == seq![o],
        (forall|j: int| 0 <= j < bars.len() ==> (#[trigger] bars[j]).hwnd != o.hwnd) ==> retained(
            seq![o],
            bars,
        ) == Seq::<TaskbarInfo>::empty(),
{
    let stays = |t: TaskbarInfo| present(bars, t.hwnd);
    Seq::filter_distributes_over_add(a, b, stays);
    reveal(Seq::filter);
    assert(seq![o].drop_last() =~= Seq::<TaskbarInfo>::empty());
    assert(seq![o].drop_last().filter(stays) =~= Seq::<TaskbarInfo>::empty());
    assert(seq![o].last() == o);
    assert(Seq::<TaskbarInfo>::empty().push(o) =~= seq![o]);
}

/// An overlay answers two messages itself: a hit test, with nothing being
/// there, and a click, without becoming active.
pub proof fn law_overlays_let_everything_through(msg: u32)
    ensures
        reply_to(msg) == Some(-1isize) <==> msg == 0x0084,
        reply_to(msg) == Some(3isize) <==> msg == 0x0021,
        reply_to(msg) is Some ==> msg == 0x0084 || msg == 0x0021,
{
}

/// A request to raise the overlays is met once: any number of events of whole
/// windows before it count as one, events of what is inside a window count
/// as none, and nothing is pending once it was met.
pub proof fn law_raises_are_met_once(r: RaiseRequests, a: i32, b: i32)
    ensures
        r.noted(0).pending,
        r.noted(0).noted(a) == r.noted(0),
        a != 0 ==> r.noted(a) == r,
        r.noted(a).noted(b) == r.noted(b).noted(a),
        !r.met().pending,
        r.met().noted(a).pending <==> a == 0,
{
}

/// Each overlay is told by itself whether it stays, in order: those that stay
/// are those whose window is among the bars, and just they are known
/// afterwards.
pub proof fn law_kept_overlays_are_those_known(
    infos: Seq<TaskbarInfo>,
    bars: Seq<TaskbarInfo>,
    i: int,
)
    requires
        0 <= i < infos.len(),
    ensures
        kept(infos, bars).len() == infos.len(),
        kept(infos, bars)[i] <==> exists|j: int|
            0 <= j < bars.len() && (#[trigger] bars[j]).hwnd == infos[i].hwnd,
        kept(infos, bars)[i] <==> retained(seq![infos[i]], bars).len() == 1,
{
    law_overlays_stay_by_window(Seq::empty(), Seq::empty(), bars, infos[i]);
}

} // verus!
