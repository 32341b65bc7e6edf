use floaty::overlay::{reply, BarPlan, Overlays, RaiseRequests};
use floaty::taskbar::{Rect, TaskbarInfo};

fn bar(hwnd: isize, width: i32, visible: bool) -> TaskbarInfo {
    TaskbarInfo {
        hwnd,
        rect: Rect { left: 0, top: 0, right: width, bottom: 48 },
        visible,
        primary: hwnd == 1,
    }
}

/// Deals with every bar; `fails` says for which of them nothing works.
fn reconcile(overlays: &mut Overlays, bars: &Vec<TaskbarInfo>, fails: &[isize]) -> Vec<BarPlan> {
    overlays.retain(bars);
    let mut plans = Vec::new();
    for bar in bars {
        let plan = overlays.plan(bar);
        overlays.settle(bar, plan, !fails.contains(&bar.hwnd));
        plans.push(plan);
    }
    plans
}

fn windows(overlays: &Overlays) -> Vec<isize> {
    overlays.infos.iter().map(|o| o.hwnd).collect()
}

#[test]
fn every_usable_bar_gets_an_overlay() {
    let mut overlays = Overlays::new();
    let bars = vec![bar(1, 1920, true), bar(2, 30, true), bar(3, 1280, true)];
    let plans = reconcile(&mut overlays, &bars, &[]);
    assert_eq!(plans, [BarPlan::Create, BarPlan::Skip, BarPlan::Create]);
    assert_eq!(windows(&overlays), [1, 3]);
    let plans = reconcile(&mut overlays, &bars, &[]);
    assert_eq!(
        plans,
        [
            BarPlan::Refresh { index: 0, resized: false },
            BarPlan::Skip,
            BarPlan::Refresh { index: 1, resized: false },
        ]
    );
    assert_eq!(overlays.infos, [bars[0], bars[2]]);
}

#[test]
fn vanished_bars_lose_their_overlay() {
    let mut overlays = Overlays::new();
    reconcile(&mut overlays, &vec![bar(1, 1920, true), bar(2, 1280, true), bar(3, 1280, true)], &[]);
    let keep = overlays.retain(&vec![bar(3, 1280, true), bar(1, 1920, true)]);
    assert_eq!(keep, [true, false, true]);
    assert_eq!(windows(&overlays), [1, 3]);
}

#[test]
fn no_bars_leave_no_overlays() {
    let mut overlays = Overlays::new();
    reconcile(&mut overlays, &vec![bar(1, 1920, true)], &[]);
    reconcile(&mut overlays, &vec![], &[]);
    assert!(overlays.infos.is_empty());
    reconcile(&mut overlays, &vec![bar(1, 1920, true)], &[]);
    overlays.clear();
    assert!(overlays.infos.is_empty());
}

#[test]
fn hidden_bars_keep_their_overlay_hidden() {
    let mut overlays = Overlays::new();
    reconcile(&mut overlays, &vec![bar(1, 1920, true)], &[]);
    let plans = reconcile(&mut overlays, &vec![bar(1, 1920, false)], &[]);
    assert_eq!(plans, [BarPlan::Hide { index: 0 }]);
    assert!(!overlays.infos[0].visible);
    let plans = reconcile(&mut overlays, &vec![bar(1, 1920, true)], &[]);
    assert_eq!(plans, [BarPlan::Refresh { index: 0, resized: false }]);
}

#[test]
fn unusable_bars_have_an_overlay_only_if_they_had_one() {
    let mut overlays = Overlays::new();
    reconcile(&mut overlays, &vec![bar(1, 1920, true), bar(9, 1920, true)], &[]);
    let bars = vec![bar(1, 30, true), bar(2, 30, true), bar(3, 1280, true)];
    reconcile(&mut overlays, &bars, &[]);
    assert_eq!(overlays.infos, [bars[0], bars[2]]);
}

#[test]
fn failed_resizes_are_tried_again() {
    let mut overlays = Overlays::new();
    reconcile(&mut overlays, &vec![bar(1, 1920, true)], &[]);
    let wider = vec![bar(1, 2560, true)];
    let resize = [BarPlan::Refresh { index: 0, resized: true }];
    assert_eq!(reconcile(&mut overlays, &wider, &[1]), resize);
    assert_eq!(overlays.infos[0].width(), 1920);
    assert_eq!(reconcile(&mut overlays, &wider, &[]), resize);
    assert_eq!(overlays.infos[0].width(), 2560);
    let plans = reconcile(&mut overlays, &wider, &[]);
    assert_eq!(plans, [BarPlan::Refresh { index: 0, resized: false }]);
}

#[test]
fn failed_overlays_do_not_exist() {
    let mut overlays = Overlays::new();
    let plans = reconcile(&mut overlays, &vec![bar(1, 1920, true)], &[1]);
    assert_eq!(plans, [BarPlan::Create]);
    assert!(overlays.infos.is_empty());
}

#[test]
fn overlays_let_the_mouse_through() {
    assert_eq!(reply(0x84), Some(-1));
    assert_eq!(reply(0x21), Some(3));
    assert_eq!(reply(0x0f), None);
}

#[test]
fn a_burst_of_events_costs_one_raise() {
    let mut requests = RaiseRequests::none();
    assert!(!requests.take_raise_request());
    requests.note(-4);
    requests.note(7);
    assert!(!requests.take_raise_request());
    requests.note(0);
    requests.note(-4);
    requests.note(0);
    assert!(requests.take_raise_request());
    assert!(!requests.take_raise_request());
}
