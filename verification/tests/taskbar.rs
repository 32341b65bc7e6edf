use floaty::taskbar::{Rect, Scan, ScanStep, TaskbarInfo};

fn bar(left: i32, top: i32, right: i32, bottom: i32, visible: bool) -> TaskbarInfo {
    TaskbarInfo { hwnd: 1, rect: Rect { left, top, right, bottom }, visible, primary: true }
}

#[test]
fn sizes_are_differences() {
    let b = bar(-100, 1032, 1820, 1080, true);
    assert_eq!((b.width(), b.height()), (1920, 48));
    assert!(b.is_measurable());
    assert!(!bar(i32::MIN, 0, 1, 48, true).is_measurable());
    assert!(!bar(0, -2, 1920, i32::MAX, true).is_measurable());
}

#[test]
fn only_horizontal_bars_of_sane_size_are_usable() {
    assert!(bar(0, 1032, 1920, 1080, true).usable());
    assert!(!bar(0, 1032, 1920, 1080, false).usable());
    assert!(!bar(0, 0, 60, 1080, true).usable());
    assert!(!bar(0, 0, 48, 48, true).usable());
    assert!(!bar(0, 0, 1920, 19, true).usable());
    assert!(bar(0, 0, 1920, 20, true).usable());
    assert!(bar(0, 0, 1920, 200, true).usable());
    assert!(!bar(0, 0, 1920, 201, true).usable());
}

/// Runs a scan over the windows that exist.
fn scan(primary: Option<isize>, secondary: &[isize], all: bool, broken: &[isize]) -> Vec<TaskbarInfo> {
    let mut scan = Scan::new(all);
    loop {
        match scan.step {
            ScanStep::FindPrimary => scan.found(primary),
            ScanStep::FindSecondary { after: None } => scan.found(secondary.first().copied()),
            ScanStep::FindSecondary { after: Some(hwnd) } => {
                let at = secondary.iter().position(|&h| h == hwnd).unwrap();
                scan.found(secondary.get(at + 1).copied());
            }
            ScanStep::Measure { hwnd, .. } => {
                let rect = Rect { left: 0, top: 0, right: hwnd as i32, bottom: 1 };
                scan.measured(if broken.contains(&hwnd) { None } else { Some((rect, true)) });
            }
            ScanStep::Done => return scan.bars,
        }
    }
}

#[test]
fn every_taskbar_is_found() {
    let bars = scan(Some(10), &[20, 30], true, &[]);
    let seen: Vec<_> = bars.iter().map(|b| (b.hwnd, b.primary, b.rect.right)).collect();
    assert_eq!(seen, [(10, true, 10), (20, false, 20), (30, false, 30)]);
}

#[test]
fn secondary_taskbars_can_be_left_out() {
    let bars = scan(Some(10), &[20, 30], false, &[]);
    assert_eq!(bars.iter().map(|b| b.hwnd).collect::<Vec<_>>(), [10]);
    assert!(scan(None, &[20], false, &[]).is_empty());
}

#[test]
fn bars_that_cannot_be_measured_are_left_out() {
    let bars = scan(Some(10), &[20, 30], true, &[10, 20]);
    assert_eq!(bars.iter().map(|b| b.hwnd).collect::<Vec<_>>(), [30]);
    assert!(!bars[0].primary);
}

#[test]
fn a_zero_handle_ends_the_scan() {
    let bars = scan(None, &[20, 0, 30], true, &[]);
    assert_eq!(bars.iter().map(|b| b.hwnd).collect::<Vec<_>>(), [20]);
}
