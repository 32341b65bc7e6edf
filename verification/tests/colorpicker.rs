use floaty::color::Rgb;
use floaty::colorpicker::{
    at_base, bar_columns, bar_label, bar_rect, bar_shade, bar_under, can_place, create_buttons, decode_preview, encode_preview, hiword_i,
    loword_i, placement, slide_to, span, swatch_rows, thumb, Picker, PickerAction, PickerStep, Preview, BARS, WM_WATER_CANCEL,
    WM_WATER_COMMIT, WM_WATER_PREVIEW,
};
use floaty::single::Single;
use floaty::taskbar::Rect;

const DESTROY: u32 = 0x02;
const PAINT: u32 = 0x0f;
const CLOSE: u32 = 0x10;
const ERASE: u32 = 0x14;
const KEY: u32 = 0x100;
const COMMAND: u32 = 0x111;
const MOVE: u32 = 0x200;
const DOWN: u32 = 0x201;
const UP: u32 = 0x202;

fn bars() -> Vec<Rect> {
    (0..BARS).map(bar_rect).collect()
}

fn at(x: i16, y: i16) -> isize {
    (((y as u16 as u32) << 16) | x as u16 as u32) as isize
}

fn done(action: PickerAction) -> PickerStep {
    PickerStep { action, reply: Some(0) }
}

#[test]
fn messages_have_numbers_of_the_program() {
    assert_eq!((WM_WATER_PREVIEW, WM_WATER_COMMIT, WM_WATER_CANCEL), (0x8002, 0x8003, 0x8004));
}

#[test]
fn bars_stand_below_each_other() {
    assert_eq!(bar_rect(0), Rect { left: 76, top: 14, right: 326, bottom: 32 });
    assert_eq!(bar_rect(1), Rect { left: 76, top: 42, right: 326, bottom: 60 });
    assert_eq!(bar_rect(2), Rect { left: 76, top: 70, right: 326, bottom: 88 });
}

#[test]
fn buttons_stand_side_by_side() {
    let all: Vec<_> = create_buttons()
        .into_iter()
        .map(|b| (b.label, b.id, b.x, b.w, b.default))
        .collect();
    assert_eq!(
        all,
        [
            ("Reset to default", 3, 14, 118, false),
            ("OK", 1, 174, 72, true),
            ("Cancel", 2, 254, 72, false),
        ]
    );
}

#[test]
fn the_window_opens_above_the_cursor() {
    assert_eq!(placement(900, 1060, 356, 235, 1920, 1080), (722, 809));
    // Near the edges it stays on screen.
    assert_eq!(placement(0, 1060, 356, 235, 1920, 1080).0, 8);
    assert_eq!(placement(1919, 1060, 356, 235, 1920, 1080).0, 1920 - 356 - 8);
    // Without room above it opens below, or at the bottom.
    assert_eq!(placement(900, 20, 356, 235, 1920, 1080).1, 36);
    assert_eq!(placement(900, 250, 356, 235, 1920, 270).1, 35);
    assert!(can_place(900, 1060, 356, 235, 1920, 1080));
    assert!(!can_place(i32::MIN, 1060, 356, 235, 1920, 1080));
    assert!(!can_place(900, i32::MIN, 356, 235, 1920, 1080));
    assert!(!can_place(900, 1060, -2, 235, 1920, 1080));
    // A screen that is too narrow gets it at the left margin.
    assert_eq!(placement(100, 1060, 356, 235, 300, 1080).0, 8);
}

#[test]
fn previews_survive_the_message() {
    for stock in [false, true] {
        for hue in [0, 1, 2125, 3600, -5] {
            for saturation in [0, 1, 500, 1000, 1023] {
                for lightness in [0, 1, 777, 1000, 1023] {
                    let p = Preview { stock, hue, saturation, lightness };
                    let (wparam, lparam) = encode_preview(p);
                    assert_eq!(decode_preview(wparam, lparam), p);
                }
            }
        }
    }
    let p = Preview { stock: true, hue: 10, saturation: 3, lightness: 2 };
    assert_eq!(encode_preview(p), (1 + 2 * 3 + 65536 * 2, 10));
}

#[test]
fn words_are_signed() {
    for (x, y) in [(0, 0), (5, -1), (-1, 5), (i16::MAX, i16::MIN), (i16::MIN, i16::MAX)] {
        assert_eq!(loword_i(at(x, y)), x as i32);
        assert_eq!(hiword_i(at(x, y)), y as i32);
    }
    assert_eq!((loword_i(-1), hiword_i(-1)), (-1, -1));
}

#[test]
fn bars_can_be_touched_a_little_outside() {
    let bars = bars();
    assert_eq!(bar_under(&bars, 76, 10), Some(0));
    assert_eq!(bar_under(&bars, 326, 36), Some(0));
    assert_eq!(bar_under(&bars, 100, 9), None);
    assert_eq!(bar_under(&bars, 100, 37), None);
    assert_eq!(bar_under(&bars, 75, 20), None);
    assert_eq!(bar_under(&bars, 327, 20), None);
    assert_eq!(bar_under(&bars, 200, 50), Some(1));
    assert_eq!(bar_under(&bars, 200, 80), Some(2));
    assert_eq!(bar_under(&vec![], 0, 0), None);
}

#[test]
fn dragging_follows_the_mouse() {
    let bars = bars();
    let mut p = Picker::open();
    assert_eq!(p.on_message(MOVE, 0, at(100, 20), &bars), done(PickerAction::Nothing));
    assert_eq!(p.on_message(DOWN, 0, at(10, 20), &bars), done(PickerAction::Nothing));
    let grab = PickerAction::Grab { bar: 1, x: 100 };
    assert_eq!(p.on_message(DOWN, 0, at(100, 50), &bars), done(grab));
    // Off the bar it goes on.
    let slide = PickerAction::Slide { bar: 1, x: -7 };
    assert_eq!(p.on_message(MOVE, 0, at(-7, 300), &bars), done(slide));
    assert_eq!(p.on_message(UP, 0, at(-7, 300), &bars), done(PickerAction::LetGo));
    assert_eq!(p.on_message(MOVE, 0, at(100, 20), &bars), done(PickerAction::Nothing));
    let default = PickerStep { action: PickerAction::Nothing, reply: None };
    assert_eq!(p.on_message(UP, 0, at(0, 0), &bars), default);
    assert_eq!(p, Picker::open());
}

#[test]
fn painting_and_other_messages() {
    let mut p = Picker::open();
    let erased = PickerStep { action: PickerAction::Nothing, reply: Some(1) };
    assert_eq!(p.on_message(ERASE, 0, 0, &bars()), erased);
    assert_eq!(p.on_message(PAINT, 0, 0, &bars()), done(PickerAction::Paint));
    let default = PickerStep { action: PickerAction::Nothing, reply: None };
    assert_eq!(p.on_message(0x400, 0, 0, &bars()), default);
    assert_eq!(p.on_message(KEY, 0x41, 0, &bars()), done(PickerAction::Nothing));
    assert_eq!(p.on_message(COMMAND, 9, 0, &bars()), done(PickerAction::Nothing));
    assert_eq!(p.on_message(CLOSE, 0, 0, &bars()), done(PickerAction::Destroy));
    assert_eq!(p, Picker::open());
}

/// The verdicts that a window posts for these messages and the ones that
/// destroying it brings.
fn verdicts(messages: &[(u32, usize)]) -> Vec<u32> {
    let mut posted = Vec::new();
    let mut p = Picker::open();
    let mut queue = messages.to_vec();
    while !queue.is_empty() {
        let (msg, wparam) = queue.remove(0);
        match p.on_message(msg, wparam, 0, &bars()).action {
            PickerAction::Finish { commit } => {
                posted.push(if commit { WM_WATER_COMMIT } else { WM_WATER_CANCEL });
                queue.insert(0, (DESTROY, 0));
            }
            PickerAction::Destroy => queue.insert(0, (DESTROY, 0)),
            PickerAction::Gone { cancel } => {
                if cancel {
                    posted.push(WM_WATER_CANCEL);
                }
                break;
            }
            _ => {}
        }
    }
    posted
}

#[test]
fn every_way_out_posts_one_verdict() {
    assert_eq!(verdicts(&[(COMMAND, 1)]), [WM_WATER_COMMIT]);
    assert_eq!(verdicts(&[(KEY, 0x0d)]), [WM_WATER_COMMIT]);
    assert_eq!(verdicts(&[(KEY, 0x1b)]), [WM_WATER_CANCEL]);
    assert_eq!(verdicts(&[(COMMAND, 2)]), [WM_WATER_CANCEL]);
    assert_eq!(verdicts(&[(CLOSE, 0)]), [WM_WATER_CANCEL]);
    assert_eq!(verdicts(&[(DESTROY, 0)]), [WM_WATER_CANCEL]);
    assert_eq!(verdicts(&[(COMMAND, 3), (PAINT, 0), (COMMAND, 1)]), [WM_WATER_COMMIT]);
}

#[test]
fn messages_between_the_end_and_the_last_change_nothing() {
    const NCACTIVATE: u32 = 0x86;
    for (first, expected) in [((KEY, 0x0d), None), ((COMMAND, 2), Some(true))] {
        let mut p = Picker::open();
        let step = p.on_message(first.0, first.1, 0, &bars());
        let finished = step.action == PickerAction::Finish { commit: true };
        assert_eq!(finished, expected.is_none());
        assert_eq!(p.on_message(NCACTIVATE, 0, 0, &bars()).action, PickerAction::Nothing);
        let gone = PickerAction::Gone { cancel: expected.is_some() };
        assert_eq!(p.on_message(DESTROY, 0, 0, &bars()), done(gone));
    }
}

#[test]
fn only_the_low_word_of_a_command_counts() {
    let mut p = Picker::open();
    let step = p.on_message(COMMAND, 0x7_0001, 0, &bars());
    assert_eq!(step, done(PickerAction::Finish { commit: true }));
    assert!(p.decided);
}

#[test]
fn resetting_goes_back_to_the_stock_palette() {
    let mut p = Picker::open();
    assert_eq!(p.on_message(COMMAND, 3, 0, &bars()), done(PickerAction::Reset));
    assert!(p.use_stock && !p.decided);
}

#[test]
fn close_is_close_enough() {
    let s = |v: f32| Single { bits: v.to_bits() };
    assert!(at_base(s(0.0), s(0.0), s(0.0)));
    assert!(at_base(s(0.49), s(0.0049), s(0.0049)));
    assert!(!at_base(s(0.5), s(0.0), s(0.0)));
    assert!(!at_base(s(0.0), s(0.005), s(0.0)));
    assert!(!at_base(s(0.0), s(0.0), s(0.005)));
    assert!(!at_base(s(f32::NAN), s(0.0), s(0.0)));
}

#[test]
fn recoloring_writes_the_fresh_pair() {
    let fresh = (Rgb { r: 1, g: 2, b: 3 }, Rgb { r: 4, g: 5, b: 255 });
    let (shallow, deep) = floaty::colorpicker::derive("#ffffff", "bad", Some(fresh));
    assert_eq!((shallow.as_str(), deep.as_str()), ("#010203", "#0405ff"));
}

#[test]
fn the_base_palette_comes_back_untouched() {
    let (shallow, deep) = floaty::colorpicker::derive("#3f9de0", "#123f78", None);
    assert_eq!((shallow.as_str(), deep.as_str()), ("#3f9de0", "#123f78"));
    let (shallow, deep) = floaty::colorpicker::derive(" 3F9DE0", "nonsense", None);
    assert_eq!((shallow.as_str(), deep.as_str()), (" 3F9DE0", "nonsense"));
}

#[test]
fn bars_are_painted_column_by_column() {
    let columns = bar_columns(Rect { left: 3, top: 1, right: 6, bottom: 9 });
    let expected: Vec<_> =
        (3..6).map(|x| Rect { left: x, top: 1, right: x + 1, bottom: 9 }).collect();
    assert_eq!(columns, expected);
    assert!(bar_columns(Rect { left: 6, top: 1, right: 3, bottom: 9 }).is_empty());
    let rows = swatch_rows(Rect { left: 3, top: 1, right: 6, bottom: 3 });
    let expected: Vec<_> =
        (1..3).map(|y| Rect { left: 3, top: y, right: 6, bottom: y + 1 }).collect();
    assert_eq!(rows, expected);
}

#[test]
fn bars_show_what_dragging_them_gives() {
    let s = |v: f32| Single { bits: v.to_bits() };
    let hsl = (s(200.0), s(0.5), s(0.25));
    assert_eq!(bar_shade(0, s(0.1), s(36.0), hsl), (s(36.0), s(0.85), s(0.55)));
    assert_eq!(bar_shade(1, s(0.1), s(36.0), hsl), (s(200.0), s(0.1), s(0.25)));
    assert_eq!(bar_shade(2, s(0.1), s(36.0), hsl), (s(200.0), s(0.5), s(0.1)));
    assert_eq!(slide_to(0, s(0.1), s(36.0), hsl), (s(36.0), s(0.5), s(0.25)));
    for i in [1, 2] {
        assert_eq!(slide_to(i, s(0.1), s(36.0), hsl), bar_shade(i, s(0.1), s(36.0), hsl));
    }
    assert_eq!([bar_label(0), bar_label(1), bar_label(2)], ["Hue", "Saturation", "Lightness"]);
}

#[test]
fn thumbs_stick_out_of_their_bar() {
    let bar = bar_rect(0);
    assert_eq!(thumb(bar, 100), Rect { left: 97, top: 10, right: 104, bottom: 36 });
    assert_eq!((span(76, 326), span(5, 5), span(9, 5)), (250, 1, 1));
}
