//! The "Water color" popup: sliders for hue, saturation and lightness, three
//! buttons, and the messages that tell the owner what was picked.
//!
//! Dragging a slider posts a preview. Exactly one verdict follows: OK keeps
//! the preview, and Cancel or closing the window discards it.

use vstd::prelude::*;

use crate::color;
use crate::color::Rgb;
use crate::message::{
    VK_ESCAPE, VK_RETURN, WM_CLOSE, WM_COMMAND, WM_DESTROY, WM_ERASEBKGND, WM_KEYDOWN, WM_LBUTTONDOWN,
    WM_LBUTTONUP, WM_MOUSEMOVE, WM_PAINT,
};
use crate::single::Single;
use crate::taskbar::Rect;

verus! {

/// Posted to the owner while dragging; [`decode_preview`] unpacks it.
pub const WM_WATER_PREVIEW: u32 = 0x8002;

/// Posted to the owner on OK: the previewed color is to be kept.
pub const WM_WATER_COMMIT: u32 = 0x8003;

/// Posted to the owner on Cancel or close: the preview is to be discarded.
pub const WM_WATER_CANCEL: u32 = 0x8004;

pub const ID_OK: u32 = 1;

pub const ID_CANCEL: u32 = 2;

pub const ID_RESET: u32 = 3;

// Layout in units of 1/96 inch, scaled when the window is made.

pub const CLIENT_W: i32 = 340;

pub const CLIENT_H: i32 = 196;

pub const MARGIN: i32 = 14;

/// Width reserved left of the slider bars for their labels.
pub const LABEL_W: i32 = 62;

pub const BAR_Y: i32 = 14;

pub const BAR_H: i32 = 18;

/// Vertical distance between the tops of consecutive bars.
pub const BAR_STEP: i32 = 28;

pub const SWATCH_Y: i32 = 98;

pub const SWATCH_H: i32 = 24;

pub const HINT_Y: i32 = 130;

pub const HINT_H: i32 = 18;

pub const BTN_Y: i32 = 156;

pub const BTN_H: i32 = 26;

/// How many sliders there are: hue, saturation and lightness.
pub const BARS: usize = 3;

/// Where slider bar `i` lies.
pub open spec fn bar_at(i: int) -> Rect {
    Rect {
        left: (MARGIN + LABEL_W) as i32,
        top: (BAR_Y + i * BAR_STEP) as i32,
        right: (CLIENT_W - MARGIN) as i32,
        bottom: (BAR_Y + i * BAR_STEP + BAR_H) as i32,
    }
}

/// Where slider bar `i` lies, before scaling.
pub fn bar_rect(i: usize) -> (r: Rect)
    requires
        i < BARS,
    ensures
        r == bar_at(i as int),
{
    let top: i32 = BAR_Y + i as i32 * BAR_STEP;
    Rect { left: MARGIN + LABEL_W, top, right: CLIENT_W - MARGIN, bottom: top + BAR_H }
}

/// A push button: where it starts, how wide it is, and whether the return
/// key presses it.
#[derive(Debug, Clone, Copy)]
pub struct Button {
    pub label: &'static str,
    pub id: u32,
    pub x: i32,
    pub w: i32,
    pub default: bool,
}

pub open spec fn buttons_spec() -> Seq<Button> {
    seq![
        Button { label: "Reset to default", id: ID_RESET, x: 14, w: 118, default: false },
        Button { label: "OK", id: ID_OK, x: 174, w: 72, default: true },
        Button { label: "Cancel", id: ID_CANCEL, x: 254, w: 72, default: false },
    ]
}

/// The buttons along the bottom.
pub fn create_buttons() -> (r: Vec<Button>)
    ensures
        r@ == buttons_spec(),
{
    let cancel_x: i32 = CLIENT_W - MARGIN - 72;
    let ok_x: i32 = cancel_x - 8 - 72;
    let all = vec![
        Button { label: "Reset to default", id: ID_RESET, x: MARGIN, w: 118, default: false },
        Button { label: "OK", id: ID_OK, x: ok_x, w: 72, default: true },
        Button { label: "Cancel", id: ID_CANCEL, x: cancel_x, w: 72, default: false },
    ];
    assert(all@ =~= buttons_spec());
    all
}

// ---- where the window opens -----------------------------------------------

/// The places and sizes leave room for the sums that [`placement`] forms.
pub open spec fn placeable(x: i32, y: i32, w: i32, h: i32, sw: i32, sh: i32) -> bool {
    &&& 0 <= w
    &&& i32::MIN <= x - w / 2
    &&& i32::MIN <= sw - w - 8
    &&& sw - w <= i32::MAX
    &&& y - h <= i32::MAX
    &&& i32::MIN <= y - h - 16
    &&& y - h - 16 <= 0 ==> y + 16 <= i32::MAX && i32::MIN <= sh - h <= i32::MAX
}

/// Whether [`placement`] may be asked.
pub fn can_place(x: i32, y: i32, w: i32, h: i32, sw: i32, sh: i32) -> (r: bool)
    ensures
        r == placeable(x, y, w, h, sw, sh),
{
    let (x, y, w, h): (i64, i64, i64, i64) = (x as i64, y as i64, w as i64, h as i64);
    let (sw, sh): (i64, i64) = (sw as i64, sh as i64);
    let (least, most): (i64, i64) = (i32::MIN as i64, i32::MAX as i64);
    w >= 0 && least <= x - w / 2 && least <= sw - w - 8 && sw - w <= most && least <= y - h - 16
        && y - h <= most && (y - h - 16 > 0 || (y + 16 <= most && least <= sh - h && sh - h
        <= most))
}

/// Where the window's left edge comes to stand.
pub open spec fn placed_x(x: int, w: int, sw: int) -> int {
    let hi = if sw - w - 8 > 8 {
        sw - w - 8
    } else {
        8
    };
    let centered = x - w / 2;
    if centered < 8 {
        8
    } else if centered > hi {
        hi
    } else {
        centered
    }
}

/// Where its top comes to stand.
pub open spec fn placed_y(y: int, h: int, sh: int) -> int {
    if y - h - 16 > 0 {
        y - h - 16
    } else if y + 16 < sh - h {
        y + 16
    } else {
        sh - h
    }
}

/// Where to open a window of `w` by `h` for a cursor at `(x, y)` on a screen
/// of `sw` by `sh`: above the cursor, which is usually on the taskbar, or
/// below it where there is no room.
pub fn placement(x: i32, y: i32, w: i32, h: i32, sw: i32, sh: i32) -> (r: (i32, i32))
    requires
        placeable(x, y, w, h, sw, sh),
    ensures
        r.0 == placed_x(x as int, w as int, sw as int),
        r.1 == placed_y(y as int, h as int, sh as int),
{
    let mut hi: i32 = sw - w - 8;
    if hi < 8 {
        hi = 8;
    }
    let centered: i32 = x - w / 2;
    let left: i32 = if centered < 8 {
        8
    } else if centered > hi {
        hi
    } else {
        centered
    };
    let top: i32 = if y - h - 16 > 0 {
        y - h - 16
    } else if y + 16 < sh - h {
        y + 16
    } else {
        sh - h
    };
    (left, top)
}

// ---- the preview message --------------------------------------------------

/// What a preview message carries: whether the stock palette is recolored,
/// the hue in tenths of a degree, saturation and lightness in permille.
#[derive(Debug, Clone, Copy, PartialEq, Eq, Structural)]
pub struct Preview {
    pub stock: bool,
    pub hue: isize,
    pub saturation: usize,
    pub lightness: usize,
}

/// The stock-palette flag in bit 0, with saturation and lightness above it.
pub open spec fn preview_bits(stock: bool, saturation: usize, lightness: usize) -> usize {
    (if stock {
        1usize
    } else {
        0usize
    }) | (saturation << 1) | (lightness << 16)
}

/// Packs a preview into the two parameters of its message.
pub fn encode_preview(p: Preview) -> (r: (usize, isize))
    ensures
        r.0 == preview_bits(p.stock, p.saturation, p.lightness),
        r.1 == p.hue,
{
    let flag: usize = if p.stock {
        1
    } else {
        0
    };
    (flag | (p.saturation << 1) | (p.lightness << 16), p.hue)
}

/// The preview that the two parameters of a message stand for.
pub open spec fn preview_of(wparam: usize, lparam: isize) -> Preview {
    Preview {
        stock: wparam & 1 != 0,
        hue: lparam,
        saturation: (wparam >> 1) & 0x3ff,
        lightness: (wparam >> 16) & 0x3ff,
    }
}

/// Unpacks a preview message.
pub fn decode_preview(wparam: usize, lparam: isize) -> (r: Preview)
    ensures
        r == preview_of(wparam, lparam),
{
    Preview {
        stock: wparam & 1 != 0,
        hue: lparam,
        saturation: (wparam >> 1) & 0x3ff,
        lightness: (wparam >> 16) & 0x3ff,
    }
}

/// The owner unpacks what the picker packed, for saturation and lightness of
/// up to 1023 permille.
pub proof fn law_preview_round_trip(p: Preview)
    requires
        p.saturation < 1024,
        p.lightness < 1024,
    ensures
        preview_of(preview_bits(p.stock, p.saturation, p.lightness), p.hue) == p,
{
    let (s, l) = (p.saturation, p.lightness);
    assert(s < 1024 && l < 1024 ==> {
        let w = 1usize | (s << 1) | (l << 16);
        w & 1 != 0 && (w >> 1) & 0x3ff == s && (w >> 16) & 0x3ff == l
    }) by (bit_vector);
    assert(s < 1024 && l < 1024 ==> {
        let w = 0usize | (s << 1) | (l << 16);
        w & 1 == 0 && (w >> 1) & 0x3ff == s && (w >> 16) & 0x3ff == l
    }) by (bit_vector);
}

// ---- what is painted ------------------------------------------------------

/// The label of slider bar `i`.
pub fn bar_label(i: usize) -> (r: &'static str)
    requires
        i < BARS,
    ensures
        r@ == if i == 0 {
            "Hue"@
        } else if i == 1 {
            "Saturation"@
        } else {
            "Lightness"@
        },
{
    match i {
        0 => "Hue",
        1 => "Saturation",
        _ => "Lightness",
    }
}

/// 0.85.
pub const VIVID: u32 = 0x3f59_999a;

/// 0.55.
pub const BRIGHT: u32 = 0x3f0c_cccd;

/// Hue, saturation and lightness at a place of slider bar `i`, which is `t` of
/// the way along it, or `degrees` round the color wheel. The bar for the hue
/// is vivid throughout, so that the spectrum stays readable; the others show
/// what dragging them would give.
pub open spec fn shade_at(
    i: usize,
    t: Single,
    degrees: Single,
    hsl: (Single, Single, Single),
) -> (Single, Single, Single) {
    if i == 0 {
        (degrees, Single { bits: VIVID }, Single { bits: BRIGHT })
    } else if i == 1 {
        (hsl.0, t, hsl.2)
    } else {
        (hsl.0, hsl.1, t)
    }
}

/// The shade that a slider bar is painted in at a place.
pub fn bar_shade(i: usize, t: Single, degrees: Single, hsl: (Single, Single, Single)) -> (r: (
    Single,
    Single,
    Single,
))
    ensures
        r == shade_at(i, t, degrees, hsl),
{
    match i {
        0 => (degrees, Single { bits: VIVID }, Single { bits: BRIGHT }),
        1 => (hsl.0, t, hsl.2),
        _ => (hsl.0, hsl.1, t),
    }
}

/// Hue, saturation and lightness after slider bar `i` was dragged to a place
/// `t` of the way along it, or `degrees` round the color wheel.
pub open spec fn slid(
    i: usize,
    t: Single,
    degrees: Single,
    hsl: (Single, Single, Single),
) -> (Single, Single, Single) {
    if i == 0 {
        (degrees, hsl.1, hsl.2)
    } else if i == 1 {
        (hsl.0, t, hsl.2)
    } else {
        (hsl.0, hsl.1, t)
    }
}

/// Drags a slider.
pub fn slide_to(i: usize, t: Single, degrees: Single, hsl: (Single, Single, Single)) -> (r: (
    Single,
    Single,
    Single,
))
    ensures
        r == slid(i, t, degrees, hsl),
{
    match i {
        0 => (degrees, hsl.1, hsl.2),
        1 => (hsl.0, t, hsl.2),
        _ => (hsl.0, hsl.1, t),
    }
}

/// Column `x` of a bar, one pixel wide.
pub open spec fn column_at(bar: Rect, x: int) -> Rect {
    Rect { left: x as i32, top: bar.top, right: (x + 1) as i32, bottom: bar.bottom }
}

/// The columns of a bar.
pub open spec fn columns_of(bar: Rect) -> Seq<Rect> {
    Seq::new(
        (if bar.left < bar.right {
            bar.right - bar.left
        } else {
            0
        }) as nat,
        |k: int| column_at(bar, bar.left + k),
    )
}

/// The columns of a bar from left to right.
pub fn bar_columns(bar: Rect) -> (r: Vec<Rect>)
    ensures
        r@ == columns_of(bar),
{
    let mut columns: Vec<Rect> = Vec::new();
    let mut x: i32 = bar.left;
    while x < bar.right
        invariant
            bar.left <= x,
            x <= bar.right || x == bar.left,
            columns.len() == x - bar.left,
            forall|k: int| 0 <= k < columns.len() ==> #[trigger] columns[k] == column_at(
                bar,
                bar.left + k,
            ),
        decreases bar.right - x,
    {
        columns.push(Rect { left: x, top: bar.top, right: x + 1, bottom: bar.bottom });
        x = x + 1;
    }
    assert(columns@ =~= columns_of(bar));
    columns
}

/// Row `y` of the swatch, one pixel high.
pub open spec fn row_at(swatch: Rect, y: int) -> Rect {
    Rect { left: swatch.left, top: y as i32, right: swatch.right, bottom: (y + 1) as i32 }
}

/// The rows of the swatch.
pub open spec fn rows_of(swatch: Rect) -> Seq<Rect> {
    Seq::new(
        (if swatch.top < swatch.bottom {
            swatch.bottom - swatch.top
        } else {
            0
        }) as nat,
        |k: int| row_at(swatch, swatch.top + k),
    )
}

/// The rows of the swatch from top to bottom.
pub fn swatch_rows(swatch: Rect) -> (r: Vec<Rect>)
    ensures
        r@ == rows_of(swatch),
{
    let mut rows: Vec<Rect> = Vec::new();
    let mut y: i32 = swatch.top;
    while y < swatch.bottom
        invariant
            swatch.top <= y,
            y <= swatch.bottom || y == swatch.top,
            rows.len() == y - swatch.top,
            forall|k: int| 0 <= k < rows.len() ==> #[trigger] rows[k] == row_at(
                swatch,
                swatch.top + k,
            ),
        decreases swatch.bottom - y,
    {
        rows.push(Rect { left: swatch.left, top: y, right: swatch.right, bottom: y + 1 });
        y = y + 1;
    }
    assert(rows@ =~= rows_of(swatch));
    rows
}

/// The distance between two places, but at least 1.
pub open spec fn length(from: int, to: int) -> int {
    if to - from > 1 {
        to - from
    } else {
        1
    }
}

/// A length that can be divided by: at least 1.
pub fn span(from: i32, to: i32) -> (r: i32)
    requires
        i32::MIN <= to - from <= i32::MAX,
    ensures
        r == length(from as int, to as int),
{
    let length: i32 = to - from;
    if length > 1 {
        length
    } else {
        1
    }
}

/// Where the thumb of a bar lies for a value at `x`.
pub open spec fn thumb_at(bar: Rect, x: int) -> Rect {
    Rect {
        left: (x - 3) as i32,
        top: (bar.top - 4) as i32,
        right: (x + 4) as i32,
        bottom: (bar.bottom + 4) as i32,
    }
}

/// The thumb of a bar, at `x`.
pub fn thumb(bar: Rect, x: i32) -> (r: Rect)
    requires
        i32::MIN <= x - 3,
        x + 4 <= i32::MAX,
        i32::MIN <= bar.top - 4,
        bar.bottom + 4 <= i32::MAX,
    ensures
        r == thumb_at(bar, x as int),
{
    Rect { left: x - 3, top: bar.top - 4, right: x + 4, bottom: bar.bottom + 4 }
}

// ---- the window's messages ------------------------------------------------

/// The low sixteen bits of a message parameter, as a signed number.
pub open spec fn low_word(lparam: isize) -> int {
    let word = lparam & 0xffff;
    if word >= 0x8000 {
        word - 0x1_0000
    } else {
        word as int
    }
}

/// The sixteen bits above them, as a signed number.
pub open spec fn high_word(lparam: isize) -> int {
    low_word(lparam >> 16)
}

pub fn loword_i(lparam: isize) -> (r: i32)
    ensures
        r == low_word(lparam),
{
    assert(0 <= lparam & 0xffff <= 0xffff) by (bit_vector);
    let word: i32 = (lparam & 0xffff) as i32;
    if word >= 0x8000 {
        word - 0x1_0000
    } else {
        word
    }
}

pub fn hiword_i(lparam: isize) -> (r: i32)
    ensures
        r == high_word(lparam),
{
    loword_i(lparam >> 16)
}

/// A point is on a slider bar, or close enough above or below it.
pub open spec fn touches(bar: Rect, x: int, y: int) -> bool {
    bar.left <= x <= bar.right && bar.top - 4 <= y <= bar.bottom + 4
}

/// The point is on bar `i` and on none before it.
pub open spec fn first_touched(bars: Seq<Rect>, x: int, y: int, i: int) -> bool {
    &&& 0 <= i < bars.len()
    &&& touches(bars[i], x, y)
    &&& forall|j: int| 0 <= j < i ==> !touches(#[trigger] bars[j], x, y)
}

/// The first bar that a point is on.
pub fn bar_under(bars: &Vec<Rect>, x: i32, y: i32) -> (r: Option<usize>)
    ensures
        match r {
            Some(i) => first_touched(bars@, x as int, y as int, i as int),
            None => forall|j: int|
                0 <= j < bars.len() ==> !touches(#[trigger] bars@[j], x as int, y as int),
        },
{
    let mut i: usize = 0;
    while i < bars.len()
        invariant
            i <= bars.len(),
            forall|j: int| 0 <= j < i ==> !touches(#[trigger] bars@[j], x as int, y as int),
        decreases bars.len() - i,
    {
        let bar = bars[i];
        if x >= bar.left && x <= bar.right && y as i64 >= bar.top as i64 - 4 && y as i64
            <= bar.bottom as i64 + 4 {
            return Some(i);
        }
        i = i + 1;
    }
    None
}

/// What the window remembers between messages.
#[derive(Debug, Clone, Copy, PartialEq, Eq, Structural)]
pub struct Picker {
    /// The bar being dragged: 0 is hue, 1 saturation, 2 lightness.
    pub dragging: Option<usize>,
    /// The palette being recolored is the stock one.
    pub use_stock: bool,
    /// A verdict has been posted.
    pub decided: bool,
}

/// What to do about a message.
#[derive(Debug, Clone, Copy, PartialEq, Eq, Structural)]
pub enum PickerAction {
    Nothing,
    Paint,
    /// Capture the mouse and set the bar's value from a place on it.
    Grab { bar: usize, x: i32 },
    /// Set the bar's value from a place on it.
    Slide { bar: usize, x: i32 },
    /// Let go of the mouse.
    LetGo,
    /// Go back to the stock palette and preview it.
    Reset,
    /// Post the verdict and destroy the window.
    Finish { commit: bool },
    /// Destroy the window.
    Destroy,
    /// The window is gone: post a cancelling verdict if asked to, and free
    /// its state.
    Gone { cancel: bool },
}

/// How a message is dealt with: what to do, and the value to return for it.
/// Without one the message gets the default treatment.
#[derive(Debug, Clone, Copy, PartialEq, Eq, Structural)]
pub struct PickerStep {
    pub action: PickerAction,
    pub reply: Option<isize>,
}

/// The window after a message, and how the message is dealt with.
pub open spec fn picker_step(
    p: Picker,
    msg: u32,
    wparam: usize,
    lparam: isize,
    bars: Seq<Rect>,
    next: Picker,
    step: PickerStep,
) -> bool {
    let (x, y) = (low_word(lparam), high_word(lparam));
    if msg == WM_ERASEBKGND {
        // The background is left alone.
        next == p && step.action == PickerAction::Nothing && step.reply == Some(1isize)
    } else if msg == WM_PAINT {
        next == p && step.action == PickerAction::Paint && step.reply == Some(0isize)
    } else if msg == WM_LBUTTONDOWN {
        step.reply == Some(0isize) && match step.action {
            PickerAction::Grab { bar, x: at } => first_touched(bars, x, y, bar as int) && at == x
                && next == (Picker { dragging: Some(bar), ..p }),
            PickerAction::Nothing => next == p && forall|j: int|
                0 <= j < bars.len() ==> !touches(#[trigger] bars[j], x, y),
            _ => false,
        }
    } else if msg == WM_MOUSEMOVE {
        next == p && step.reply == Some(0isize) && match p.dragging {
            Some(i) => step.action matches PickerAction::Slide { bar, x: at } && bar == i && at
                == x,
            None => step.action == PickerAction::Nothing,
        }
    } else if msg == WM_LBUTTONUP && p.dragging is Some {
        next == (Picker { dragging: None, ..p }) && step.action == PickerAction::LetGo && step.reply
            == Some(0isize)
    } else if msg == WM_KEYDOWN {
        step.reply == Some(0isize) && if wparam & 0xffff == VK_ESCAPE {
            next == p.with_verdict() && step.action == PickerAction::Finish { commit: false }
        } else if wparam & 0xffff == VK_RETURN {
            next == p.with_verdict() && step.action == PickerAction::Finish { commit: true }
        } else {
            next == p && step.action == PickerAction::Nothing
        }
    } else if msg == WM_COMMAND {
        step.reply == Some(0isize) && if wparam & 0xffff == ID_OK {
            next == p.with_verdict() && step.action == PickerAction::Finish { commit: true }
        } else if wparam & 0xffff == ID_CANCEL {
            next == p && step.action == PickerAction::Destroy
        } else if wparam & 0xffff == ID_RESET {
            next == (Picker { use_stock: true, ..p }) && step.action == PickerAction::Reset
        } else {
            next == p && step.action == PickerAction::Nothing
        }
    } else if msg == WM_CLOSE {
        next == p && step.action == PickerAction::Destroy && step.reply == Some(0isize)
    } else if msg == WM_DESTROY {
        next == p.with_verdict() && step.action == (PickerAction::Gone { cancel: !p.decided })
            && step.reply == Some(0isize)
    } else {
        next == p && step.action == PickerAction::Nothing && step.reply is None
    }
}

impl Picker {
    pub open spec fn with_verdict(self) -> Picker {
        Picker { decided: true, ..self }
    }

    /// A window that has just opened.
    pub fn open() -> (r: Picker)
        ensures
            r == (Picker { dragging: None, use_stock: false, decided: false }),
    {
        Picker { dragging: None, use_stock: false, decided: false }
    }

    /// Deals with a message. `bars` are the slider bars as they are on
    /// screen.
    pub fn on_message(
        &mut self,
        msg: u32,
        wparam: usize,
        lparam: isize,
        bars: &Vec<Rect>,
    ) -> (r: PickerStep)
        ensures
            picker_step(*old(self), msg, wparam, lparam, bars@, *final(self), r),
    {
        let action = if msg == WM_ERASEBKGND {
            return PickerStep { action: PickerAction::Nothing, reply: Some(1) };
        } else if msg == WM_PAINT {
            PickerAction::Paint
        } else if msg == WM_LBUTTONDOWN {
            let x = loword_i(lparam);
            match bar_under(bars, x, hiword_i(lparam)) {
                Some(bar) => {
                    self.dragging = Some(bar);
                    PickerAction::Grab { bar, x }
                },
                None => PickerAction::Nothing,
            }
        } else if msg == WM_MOUSEMOVE {
            match self.dragging {
                Some(bar) => PickerAction::Slide { bar, x: loword_i(lparam) },
                None => PickerAction::Nothing,
            }
        } else if msg == WM_LBUTTONUP && self.dragging.is_some() {
            self.dragging = None;
            PickerAction::LetGo
        } else if msg == WM_KEYDOWN {
            let key: usize = wparam & 0xffff;
            if key == VK_ESCAPE {
                self.finish(false)
            } else if key == VK_RETURN {
                self.finish(true)
            } else {
                PickerAction::Nothing
            }
        } else if msg == WM_COMMAND {
            let id: usize = wparam & 0xffff;
            if id == ID_OK as usize {
                self.finish(true)
            } else if id == ID_CANCEL as usize {
                PickerAction::Destroy
            } else if id == ID_RESET as usize {
                self.use_stock = true;
                PickerAction::Reset
            } else {
                PickerAction::Nothing
            }
        } else if msg == WM_CLOSE {
            PickerAction::Destroy
        } else if msg == WM_DESTROY {
            let cancel = !self.decided;
            self.decided = true;
            PickerAction::Gone { cancel }
        } else {
            return PickerStep { action: PickerAction::Nothing, reply: None };
        };
        PickerStep { action, reply: Some(0) }
    }

    fn finish(&mut self, commit: bool) -> (r: PickerAction)
        ensures
            *final(self) == old(self).with_verdict(),
            r == (PickerAction::Finish { commit }),
    {
        self.decided = true;
        PickerAction::Finish { commit }
    }
}

/// The verdict that an action posts to the owner, if it posts one.
pub open spec fn verdict(action: PickerAction) -> Option<u32> {
    match action {
        PickerAction::Finish { commit } => Some(
            if commit {
                WM_WATER_COMMIT
            } else {
                WM_WATER_CANCEL
            },
        ),
        PickerAction::Gone { cancel } => if cancel {
            Some(WM_WATER_CANCEL)
        } else {
            None
        },
        _ => None,
    }
}

/// A message to the window.
pub struct Message {
    pub msg: u32,
    pub wparam: usize,
    pub lparam: isize,
}

/// Message `i` is dealt with by step `i`, which takes the window from one
/// state to the next.
#[verifier::opaque]
pub open spec fn dealt_with(
    states: Seq<Picker>,
    messages: Seq<Message>,
    steps: Seq<PickerStep>,
    bars: Seq<Rect>,
    i: int,
) -> bool {
    picker_step(
        states[i],
        messages[i].msg,
        messages[i].wparam,
        messages[i].lparam,
        bars,
        states[i + 1],
        steps[i],
    )
}

/// The step destroys the window.
pub open spec fn ends_window(step: PickerStep) -> bool {
    step.action is Finish || step.action is Destroy
}

/// The life of a window: `messages` are dealt with by `steps`, `states[i]` is
/// the window before message `i`. The last message, and no other, tells that
/// the window is gone. Before that the window is destroyed once at most, and
/// any messages may come in between.
pub open spec fn lifetime(
    states: Seq<Picker>,
    messages: Seq<Message>,
    steps: Seq<PickerStep>,
    bars: Seq<Rect>,
) -> bool {
    let n = messages.len();
    &&& n > 0
    &&& steps.len() == n
    &&& states.len() == n + 1
    &&& !states[0].decided
    &&& forall|i: int| 0 <= i < n ==> #[trigger] dealt_with(states, messages, steps, bars, i)
    &&& forall|i: int| 0 <= i < n ==> ((#[trigger] messages[i]).msg == WM_DESTROY <==> i == n - 1)
    &&& forall|i: int, j: int|
        0 <= i < j < n && #[trigger] ends_window(steps[i]) ==> !#[trigger] ends_window(steps[j])
}

/// What a step says about the verdict.
proof fn lemma_verdict(
    states: Seq<Picker>,
    messages: Seq<Message>,
    steps: Seq<PickerStep>,
    bars: Seq<Rect>,
    i: int,
)
    requires
        dealt_with(states, messages, steps, bars, i),
    ensures
        messages[i].msg == WM_DESTROY ==> (verdict(steps[i].action) is Some <==> !states[i].decided),
        messages[i].msg != WM_DESTROY ==> {
            &&& verdict(steps[i].action) is Some <==> steps[i].action is Finish
            &&& states[i + 1].decided <==> states[i].decided || steps[i].action is Finish
        },
{
    reveal(dealt_with);
}

/// Until the window is gone the matter is decided once a step has decided it.
proof fn lemma_decided(
    states: Seq<Picker>,
    messages: Seq<Message>,
    steps: Seq<PickerStep>,
    bars: Seq<Rect>,
    i: int,
)
    requires
        lifetime(states, messages, steps, bars),
        0 <= i < messages.len(),
    ensures
        states[i].decided <==> exists|k: int|
            0 <= k < i && (#[trigger] steps[k]).action is Finish,
    decreases i,
{
    if i > 0 {
        lemma_decided(states, messages, steps, bars, i - 1);
        assert(dealt_with(states, messages, steps, bars, i - 1));
        lemma_verdict(states, messages, steps, bars, i - 1);
        assert(messages[i - 1].msg != WM_DESTROY);
        assert(steps[i - 1].action is Finish ==> states[i].decided);
    }
}

/// In the life of a window exactly one verdict is posted.
pub proof fn law_one_verdict(
    states: Seq<Picker>,
    messages: Seq<Message>,
    steps: Seq<PickerStep>,
    bars: Seq<Rect>,
)
    requires
        lifetime(states, messages, steps, bars),
    ensures
        exists|i: int| #![trigger steps[i]]
            0 <= i < steps.len() && verdict(steps[i].action) is Some && forall|j: int|
                #![trigger steps[j]]
                0 <= j < steps.len() && j != i ==> verdict(steps[j].action) is None,
{
    let last = messages.len() - 1;
    assert forall|j: int| #![trigger steps[j]] 0 <= j < last implies (verdict(
        steps[j].action,
    ) is Some <==> steps[j].action is Finish) by {
        assert(dealt_with(states, messages, steps, bars, j));
        lemma_verdict(states, messages, steps, bars, j);
        assert(messages[j].msg != WM_DESTROY);
    }
    assert(messages[last].msg == WM_DESTROY);
    assert(dealt_with(states, messages, steps, bars, last));
    lemma_verdict(states, messages, steps, bars, last);
    lemma_decided(states, messages, steps, bars, last);
    if states[last].decided {
        let k = choose|k: int| 0 <= k < last && (#[trigger] steps[k]).action is Finish;
        assert(verdict(steps[k].action) is Some);
        assert forall|j: int| #![trigger steps[j]] 0 <= j < steps.len() && j != k implies verdict(
            steps[j].action,
        ) is None by {
            assert(ends_window(steps[k]));
            if j < last && steps[j].action is Finish {
                assert(ends_window(steps[j]));
            }
        }
    } else {
        assert(verdict(steps[last].action) is Some);
    }
}

/// A message posts a verdict exactly when it decides the matter, unless a key
/// or OK decides it again; and once decided it stays so.
pub proof fn law_verdict_decides(
    p: Picker,
    msg: u32,
    wparam: usize,
    lparam: isize,
    bars: Seq<Rect>,
    next: Picker,
    step: PickerStep,
)
    requires
        picker_step(p, msg, wparam, lparam, bars, next, step),
    ensures
        !p.decided ==> (verdict(step.action) is Some <==> next.decided),
        p.decided ==> next.decided,
{
}

/// By the time the window is gone the owner knows: from what was posted
/// before, or else from a cancelling message now.
pub proof fn law_window_ends_decided(
    p: Picker,
    wparam: usize,
    lparam: isize,
    bars: Seq<Rect>,
    next: Picker,
    step: PickerStep,
)
    requires
        picker_step(p, WM_DESTROY, wparam, lparam, bars, next, step),
    ensures
        next.decided,
        verdict(step.action) == if p.decided {
            None
        } else {
            Some(WM_WATER_CANCEL)
        },
{
}

/// Only OK and the return key keep the preview.
pub proof fn law_only_ok_commits(
    p: Picker,
    msg: u32,
    wparam: usize,
    lparam: isize,
    bars: Seq<Rect>,
    next: Picker,
    step: PickerStep,
)
    requires
        picker_step(p, msg, wparam, lparam, bars, next, step),
    ensures
        verdict(step.action) == Some(WM_WATER_COMMIT) <==> (msg == WM_COMMAND && wparam & 0xffff
            == ID_OK) || (msg == WM_KEYDOWN && wparam & 0xffff == VK_RETURN),
{
}

/// A bar is only ever dragged after it was touched, and it is one of those on
/// screen.
pub proof fn law_drags_a_bar(
    p: Picker,
    msg: u32,
    wparam: usize,
    lparam: isize,
    bars: Seq<Rect>,
    next: Picker,
    step: PickerStep,
)
    requires
        picker_step(p, msg, wparam, lparam, bars, next, step),
        p.dragging matches Some(i) ==> i < bars.len(),
    ensures
        next.dragging matches Some(i) ==> i < bars.len(),
        step.action matches PickerAction::Slide { bar, x } ==> bar < bars.len(),
        step.action matches PickerAction::Grab { bar, x } ==> bar < bars.len(),
{
}

// ---- colors ---------------------------------------------------------------

/// 0.5 degrees.
pub const HUE_SLACK: u32 = 0x3f00_0000;

/// 0.005.
pub const SLACK: u32 = 0x3ba3_d70a;

/// The sliders stand at the base palette.
pub open spec fn is_base(hue_gap: Single, saturation_gap: Single, lightness_gap: Single) -> bool {
    hue_gap.lt(Single { bits: HUE_SLACK }) && saturation_gap.lt(Single { bits: SLACK })
        && lightness_gap.lt(Single { bits: SLACK })
}

/// Whether the sliders stand where they reproduce the base palette, given how
/// far hue, saturation and lightness are from its own.
pub fn at_base(hue_gap: Single, saturation_gap: Single, lightness_gap: Single) -> (r: bool)
    ensures
        r == is_base(hue_gap, saturation_gap, lightness_gap),
{
    hue_gap.is_below(Single { bits: HUE_SLACK }) && saturation_gap.is_below(Single { bits: SLACK })
        && lightness_gap.is_below(Single { bits: SLACK })
}

/// What recoloring a pair gives.
pub open spec fn derived(
    shallow: Seq<char>,
    deep: Seq<char>,
    fresh: Option<(Rgb, Rgb)>,
) -> (Seq<char>, Seq<char>) {
    match fresh {
        Some(pair) => (color::hex_of(pair.0), color::hex_of(pair.1)),
        None => (shallow, deep),
    }
}

/// The pair of water colors, written out, that recoloring a pair gives.
/// `fresh` is the pair at the picked hue, saturation and lightness; without
/// it the sliders stand at the base palette, and the pair is returned
/// untouched.
pub fn derive(shallow_hex: &str, deep_hex: &str, fresh: Option<(Rgb, Rgb)>) -> (r: (String, String))
    ensures
        (r.0@, r.1@) == derived(shallow_hex@, deep_hex@, fresh),
{
    match fresh {
        Some((shallow, deep)) => (color::hex(shallow), color::hex(deep)),
        None => (shallow_hex.to_owned(), deep_hex.to_owned()),
    }
}

/// The bars for saturation and lightness show at every place what dragging
/// them there would give, and the bar for the hue shows the hue that it would
/// give.
pub proof fn law_bars_show_what_dragging_gives(
    i: usize,
    t: Single,
    degrees: Single,
    hsl: (Single, Single, Single),
)
    requires
        i < BARS,
    ensures
        i > 0 ==> shade_at(i, t, degrees, hsl) == slid(i, t, degrees, hsl),
        shade_at(0, t, degrees, hsl).0 == slid(0, t, degrees, hsl).0,
{
}

/// The bars, the swatch, the hint and the buttons stand below each other
/// without touching, inside the window.
pub proof fn law_layout()
    ensures
        forall|i: int| 0 <= i < BARS - 1 ==> (#[trigger] bar_at(i)).bottom < bar_at(i + 1).top,
        bar_at(BARS - 1).bottom < SWATCH_Y,
        SWATCH_Y + SWATCH_H < HINT_Y,
        HINT_Y + HINT_H < BTN_Y,
        BTN_Y + BTN_H < CLIENT_H,
        forall|i: int|
            0 <= i < buttons_spec().len() ==> 0 <= (#[trigger] buttons_spec()[i]).x
                && buttons_spec()[i].x + buttons_spec()[i].w < CLIENT_W,
{
}

/// On a screen with room for it, the window opens within the screen, eight
/// pixels from its sides at least; and above the cursor where that fits.
pub proof fn law_placement(x: int, y: int, w: int, h: int, sw: int, sh: int)
    requires
        0 <= w,
        0 <= h,
        w + 16 <= sw,
        h + 16 <= sh,
        0 <= y <= sh,
    ensures
        8 <= placed_x(x, w, sw),
        placed_x(x, w, sw) + w <= sw - 8,
        0 <= placed_y(y, h, sh),
        placed_y(y, h, sh) + h <= sh,
        y > h + 16 ==> placed_y(y, h, sh) + h + 16 == y,
{
}

// ---- laws of the messages -------------------------------------------------

/// A message carries a point as two signed numbers of sixteen bits, the
/// column below the row, whatever their signs.
pub proof fn law_point_in_a_message(lparam: isize, x: int, y: int)
    requires
        -0x8000 <= x < 0x8000,
        -0x8000 <= y < 0x8000,
        lparam == y * 0x1_0000 + (if x < 0 {
            x + 0x1_0000
        } else {
            x
        }),
    ensures
        low_word(lparam) == x,
        high_word(lparam) == y,
{
    let (q, m) = (lparam >> 16, lparam & 0xffff);
    assert(lparam == q * 0x1_0000 + m && 0 <= m <= 0xffff) by (bit_vector)
        requires
            q == lparam >> 16,
            m == lparam & 0xffff,
    ;
    let (t, n) = (q >> 16, q & 0xffff);
    assert(q == t * 0x1_0000 + n && 0 <= n <= 0xffff) by (bit_vector)
        requires
            t == q >> 16,
            n == q & 0xffff,
    ;
    assert(q == y);
}

/// A preview message is a sum: one for the stock palette, twice the
/// saturation and 65536 times the lightness, with the hue beside it.
pub proof fn law_preview_is_a_sum(p: Preview)
    requires
        p.saturation < 1024,
        p.lightness < 1024,
    ensures
        preview_bits(p.stock, p.saturation, p.lightness) == (if p.stock {
            1int
        } else {
            0
        }) + 2 * p.saturation + 0x1_0000 * p.lightness,
{
    let (s, l) = (p.saturation, p.lightness);
    assert(s < 1024 && l < 1024 ==> (1usize | (s << 1) | (l << 16)) == 1 + 2 * s + 0x1_0000 * l)
        by (bit_vector);
    assert(s < 1024 && l < 1024 ==> (0usize | (s << 1) | (l << 16)) == 2 * s + 0x1_0000 * l)
        by (bit_vector);
}

/// The owner takes a preview message apart again: each part is read from its
/// own bits, whatever the others are.
pub proof fn law_preview_is_taken_apart(wparam: usize, lparam: isize)
    ensures
        preview_of(wparam, lparam).stock <==> wparam % 2 == 1,
        preview_of(wparam, lparam).saturation == wparam / 2 % 1024,
        preview_of(wparam, lparam).lightness == wparam / 0x1_0000 % 1024,
        preview_of(wparam, lparam).hue == lparam,
{
    assert((wparam & 1 != 0) == (wparam % 2 == 1)) by (bit_vector);
    assert((wparam >> 1) & 0x3ff == wparam / 2 % 1024) by (bit_vector);
    assert((wparam >> 16) & 0x3ff == wparam / 0x1_0000 % 1024) by (bit_vector);
}

/// Every message is dealt with in just one way.
pub proof fn law_one_step_for_each_message(
    p: Picker,
    msg: u32,
    wparam: usize,
    lparam: isize,
    bars: Seq<Rect>,
    next: Picker,
    step: PickerStep,
    other: Picker,
    way: PickerStep,
)
    requires
        picker_step(p, msg, wparam, lparam, bars, next, step),
        picker_step(p, msg, wparam, lparam, bars, other, way),
    ensures
        next == other,
        step == way,
{
    if msg == WM_LBUTTONDOWN {
        let (x, y) = (low_word(lparam), high_word(lparam));
        if let PickerAction::Grab { bar, .. } = step.action {
            assert(touches(bars[bar as int], x, y));
        }
        if let PickerAction::Grab { bar, .. } = way.action {
            assert(touches(bars[bar as int], x, y));
        }
    }
}

/// A press takes hold of the bar under it, which reaches four pixels further
/// up and down than it is drawn, and of the first one where several do. The
/// bar is set at once from the place of the press. A press beside the bars
/// does nothing.
pub proof fn law_press_takes_hold(
    p: Picker,
    wparam: usize,
    lparam: isize,
    bars: Seq<Rect>,
    next: Picker,
    step: PickerStep,
    x: int,
    y: int,
    i: int,
)
    requires
        picker_step(p, 0x0201, wparam, lparam, bars, next, step),
        low_word(lparam) == x,
        high_word(lparam) == y,
    ensures
        0 <= i < bars.len() && bars[i].left <= x <= bars[i].right && bars[i].top <= y + 4 && y
            <= bars[i].bottom + 4 && (forall|j: int|
            0 <= j < i ==> x < (#[trigger] bars[j]).left || x > bars[j].right || y + 4 < bars[j].top
                || y > bars[j].bottom + 4) ==> (step.action matches PickerAction::Grab { bar, x: at }
            && bar == i && at == x) && (next.dragging matches Some(b) && b == i),
        (forall|j: int|
            0 <= j < bars.len() ==> x < (#[trigger] bars[j]).left || x > bars[j].right || y + 4
                < bars[j].top || y > bars[j].bottom + 4) ==> step.action is Nothing && next == p,
{
    if 0 <= i < bars.len() && bars[i].left <= x <= bars[i].right && bars[i].top <= y + 4 && y
        <= bars[i].bottom + 4 {
        assert(touches(bars[i], x, y));
        if let PickerAction::Grab { bar, .. } = step.action {
            assert(touches(bars[bar as int], x, y));
            if bar < i {
                assert(touches(bars[bar as int], x, y));
            }
        }
    }
    if let PickerAction::Grab { bar, .. } = step.action {
        assert(touches(bars[bar as int], x, y));
    }
}

/// While a bar is held every move of the mouse sets it, from the column of
/// the mouse alone, so that leaving the bar up or down does no harm. Without
/// one held, moves do nothing.
pub proof fn law_moves_set_the_held_bar(
    p: Picker,
    wparam: usize,
    lparam: isize,
    bars: Seq<Rect>,
    next: Picker,
    step: PickerStep,
)
    requires
        picker_step(p, 0x0200, wparam, lparam, bars, next, step),
    ensures
        next == p,
        p.dragging is None ==> step.action is Nothing,
        p.dragging matches Some(held) ==> (step.action matches PickerAction::Slide { bar, x } && bar
            == held && x == low_word(lparam)),
{
}

/// A bar is held from a press on it to the next release, and only that long.
/// The stock palette is chosen by the reset button, and stays chosen.
pub proof fn law_what_changes_the_picker(
    p: Picker,
    msg: u32,
    wparam: usize,
    lparam: isize,
    bars: Seq<Rect>,
    next: Picker,
    step: PickerStep,
)
    requires
        picker_step(p, msg, wparam, lparam, bars, next, step),
    ensures
        msg == 0x0202 ==> next.dragging is None,
        msg != 0x0201 && msg != 0x0202 ==> next.dragging == p.dragging,
        msg == 0x0201 && step.action is Nothing ==> next.dragging == p.dragging,
        next.use_stock <==> p.use_stock || (msg == 0x0111 && wparam & 0xffff == 3),
        next.decided <==> p.decided || msg == 0x0002 || (msg == 0x0100 && (wparam & 0xffff == 0x1b
            || wparam & 0xffff == 0x0d)) || (msg == 0x0111 && wparam & 0xffff == 1),
{
}

/// What each message comes to. The return key and the OK button keep the
/// preview, the escape key discards it, the cancel button and closing the
/// window destroy it, which discards the preview too; a release lets go of
/// the mouse if a bar is held.
pub proof fn law_what_messages_do(
    p: Picker,
    msg: u32,
    wparam: usize,
    lparam: isize,
    bars: Seq<Rect>,
    next: Picker,
    step: PickerStep,
)
    requires
        picker_step(p, msg, wparam, lparam, bars, next, step),
    ensures
        step.action == (PickerAction::Finish { commit: true }) <==> (msg == 0x0100 && wparam
            & 0xffff == 0x0d) || (msg == 0x0111 && wparam & 0xffff == 1),
        step.action == (PickerAction::Finish { commit: false }) <==> msg == 0x0100 && wparam
            & 0xffff == 0x1b,
        step.action is Destroy <==> msg == 0x0010 || (msg == 0x0111 && wparam & 0xffff == 2),
        step.action is Reset <==> msg == 0x0111 && wparam & 0xffff == 3,
        step.action is Paint <==> msg == 0x000f,
        step.action is LetGo <==> msg == 0x0202 && p.dragging is Some,
        step.action is Gone <==> msg == 0x0002,
        step.action is Gone ==> step.action == (PickerAction::Gone { cancel: !p.decided }),
{
}

/// The window answers the messages that it deals with: with 1 to leave the
/// background alone, else with 0. All others get the default treatment and
/// change nothing.
pub proof fn law_what_the_picker_answers(
    p: Picker,
    msg: u32,
    wparam: usize,
    lparam: isize,
    bars: Seq<Rect>,
    next: Picker,
    step: PickerStep,
)
    requires
        picker_step(p, msg, wparam, lparam, bars, next, step),
    ensures
        step.reply == Some(1isize) <==> msg == 0x0014,
        step.reply is Some ==> step.reply == Some(0isize) || step.reply == Some(1isize),
        step.reply is Some <==> msg == 0x0014 || msg == 0x000f || msg == 0x0201 || msg == 0x0200 || (
        msg == 0x0202 && p.dragging is Some) || msg == 0x0100 || msg == 0x0111 || msg == 0x0010
            || msg == 0x0002,
        step.reply is None ==> next == p && step.action is Nothing,
{
}

// ---- laws of what is painted ----------------------------------------------

/// Dragging a slider moves that one and no other, to where it was dragged,
/// and the last place counts. The hue goes round in degrees, the other two
/// go by the way along their bar.
pub proof fn law_dragging_moves_one_slider(
    i: usize,
    t: Single,
    degrees: Single,
    t2: Single,
    degrees2: Single,
    hsl: (Single, Single, Single),
)
    requires
        i < 3,
    ensures
        slid(0, t, degrees, hsl).0 == degrees,
        slid(1, t, degrees, hsl).1 == t,
        slid(2, t, degrees, hsl).2 == t,
        i != 0 ==> slid(i, t, degrees, hsl).0 == hsl.0,
        i != 1 ==> slid(i, t, degrees, hsl).1 == hsl.1,
        i != 2 ==> slid(i, t, degrees, hsl).2 == hsl.2,
        slid(i, t2, degrees2, slid(i, t, degrees, hsl)) == slid(i, t2, degrees2, hsl),
{
}

/// The bar for the hue shows the whole spectrum, as vivid and as bright
/// wherever the other two sliders stand.
pub proof fn law_spectrum_is_always_vivid(
    t: Single,
    degrees: Single,
    hsl: (Single, Single, Single),
)
    ensures
        shade_at(0, t, degrees, hsl).0 == degrees,
        shade_at(0, t, degrees, hsl).1.bits == 0x3f59_999a,
        shade_at(0, t, degrees, hsl).2.bits == 0x3f0c_cccd,
{
}

/// The columns of a bar cover it, from its left edge to its right one, each a
/// pixel wide, as high as the bar and next to the one before.
pub proof fn law_columns_cover_the_bar(bar: Rect, k: int)
    requires
        bar.left < bar.right,
    ensures
        columns_of(bar).len() > 0,
        columns_of(bar)[0].left == bar.left,
        columns_of(bar).last().right == bar.right,
        0 <= k < columns_of(bar).len() ==> columns_of(bar)[k].right == columns_of(bar)[k].left + 1
            && columns_of(bar)[k].top == bar.top && columns_of(bar)[k].bottom == bar.bottom,
        0 <= k < columns_of(bar).len() - 1 ==> columns_of(bar)[k + 1].left == columns_of(
            bar,
        )[k].right,
{
}

/// The rows of the swatch cover it, from its top to its bottom, each a pixel
/// high, as wide as the swatch and next to the one before.
pub proof fn law_rows_cover_the_swatch(swatch: Rect, k: int)
    requires
        swatch.top < swatch.bottom,
    ensures
        rows_of(swatch).len() > 0,
        rows_of(swatch)[0].top == swatch.top,
        rows_of(swatch).last().bottom == swatch.bottom,
        0 <= k < rows_of(swatch).len() ==> rows_of(swatch)[k].bottom == rows_of(swatch)[k].top + 1
            && rows_of(swatch)[k].left == swatch.left && rows_of(swatch)[k].right == swatch.right,
        0 <= k < rows_of(swatch).len() - 1 ==> rows_of(swatch)[k + 1].top == rows_of(
            swatch,
        )[k].bottom,
{
}

/// An empty bar has no columns, and an empty swatch no rows.
pub proof fn law_nothing_to_paint(r: Rect)
    ensures
        r.right <= r.left ==> columns_of(r).len() == 0,
        r.bottom <= r.top ==> rows_of(r).len() == 0,
{
}

/// A thumb is seven pixels wide with its place in the middle, and sticks out
/// of its bar as far at the top as at the bottom: just as far as the bar can
/// be touched.
pub proof fn law_thumb_marks_its_place(bar: Rect, x: int, y: int)
    requires
        bar.left <= x <= bar.right,
        i32::MIN <= x - 3,
        x + 4 <= i32::MAX,
        i32::MIN <= bar.top - 4,
        bar.bottom + 4 <= i32::MAX,
    ensures
        thumb_at(bar, x).right - thumb_at(bar, x).left == 7,
        x - thumb_at(bar, x).left == 3,
        thumb_at(bar, x).top <= y <= thumb_at(bar, x).bottom <==> touches(bar, x, y),
{
}

/// A length to divide by is the distance, and one where that is nothing or
/// less.
pub proof fn law_span(from: int, to: int)
    ensures
        length(from, to) >= 1,
        to > from ==> length(from, to) == to - from,
        to <= from ==> length(from, to) == 1,
{
}

/// The sliders stand at the base palette exactly while each of the three gaps
/// is small: half a degree for the hue, a two-hundredth for the others. Closer
/// is at the base too, and a gap that is no number never is.
pub proof fn law_at_base(h: Single, s: Single, l: Single, h2: Single, s2: Single, l2: Single)
    ensures
        is_base(h, s, l) && h2.le(h) && s2.le(s) && l2.le(l) ==> is_base(h2, s2, l2),
        (Single { bits: 0x3f00_0000 }).le(h) ==> !is_base(h, s, l),
        (Single { bits: 0x3ba3_d70a }).le(s) ==> !is_base(h, s, l),
        (Single { bits: 0x3ba3_d70a }).le(l) ==> !is_base(h, s, l),
        h.nan() || s.nan() || l.nan() ==> !is_base(h, s, l),
        h.lt(Single { bits: 0x3f00_0000 }) && s.lt(Single { bits: 0x3ba3_d70a }) && l.lt(
            Single { bits: 0x3ba3_d70a },
        ) ==> is_base(h, s, l),
        is_base(h, s, l) == is_base(h, l, s),
{
}

/// Recoloring at the base palette hands the colors back as they were written;
/// else the fresh ones are written out, each in its own place, and are read
/// back as they are.
pub proof fn law_recoloring(shallow: Seq<char>, deep: Seq<char>, fresh: (Rgb, Rgb))
    ensures
        derived(shallow, deep, None) == (shallow, deep),
        color::color_of(derived(shallow, deep, Some(fresh)).0) == Some(fresh.0),
        color::color_of(derived(shallow, deep, Some(fresh)).1) == Some(fresh.1),
        derived(shallow, deep, Some(fresh)).0.len() == 7,
        derived(shallow, deep, Some(fresh)).1.len() == 7,
        derived(shallow, deep, Some(fresh)) == derived(deep, shallow, Some(fresh)),
        derived(shallow, deep, Some(fresh)).0 == color::hex_of(fresh.0),
        derived(shallow, deep, Some(fresh)).1 == color::hex_of(fresh.1),
{
    color::law_hex_reads_back(fresh.0);
    color::law_hex_reads_back(fresh.1);
}

/// The window is centered over the cursor where that leaves eight pixels at
/// either side, and else moved just as far as needed. It opens sixteen pixels
/// above the cursor, below it where there is no room above, and at the bottom
/// of the screen where there is none below.
pub proof fn law_window_opens_at_the_cursor(x: int, y: int, w: int, h: int, sw: int, sh: int)
    requires
        0 <= w,
        w + 16 <= sw,
    ensures
        8 <= x - w / 2 && x - w / 2 + w + 8 <= sw ==> placed_x(x, w, sw) == x - w / 2,
        x - w / 2 < 8 ==> placed_x(x, w, sw) == 8,
        x - w / 2 + w + 8 > sw ==> placed_x(x, w, sw) + w + 8 == sw,
        y > h + 16 ==> placed_y(y, h, sh) + h + 16 == y,
        y <= h + 16 && y + 16 + h < sh ==> placed_y(y, h, sh) == y + 16,
        y <= h + 16 && y + 16 + h >= sh ==> placed_y(y, h, sh) + h == sh,
{
}

/// A screen too narrow for the window has it at its left edge, eight pixels
/// in, wherever the cursor is.
pub proof fn law_narrow_screens(x: int, w: int, sw: int)
    requires
        0 <= w,
        sw < w + 16,
    ensures
        placed_x(x, w, sw) == 8,
{
}

/// On every screen there is a place to open the window can be worked out.
pub proof fn law_screens_are_placeable(x: i32, y: i32, w: i32, h: i32, sw: i32, sh: i32)
    requires
        0 <= w <= 0x4000_0000,
        0 <= h <= 0x3fff_ffe0,
        -0x4000_0000 <= x <= 0x4000_0000,
        -0x4000_0000 <= y <= 0x4000_0000,
        0 <= sw <= 0x4000_0000,
        0 <= sh <= 0x4000_0000,
    ensures
        placeable(x, y, w, h, sw, sh),
{
}

} // verus!
