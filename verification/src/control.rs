//! The program's state between messages and frames, and what each of them
//! asks it to do.
//!
//! Times are nanoseconds since the program started.

use vstd::prelude::*;

use crate::assets;
use crate::assets::{Art, AssetError};
use crate::atlas::SpriteAtlas;
use crate::character;
use crate::color;
use crate::color::Rgb;
use crate::colorpicker;
use crate::colorpicker::Preview;
use crate::config;
use crate::config::{Config, CustomSprite, Settings, SpriteSettings};
use crate::message::{WM_DISPLAYCHANGE, WM_DPICHANGED, WM_QUIT, WM_SETTINGCHANGE};
use crate::single::Single;
use crate::store::{ConfigStore, Stored};
use crate::text;
use crate::tray;
use crate::tray::{Command, MenuItem, TrayCommand};

verus! {

/// Nanoseconds in a second.
pub const SECOND: i128 = 1_000_000_000;

/// Nanoseconds in a millisecond.
pub const MILLISECOND: i128 = 1_000_000;

/// The program's state.
pub struct App {
    pub store: ConfigStore,
    /// Water colors that are being previewed. They are shown in place of the
    /// settings' until they are kept or discarded.
    pub water_preview: Option<(String, String)>,
    /// The color picker, while one is open.
    pub picker: Option<isize>,
    /// The message that announces a new taskbar, or 0.
    pub taskbar_created_msg: u32,
    pub last_tick: u64,
    pub next_frame: i128,
    pub last_slow_poll: i128,
    /// Something covers the whole screen.
    pub suspended: bool,
    pub need_refresh: bool,
    pub quitting: bool,
    /// The state of the random numbers for rotating characters.
    pub rng: u64,
    /// The built-in character that is on while characters rotate.
    pub rotate_id: String,
    pub next_rotate: i128,
}

/// What an [`App`] holds.
#[verifier::ext_equal]
pub struct Situation {
    pub stored: Stored,
    pub water_preview: Option<(Seq<char>, Seq<char>)>,
    pub picker: Option<isize>,
    pub taskbar_created_msg: u32,
    pub last_tick: u64,
    pub next_frame: i128,
    pub last_slow_poll: i128,
    pub suspended: bool,
    pub need_refresh: bool,
    pub quitting: bool,
    pub rng: u64,
    pub rotate_id: Seq<char>,
    pub next_rotate: i128,
}

impl View for App {
    type V = Situation;

    open spec fn view(&self) -> Situation {
        Situation {
            stored: self.store@,
            water_preview: match self.water_preview {
                Some((s, d)) => Some((s@, d@)),
                None => None,
            },
            picker: self.picker,
            taskbar_created_msg: self.taskbar_created_msg,
            last_tick: self.last_tick,
            next_frame: self.next_frame,
            last_slow_poll: self.last_slow_poll,
            suspended: self.suspended,
            need_refresh: self.need_refresh,
            quitting: self.quitting,
            rng: self.rng,
            rotate_id: self.rotate_id@,
            next_rotate: self.next_rotate,
        }
    }
}

/// Something for the program to do.
#[derive(Debug, Clone, Copy, PartialEq, Eq, Structural)]
pub enum Effect {
    /// Bring the overlays in line with the taskbars.
    SyncOverlays,
    /// Write [`ConfigStore::to_write`] to the settings file.
    Save,
    /// Bring the registry in line with the settings.
    SyncAutostart { want: bool },
    /// Bring everything in line with the settings.
    ApplyConfigChange,
    /// Bring the open color picker to the front.
    FocusPicker { hwnd: isize },
    /// Open the color picker on the settings' colors.
    OpenPicker,
    /// Ask for an image and import it.
    PickImage,
    /// Open the settings file.
    OpenSettings,
    ShowAbout,
    /// End the message loop.
    Quit,
}

/// What a message asks for.
#[derive(Debug, Clone, Copy, PartialEq, Eq, Structural)]
pub enum Reaction {
    /// The default treatment.
    Default,
    /// Nothing more.
    Done,
    /// See to an event of the tray icon.
    Tray { event: u32 },
    /// Recolor the palette and hand it to [`App::set_preview`].
    Recolor { preview: Preview },
    /// Write [`ConfigStore::to_write`] to the settings file.
    Save,
    /// Add the tray icon anew, destroy the overlays, and give the message the
    /// default treatment.
    Restore,
}

/// What a frame asks for.
#[derive(Debug, Clone, Copy, PartialEq, Eq, Structural)]
pub enum FrameStep {
    /// It is not time yet.
    Wait,
    /// There is nothing to draw.
    Rest,
    /// Draw; this much time has passed since the last frame.
    Draw { elapsed: u64 },
}

impl Situation {
    pub open spec fn with_settings(self, current: Settings) -> Situation {
        Situation { stored: Stored { current, ..self.stored }, ..self }
    }

    /// Overlays are to be shown.
    pub open spec fn showing(self) -> bool {
        self.stored.current.enabled && !self.suspended
    }

    /// The situation after a command, and what it asks for.
    pub open spec fn commanded(self, cmd: Command) -> (Situation, Seq<Effect>) {
        let s = self.stored.current;
        match cmd {
            Command::TogglePause => (
                self.with_settings(Settings { enabled: !s.enabled, ..s }),
                seq![Effect::SyncOverlays],
            ),
            Command::ToggleMouseRipples => (
                self.with_settings(Settings { mouse_ripples: !s.mouse_ripples, ..s }),
                seq![Effect::Save],
            ),
            Command::ToggleAutostart => (
                self.with_settings(Settings { autostart: !s.autostart, ..s }),
                seq![Effect::SyncAutostart { want: !s.autostart }, Effect::Save],
            ),
            Command::WaterColor => (
                self,
                match self.picker {
                    Some(hwnd) => seq![Effect::FocusPicker { hwnd }],
                    None => seq![Effect::OpenPicker],
                },
            ),
            Command::SelectCharacter(id) => (
                self.with_settings(Settings { character: id, ..s }),
                seq![Effect::Save, Effect::ApplyConfigChange],
            ),
            Command::ImportImage => (self, seq![Effect::PickImage]),
            Command::OpenConfig => (self, seq![Effect::OpenSettings]),
            Command::About => (self, seq![Effect::ShowAbout]),
            Command::Exit => (self, seq![Effect::Quit]),
        }
    }

    /// The situation after an image was imported.
    pub open spec fn imported(self, sprite: SpriteSettings) -> Situation {
        self.with_settings(
            Settings {
                custom_sprite: Some(sprite),
                character: "custom"@,
                ..self.stored.current
            },
        )
    }

    /// The situation after a message, and what the message asks for.
    pub open spec fn told(self, msg: u32, wparam: usize, lparam: isize) -> (Situation, Reaction) {
        if msg == tray::WM_TRAYICON {
            (self, Reaction::Tray { event: lparam as u32 })
        } else if msg == colorpicker::WM_WATER_PREVIEW {
            (self, Reaction::Recolor { preview: colorpicker::preview_of(wparam, lparam) })
        } else if msg == colorpicker::WM_WATER_COMMIT {
            match self.water_preview {
                Some((shallow, deep)) => (
                    Situation { water_preview: None, picker: None, ..self }.with_settings(
                        Settings {
                            water_shallow: shallow,
                            water_deep: deep,
                            ..self.stored.current
                        },
                    ),
                    Reaction::Save,
                ),
                None => (Situation { picker: None, ..self }, Reaction::Done),
            }
        } else if msg == colorpicker::WM_WATER_CANCEL {
            (Situation { water_preview: None, picker: None, ..self }, Reaction::Done)
        } else if msg == WM_DISPLAYCHANGE || msg == WM_SETTINGCHANGE || msg == WM_DPICHANGED {
            (Situation { need_refresh: true, ..self }, Reaction::Default)
        } else if msg == self.taskbar_created_msg && msg != 0 {
            (Situation { need_refresh: true, ..self }, Reaction::Restore)
        } else {
            (self, Reaction::Default)
        }
    }

    /// The colors that are shown, as they are written.
    pub open spec fn shown_colors(self) -> (Seq<char>, Seq<char>) {
        match self.water_preview {
            Some(pair) => pair,
            None => (self.stored.current.water_shallow, self.stored.current.water_deep),
        }
    }

    /// The colors that are shown, where they can be read.
    pub open spec fn seen_colors(self) -> (Option<Rgb>, Option<Rgb>) {
        (color::color_of(self.shown_colors().0), color::color_of(self.shown_colors().1))
    }

    /// Housekeeping is due.
    pub open spec fn poll_due(self, now: u64) -> bool {
        now - self.last_slow_poll >= SECOND || self.need_refresh
    }

    /// Another character is due.
    pub open spec fn rotate_due(self, now: u64) -> bool {
        self.stored.current.character == "rotate"@ && now >= self.next_rotate
    }

    /// The situation of a program that starts at `now`.
    pub open spec fn starting(
        stored: Stored,
        taskbar_created_msg: u32,
        now: u64,
        rng: u64,
        rotate_id: Seq<char>,
    ) -> Situation {
        Situation {
            stored,
            water_preview: None,
            picker: None,
            taskbar_created_msg,
            last_tick: now,
            next_frame: now as i128,
            last_slow_poll: (now - 10 * SECOND) as i128,
            suspended: false,
            need_refresh: true,
            quitting: false,
            rng,
            rotate_id,
            next_rotate: now as i128,
        }
    }

    /// The situation after a message was taken from the queue.
    pub open spec fn dequeued(self, msg: u32) -> Situation {
        Situation { quitting: self.quitting || msg == WM_QUIT, ..self }
    }

    /// The situation while a color picker is open.
    pub open spec fn picking(self, hwnd: isize) -> Situation {
        Situation { picker: Some(hwnd), ..self }
    }

    /// The colors that a preview starts from.
    pub open spec fn base_colors(self, stock: bool) -> (Seq<char>, Seq<char>) {
        let s = if stock {
            config::stock()
        } else {
            self.stored.current
        };
        (s.water_shallow, s.water_deep)
    }

    /// The situation while other colors are previewed.
    pub open spec fn previewing(self, colors: (Seq<char>, Seq<char>)) -> Situation {
        Situation { water_preview: Some(colors), ..self }
    }

    /// The situation after asking whether housekeeping is due.
    pub open spec fn polled(self, now: u64) -> Situation {
        if self.poll_due(now) {
            Situation { last_slow_poll: now as i128, need_refresh: false, ..self }
        } else {
            self
        }
    }

    /// The situation after `n` picks gave another character.
    pub open spec fn rotated(self, n: nat, now: u64, stay: u64) -> Situation {
        Situation {
            rng: state_after(self.rng, n),
            rotate_id: picked(state_after(self.rng, n)),
            next_rotate: (now + stay) as i128,
            ..self
        }
    }

    /// The situation after Windows told the state of the user.
    pub open spec fn watching(self, state: Option<i32>) -> Situation {
        Situation { suspended: state matches Some(s) && s != 5 && s != 6, ..self }
    }

    /// Being suspended changes by the state of the user.
    pub open spec fn shifted_by(self, state: Option<i32>) -> bool {
        self.watching(state).suspended != self.suspended
    }

    /// The situation after a frame.
    pub open spec fn scheduled(self, now: u64, any_active: bool) -> Situation {
        let s = self.stored.current;
        let fps = if any_active {
            s.active_fps
        } else {
            s.idle_fps
        };
        Situation { next_frame: (now + frame_time(fps)) as i128, ..self }
    }

    /// How many milliseconds to wait for the next frame.
    pub open spec fn wait_time(self, now: u64) -> int {
        if self.next_frame <= now {
            0
        } else if self.next_frame - now >= 500 * MILLISECOND {
            500
        } else {
            (self.next_frame - now) / (MILLISECOND as int)
        }
    }

    /// The situation when a frame starts, and what the frame asks for.
    pub open spec fn framed(self, now: u64, overlays: usize) -> (Situation, FrameStep) {
        if now < self.next_frame {
            (self, FrameStep::Wait)
        } else if !self.showing() || overlays == 0 {
            (
                Situation {
                    last_tick: now,
                    next_frame: (now + 300 * MILLISECOND) as i128,
                    ..self
                },
                FrameStep::Rest,
            )
        } else {
            (
                Situation { last_tick: now, ..self },
                FrameStep::Draw {
                    elapsed: if now >= self.last_tick {
                        (now - self.last_tick) as u64
                    } else {
                        0
                    },
                },
            )
        }
    }
}

/// A message from the queue is handed on.
pub open spec fn dispatched(msg: u32) -> bool {
    msg != WM_QUIT
}

// ---- random characters ----------------------------------------------------

/// The state of the random numbers `n` picks later.
pub open spec fn state_after(rng: u64, n: nat) -> u64
    decreases n,
{
    if n == 0 {
        rng
    } else {
        character::scrambled(state_after(rng, (n - 1) as nat))
    }
}

/// The character that a state of the random numbers picks.
pub open spec fn picked(rng: u64) -> Seq<char> {
    assets::roster_spec()[(rng >> 33) as int % assets::ROSTER_LEN as int].id@
}

/// Pick `n` is the first that is not `except`.
pub open spec fn first_change(rng: u64, except: Seq<char>, n: nat) -> bool {
    &&& n > 0
    &&& picked(state_after(rng, n)) != except
    &&& forall|k: nat| 0 < k < n ==> picked(#[trigger] state_after(rng, k)) == except
}

/// Every pick that ever comes is `except`.
pub open spec fn never_changes(rng: u64, except: Seq<char>) -> bool {
    forall|k: nat| k > 0 ==> picked(#[trigger] state_after(rng, k)) == except
}

/// Picks in turn are picks in one go.
proof fn lemma_state_after_sum(rng: u64, a: nat, b: nat)
    ensures
        state_after(rng, a + b) == state_after(state_after(rng, a), b),
    decreases b,
{
    if b > 0 {
        lemma_state_after_sum(rng, a, (b - 1) as nat);
        assert((a + b - 1) as nat == a + (b - 1) as nat);
    }
}

/// A state that comes again comes after picks that lead back to the start.
proof fn lemma_back_to_start(rng: u64, a: nat, b: nat)
    requires
        state_after(rng, a) == state_after(rng, a + b),
    ensures
        state_after(rng, b) == rng,
    decreases a,
{
    if a > 0 {
        let before = (a - 1) as nat;
        assert((a + b - 1) as nat == before + b);
        character::law_states_stay_apart(state_after(rng, before), state_after(rng, before + b));
        lemma_back_to_start(rng, before, b);
    }
}

/// There are only so many states: picks that never lead back to the start are
/// fewer than those.
proof fn lemma_picks_are_bounded(rng: u64, n: nat)
    requires
        forall|k: nat| 0 < k <= n ==> #[trigger] state_after(rng, k) != rng,
    ensures
        n < 0x1_0000_0000_0000_0000,
{
    let seen = Seq::new(n + 1, |i: int| state_after(rng, i as nat) as int);
    assert forall|i: int, j: int| 0 <= i < j < seen.len() implies seen[i] != seen[j] by {
        if seen[i] == seen[j] {
            assert(j as nat == i as nat + (j - i) as nat);
            lemma_back_to_start(rng, i as nat, (j - i) as nat);
        }
    }
    assert(seen.no_duplicates());
    seen.unique_seq_to_set();
    let all = vstd::set_lib::set_int_range(0, 0x1_0000_0000_0000_0000);
    vstd::set_lib::lemma_int_range(0, 0x1_0000_0000_0000_0000);
    assert(seen.to_set().subset_of(all)) by {
        assert forall|v: int| seen.to_set().contains(v) implies all.contains(v) by {
            let i = choose|i: int| 0 <= i < seen.len() && seen[i] == v;
            assert(seen[i] == state_after(rng, i as nat) as int);
        }
    }
    vstd::set_lib::lemma_len_subset(seen.to_set(), all);
}

/// Picks that lead back to the start say everything about those to come.
proof fn lemma_round_repeats(rng: u64, except: Seq<char>, n: nat, k: nat)
    requires
        n > 0,
        state_after(rng, n) == rng,
        forall|m: nat| 0 < m <= n ==> picked(#[trigger] state_after(rng, m)) == except,
        k > 0,
    ensures
        picked(state_after(rng, k)) == except,
    decreases k,
{
    if k > n {
        lemma_state_after_sum(rng, n, (k - n) as nat);
        assert(n + (k - n) as nat == k);
        lemma_round_repeats(rng, except, n, (k - n) as nat);
    }
}

/// Picks a random built-in character other than `except`, so that rotating
/// always changes the character. Nothing comes back just where no such pick
/// ever comes, and then the random numbers are where they were.
pub fn random_roster_id(rng: &mut u64, except: &str) -> (r: Option<&'static str>)
    ensures
        match r {
            Some(id) => id@ == picked(*final(rng)) && id@ != except@ && exists|n: nat|
                #[trigger] first_change(*old(rng), except@, n) && *final(rng) == state_after(
                    *old(rng),
                    n,
                ),
            None => never_changes(*old(rng), except@) && *final(rng) == *old(rng),
        },
{
    let all = assets::roster();
    let start: u64 = *rng;
    let ghost mut tried: nat = 0;
    assert(state_after(start, 0) == start);
    loop
        invariant
            start == *old(rng),
            all@ == assets::roster_spec(),
            all.len() == assets::ROSTER_LEN,
            *rng == state_after(start, tried),
            forall|k: nat| 0 < k <= tried ==> #[trigger] state_after(start, k) != start,
            forall|k: nat| 0 < k <= tried ==> picked(#[trigger] state_after(start, k)) == except@,
            tried < 0x1_0000_0000_0000_0000,
        decreases 0x1_0000_0000_0000_0000 - tried,
    {
        *rng = character::scramble(*rng);
        let ghost n = tried + 1;
        assert(*rng == state_after(start, n));
        let s: u64 = *rng;
        assert(s >> 33 < 0x8000_0000) by (bit_vector);
        let i: usize = (s >> 33) as usize % all.len();
        let id = all[i].id;
        assert(id@ == picked(s));
        if !text::same(id, except) {
            assert(first_change(start, except@, n));
            return Some(id);
        }
        if s == start {
            proof {
                assert forall|k: nat| k > 0 implies picked(#[trigger] state_after(start, k))
                    == except@ by {
                    lemma_round_repeats(start, except@, n, k);
                }
            }
            return None;
        }
        proof {
            tried = n;
            lemma_picks_are_bounded(start, tried);
        }
    }
}

/// A change has one first pick, and where there is none no pick ever changes
/// anything.
pub proof fn law_first_change(rng: u64, except: Seq<char>, n: nat, m: nat)
    requires
        first_change(rng, except, n),
    ensures
        first_change(rng, except, m) ==> m == n,
        !never_changes(rng, except),
{
    if first_change(rng, except, m) && m != n {
        if m < n {
            assert(picked(state_after(rng, m)) == except);
        } else {
            assert(picked(state_after(rng, n)) == except);
        }
    }
}

/// Where `except` is no built-in character, as when the program starts, the
/// first pick is taken.
pub proof fn law_first_pick_is_free(rng: u64, except: Seq<char>)
    requires
        forall|i: int|
            0 <= i < assets::roster_spec().len() ==> (#[trigger] assets::roster_spec()[i]).id@
                != except,
    ensures
        first_change(rng, except, 1),
{
    let s = state_after(rng, 1);
    let i = (s >> 33) as int % assets::ROSTER_LEN as int;
    assert(assets::roster_spec()[i].id@ == picked(s));
}

/// At most one character can never be left.
pub proof fn law_at_most_one_is_stuck(rng: u64, a: Seq<char>, b: Seq<char>)
    requires
        never_changes(rng, a),
        a != b,
    ensures
        first_change(rng, b, 1),
{
    assert(picked(state_after(rng, 1)) == a);
}

/// The seed that the clock gives.
pub open spec fn seed_from(nanos: Option<u64>) -> u64 {
    (match nanos {
        Some(n) => n,
        None => 0x9e37_79b9_7f4a_7c15u64,
    }) | 1
}

/// Where the random numbers start: from the clock, in nanoseconds since 1970,
/// if it can be told.
pub fn rng_seed(nanos: Option<u64>) -> (r: u64)
    ensures
        r == seed_from(nanos),
        r != 0,
{
    let n: u64 = match nanos {
        Some(n) => n,
        None => 0x9e37_79b9_7f4a_7c15,
    };
    assert(n | 1 != 0) by (bit_vector);
    n | 1
}

/// The seed that a taskbar and the clock give.
pub open spec fn seed_over(hwnd: isize, nanos: u64) -> u64 {
    (hwnd as u64) ^ nanos
}

/// The seed for the character over a taskbar.
pub fn character_seed(hwnd: isize, nanos: u64) -> (r: u64)
    ensures
        r == seed_over(hwnd, nanos),
{
    (hwnd as u64) ^ nanos
}

// ---- frames ---------------------------------------------------------------

/// The time that each of `fps` frames a second gets, to the nearest
/// nanosecond.
pub open spec fn frame_time(fps: u32) -> int {
    (2 * SECOND + fps) / (2 * fps)
}

/// The time that a frame gets. The settings keep rates between 1 and 240.
pub fn frame_nanos(fps: u32) -> (r: u64)
    requires
        1 <= fps <= 240,
    ensures
        r == frame_time(fps),
{
    (2_000_000_000 + fps as u64) / (2 * fps as u64)
}

/// The square of the distance between two places, if it fits 32 bits.
pub open spec fn distance_squared(from: (i32, i32), to: (i32, i32)) -> Option<int> {
    let (dx, dy) = (to.0 - from.0, to.1 - from.1);
    if i32::MIN <= dx <= i32::MAX && i32::MIN <= dy <= i32::MAX && dx * dx + dy * dy
        <= i32::MAX {
        Some(dx * dx + dy * dy)
    } else {
        None
    }
}

/// How far the cursor moved, squared; nothing if that is too far to tell.
pub fn cursor_moved(from: (i32, i32), to: (i32, i32)) -> (r: Option<i32>)
    ensures
        match r {
            Some(d) => distance_squared(from, to) == Some(d as int),
            None => distance_squared(from, to) is None,
        },
{
    let dx: i64 = to.0 as i64 - from.0 as i64;
    let dy: i64 = to.1 as i64 - from.1 as i64;
    let far: i64 = 46340;
    if dx < -far || dx > far || dy < -far || dy > far {
        proof {
            if dx < -far || dx > far {
                assert(dx * dx >= 46341 * 46341) by (nonlinear_arith)
                    requires
                        dx <= -46341 || dx >= 46341,
                ;
            } else {
                assert(dy * dy >= 46341 * 46341) by (nonlinear_arith)
                    requires
                        dy <= -46341 || dy >= 46341,
                ;
            }
            assert(dx * dx >= 0 && dy * dy >= 0) by (nonlinear_arith);
        }
        return None;
    }
    assert(0 <= dx * dx <= 46340 * 46340) by (nonlinear_arith)
        requires
            -46340 <= dx <= 46340,
    ;
    assert(0 <= dy * dy <= 46340 * 46340) by (nonlinear_arith)
        requires
            -46340 <= dy <= 46340,
    ;
    let d: i64 = dx * dx + dy * dy;
    if d <= i32::MAX as i64 {
        Some(d as i32)
    } else {
        None
    }
}

/// 4.
pub const FOUR: u32 = 0x4080_0000;

/// The mouse stirs the water at a place of a bar of this size.
pub open spec fn stirred(
    mouse_ripples: bool,
    moved: Single,
    x: Single,
    y: Single,
    width: Single,
    height: Single,
) -> bool {
    mouse_ripples && (Single { bits: FOUR }).lt(moved) && (Single { bits: 0 }).le(x) && x.lt(width)
        && (Single { bits: 0 }).le(y) && y.lt(height)
}

/// Whether the mouse stirs the water of a taskbar: it moved far enough,
/// squared, and is at a place within the bar.
pub fn mouse_stirs(
    mouse_ripples: bool,
    moved: Single,
    x: Single,
    y: Single,
    width: Single,
    height: Single,
) -> (r: bool)
    ensures
        r == stirred(mouse_ripples, moved, x, y, width, height),
{
    let zero = Single { bits: 0 };
    mouse_ripples && (Single { bits: FOUR }).is_below(moved) && zero.is_at_most(x) && x.is_below(
        width,
    ) && zero.is_at_most(y) && y.is_below(height)
}

/// Something in the scene of a taskbar moves.
pub open spec fn active(moving: bool, calm: bool) -> bool {
    moving || !calm
}

/// Whether a taskbar's scene moves: its character swims, or its water does.
pub fn is_active(moving: bool, calm: bool) -> (r: bool)
    ensures
        r == active(moving, calm),
{
    moving || !calm
}

// ---- the character on screen ----------------------------------------------

/// The settings with the character that needs nothing from the user.
pub open spec fn with_duck(s: Settings) -> Settings {
    Settings { character: "duck"@, ..s }
}

/// The file of the custom sprite that settings ask for.
pub open spec fn sheet_of(s: Settings) -> Option<Seq<char>> {
    match s.custom_sprite {
        Some(c) if s.character == "custom"@ => Some(c.path),
        _ => None,
    }
}

/// The file of the custom sprite, if the settings ask for one.
pub fn sheet_path(cfg: &Config) -> (r: Option<&String>)
    ensures
        match r {
            Some(path) => sheet_of(cfg@) == Some(path@),
            None => sheet_of(cfg@) is None,
        },
{
    if text::same(cfg.character.as_str(), "custom") {
        match &cfg.custom_sprite {
            Some(c) => Some(&c.path),
            None => None,
        }
    } else {
        None
    }
}

/// What the program may start with.
pub open spec fn started_with(
    s: Settings,
    rotate_id: Seq<char>,
    art: Art<'_>,
    sheet: Option<Seq<u8>>,
    r: Option<Result<SpriteAtlas, AssetError>>,
) -> bool {
    let asked = config::effective(s, rotate_id);
    if assets::feasible(asked, art, sheet) && assets::faulty(asked, art, sheet) {
        assets::built_for(with_duck(s), art, None, r)
    } else {
        assets::built_for(asked, art, sheet, r)
    }
}

/// The atlas to start with: that of the settings' character, or the duck's if
/// there is something wrong with it.
pub fn starting_atlas(
    cfg: &Config,
    rotate_id: &str,
    art: &Art<'_>,
    sheet: Option<&[u8]>,
) -> (r: Option<Result<SpriteAtlas, AssetError>>)
    ensures
        started_with(
            cfg@,
            rotate_id@,
            *art,
            match sheet {
                Some(b) => Some(b@),
                None => None,
            },
            r,
        ),
{
    let asked = config::effective_config(cfg, rotate_id);
    match assets::build_atlas(&asked, art, sheet) {
        Some(Err(_)) => {
            let mut duck = cfg.duplicate();
            duck.character = "duck".to_owned();
            assets::build_atlas(&duck, art, None)
        },
        built => built,
    }
}

// ---- the program ----------------------------------------------------------

impl App {
    /// Every setting is within its range.
    pub open spec fn wf(&self) -> bool {
        self@.stored.current.in_range()
    }

    /// A program that starts at `now`. Housekeeping is due at once.
    pub fn new(
        store: ConfigStore,
        taskbar_created_msg: u32,
        now: u64,
        rng: u64,
        rotate_id: String,
    ) -> (r: App)
        ensures
            r@ == Situation::starting(store@, taskbar_created_msg, now, rng, rotate_id@),
    {
        App {
            store,
            water_preview: None,
            picker: None,
            taskbar_created_msg,
            last_tick: now,
            next_frame: now as i128,
            last_slow_poll: now as i128 - 10 * SECOND,
            suspended: false,
            need_refresh: true,
            quitting: false,
            rng,
            rotate_id,
            next_rotate: now as i128,
        }
    }

    /// Takes a message from the queue: whether to dispatch it. The message to
    /// quit ends the program instead.
    pub fn dequeue(&mut self, msg: u32) -> (r: bool)
        ensures
            r == dispatched(msg),
            final(self)@ == old(self)@.dequeued(msg),
    {
        if msg == WM_QUIT {
            self.quitting = true;
            return false;
        }
        true
    }

    /// Whether overlays are to be shown.
    pub fn is_showing(&self) -> (r: bool)
        ensures
            r == self@.showing(),
    {
        self.store.current.enabled && !self.suspended
    }

    /// Carries out a command from the tray menu, as far as the state goes.
    /// The result is what else it asks for, in order.
    pub fn on_command(&mut self, cmd: TrayCommand) -> (r: Vec<Effect>)
        ensures
            final(self)@ == old(self)@.commanded(cmd@).0,
            r@ == old(self)@.commanded(cmd@).1,
            old(self).wf() ==> final(self).wf(),
    {
        match cmd {
            TrayCommand::TogglePause => {
                self.store.current.enabled = !self.store.current.enabled;
                vec![Effect::SyncOverlays]
            },
            TrayCommand::ToggleMouseRipples => {
                self.store.current.mouse_ripples = !self.store.current.mouse_ripples;
                vec![Effect::Save]
            },
            TrayCommand::ToggleAutostart => {
                let want = !self.store.current.autostart;
                self.store.current.autostart = want;
                vec![Effect::SyncAutostart { want }, Effect::Save]
            },
            TrayCommand::WaterColor => match self.picker {
                Some(hwnd) => vec![Effect::FocusPicker { hwnd }],
                None => vec![Effect::OpenPicker],
            },
            TrayCommand::SelectCharacter(id) => {
                self.store.current.character = id;
                vec![Effect::Save, Effect::ApplyConfigChange]
            },
            TrayCommand::ImportImage => vec![Effect::PickImage],
            TrayCommand::OpenConfig => vec![Effect::OpenSettings],
            TrayCommand::About => vec![Effect::ShowAbout],
            TrayCommand::Exit => vec![Effect::Quit],
        }
    }

    /// Switches to a freshly imported image.
    pub fn apply_import(&mut self, sprite: CustomSprite) -> (r: Vec<Effect>)
        ensures
            final(self)@ == old(self)@.imported(sprite@),
            r@ == seq![Effect::Save, Effect::ApplyConfigChange],
            old(self).wf() ==> final(self).wf(),
    {
        self.store.current.custom_sprite = Some(sprite);
        self.store.current.character = "custom".to_owned();
        vec![Effect::Save, Effect::ApplyConfigChange]
    }

    /// Notes that the color picker is open.
    pub fn picker_opened(&mut self, hwnd: isize)
        ensures
            final(self)@ == old(self)@.picking(hwnd),
    {
        self.picker = Some(hwnd);
    }

    /// Deals with a message to the program's window, as far as the state
    /// goes.
    pub fn on_message(&mut self, msg: u32, wparam: usize, lparam: isize) -> (r: Reaction)
        ensures
            final(self)@ == old(self)@.told(msg, wparam, lparam).0,
            r == old(self)@.told(msg, wparam, lparam).1,
            old(self).wf() ==> final(self).wf(),
    {
        if msg == tray::WM_TRAYICON {
            return Reaction::Tray { event: lparam as u32 };
        }
        if msg == colorpicker::WM_WATER_PREVIEW {
            return Reaction::Recolor { preview: colorpicker::decode_preview(wparam, lparam) };
        }
        if msg == colorpicker::WM_WATER_COMMIT {
            self.picker = None;
            return match self.water_preview.take() {
                Some((shallow, deep)) => {
                    self.store.current.water_shallow = shallow;
                    self.store.current.water_deep = deep;
                    Reaction::Save
                },
                None => Reaction::Done,
            };
        }
        if msg == colorpicker::WM_WATER_CANCEL {
            self.water_preview = None;
            self.picker = None;
            return Reaction::Done;
        }
        if msg == WM_DISPLAYCHANGE || msg == WM_SETTINGCHANGE || msg == WM_DPICHANGED {
            self.need_refresh = true;
            return Reaction::Default;
        }
        if msg == self.taskbar_created_msg && msg != 0 {
            self.need_refresh = true;
            return Reaction::Restore;
        }
        Reaction::Default
    }

    /// The palette that a preview recolors: the stock one, or that of the
    /// settings.
    pub fn preview_base(&self, stock: bool) -> (r: (String, String))
        ensures
            (r.0@, r.1@) == self@.base_colors(stock),
    {
        if stock {
            let c = Config::default();
            (c.water_shallow, c.water_deep)
        } else {
            (self.store.current.water_shallow.clone(), self.store.current.water_deep.clone())
        }
    }

    /// Shows other water colors until they are kept or discarded.
    pub fn set_preview(&mut self, shallow: String, deep: String)
        ensures
            final(self)@ == old(self)@.previewing((shallow@, deep@)),
    {
        self.water_preview = Some((shallow, deep));
    }

    /// The colors that are shown, where they can be read.
    pub fn water_colors(&self) -> (r: (Option<Rgb>, Option<Rgb>))
        ensures
            r == self@.seen_colors(),
    {
        match &self.water_preview {
            Some((shallow, deep)) => (
                color::parse_color(shallow.as_str()),
                color::parse_color(deep.as_str()),
            ),
            None => (
                color::parse_color(self.store.current.water_shallow.as_str()),
                color::parse_color(self.store.current.water_deep.as_str()),
            ),
        }
    }

    /// Whether housekeeping is due. If so it counts as begun.
    pub fn begin_slow_poll(&mut self, now: u64) -> (r: bool)
        ensures
            r == old(self)@.poll_due(now),
            final(self)@ == old(self)@.polled(now),
    {
        if self.need_refresh || (self.last_slow_poll <= now as i128 - SECOND) {
            self.last_slow_poll = now as i128;
            self.need_refresh = false;
            true
        } else {
            false
        }
    }

    /// Whether it is time for another character.
    pub fn is_rotate_due(&self, now: u64) -> (r: bool)
        ensures
            r == self@.rotate_due(now),
    {
        text::same(self.store.current.character.as_str(), "rotate") && now as i128
            >= self.next_rotate
    }

    /// Picks another character and keeps it for `stay` nanoseconds. False just
    /// where no other one ever comes, and then nothing changes.
    pub fn rotate(&mut self, now: u64, stay: u64) -> (r: bool)
        ensures
            r == !never_changes(old(self)@.rng, old(self)@.rotate_id),
            r ==> exists|n: nat| #[trigger]
                first_change(old(self)@.rng, old(self)@.rotate_id, n) && final(self)@ == old(
                    self,
                )@.rotated(n, now, stay),
            r ==> final(self)@.rotate_id != old(self)@.rotate_id,
            !r ==> final(self)@ == old(self)@,
    {
        let mut rng: u64 = self.rng;
        match random_roster_id(&mut rng, self.rotate_id.as_str()) {
            Some(id) => {
                let ghost was = self@;
                let ghost n = choose|n: nat| #[trigger]
                    first_change(was.rng, was.rotate_id, n) && rng == state_after(was.rng, n);
                proof {
                    law_first_change(was.rng, was.rotate_id, n, n);
                }
                self.rng = rng;
                self.rotate_id = id.to_owned();
                self.next_rotate = now as i128 + stay as i128;
                assert(self@ =~= was.rotated(n, now, stay));
                true
            },
            None => false,
        }
    }

    /// Takes over what Windows says about interrupting the user, if it says
    /// anything: a fullscreen program or a presentation suspends the overlays.
    /// True when that changed.
    pub fn set_user_state(&mut self, state: Option<i32>) -> (r: bool)
        ensures
            final(self)@ == old(self)@.watching(state),
            r == old(self)@.shifted_by(state),
    {
        let suspended = match state {
            Some(s) => s != 5 && s != 6,
            None => false,
        };
        let changed = suspended != self.suspended;
        self.suspended = suspended;
        changed
    }

    /// Starts a frame.
    pub fn begin_frame(&mut self, now: u64, overlays: usize) -> (r: FrameStep)
        ensures
            final(self)@ == old(self)@.framed(now, overlays).0,
            r == old(self)@.framed(now, overlays).1,
    {
        let at: i128 = now as i128;
        if at < self.next_frame {
            return FrameStep::Wait;
        }
        let last: u64 = self.last_tick;
        self.last_tick = now;
        if !self.is_showing() || overlays == 0 {
            self.next_frame = at + 300 * MILLISECOND;
            return FrameStep::Rest;
        }
        let elapsed: u64 = if now >= last {
            now - last
        } else {
            0
        };
        FrameStep::Draw { elapsed }
    }

    /// Ends a frame: sets the time of the next one, by whether anything
    /// moves.
    pub fn end_frame(&mut self, now: u64, any_active: bool)
        requires
            old(self).wf(),
        ensures
            final(self)@ == old(self)@.scheduled(now, any_active),
    {
        proof {
            config::law_clamped_in_range(self@.stored.current);
        }
        let fps: u32 = if any_active {
            self.store.current.active_fps
        } else {
            self.store.current.idle_fps
        };
        self.next_frame = now as i128 + frame_nanos(fps) as i128;
    }

    /// How many milliseconds to wait for a message before the next frame: at
    /// most half a second.
    pub fn wait(&self, now: u64) -> (r: u32)
        ensures
            r == self@.wait_time(now),
    {
        let at: i128 = now as i128;
        if self.next_frame <= at {
            0
        } else if self.next_frame >= at + 500 * MILLISECOND {
            500
        } else {
            ((self.next_frame - at) as u64 / 1_000_000) as u32
        }
    }

    /// The atlas of the character that the settings ask for, as
    /// [`assets::build_atlas`] makes it.
    pub fn rebuild(&self, art: &Art<'_>, sheet: Option<&[u8]>) -> (r: Option<
        Result<SpriteAtlas, AssetError>,
    >)
        ensures
            assets::built_for(
                config::effective(self@.stored.current, self@.rotate_id),
                *art,
                match sheet {
                    Some(b) => Some(b@),
                    None => None,
                },
                r,
            ),
    {
        let cfg = config::effective_config(&self.store.current, self.rotate_id.as_str());
        assets::build_atlas(&cfg, art, sheet)
    }
}

// ---- laws -----------------------------------------------------------------

/// The pause command changes nothing but whether the overlays are on, and does
/// not itself write the settings file.
pub proof fn law_pause_is_not_saved(s: Situation)
    ensures
        !s.commanded(Command::TogglePause).1.contains(Effect::Save),
        s.commanded(Command::TogglePause).0.with_settings(
            Settings {
                enabled: s.stored.current.enabled,
                ..s.commanded(Command::TogglePause).0.stored.current
            },
        ) == s,
{
}

/// The situation after some commands, from the first on.
pub open spec fn commanded_all(s: Situation, cmds: Seq<Command>) -> Situation
    decreases cmds.len(),
{
    if cmds.len() == 0 {
        s
    } else {
        commanded_all(s, cmds.drop_last()).commanded(cmds.last()).0
    }
}

/// Two situations that differ in nothing but whether the program is paused.
#[verifier::opaque]
pub open spec fn alike_but_for_pause(s: Situation, t: Situation) -> bool {
    t == s.with_settings(
        Settings { enabled: t.stored.current.enabled, ..s.stored.current },
    )
}

/// Being paused makes no difference to what a command does to the rest.
proof fn lemma_pause_apart_once(s: Situation, t: Situation, cmd: Command)
    requires
        alike_but_for_pause(s, t),
    ensures
        alike_but_for_pause(s.commanded(cmd).0, t.commanded(cmd).0),
{
    reveal(alike_but_for_pause);
    let (a, b) = (s.commanded(cmd).0, t.commanded(cmd).0);
    let goal = a.with_settings(
        Settings { enabled: b.stored.current.enabled, ..a.stored.current },
    );
    assert(b.stored.current == goal.stored.current);
    assert(b.stored == goal.stored);
}

/// Being paused makes no difference to what commands do to the rest.
proof fn lemma_pause_apart(s: Situation, t: Situation, cmds: Seq<Command>)
    requires
        alike_but_for_pause(s, t),
    ensures
        alike_but_for_pause(commanded_all(s, cmds), commanded_all(t, cmds)),
    decreases cmds.len(),
{
    if cmds.len() > 0 {
        lemma_pause_apart(s, t, cmds.drop_last());
        lemma_pause_apart_once(
            commanded_all(s, cmds.drop_last()),
            commanded_all(t, cmds.drop_last()),
            cmds.last(),
        );
    }
}

/// A pause never reaches the settings file: whatever commands follow it, what
/// they would write is what they would have written without it, and the master
/// switch in the file stays as it was.
pub proof fn law_pause_never_reaches_the_file(s: Situation, cmds: Seq<Command>)
    ensures
        ({
            let paused = s.commanded(Command::TogglePause).0;
            &&& commanded_all(paused, cmds).stored.to_file() == commanded_all(
                s,
                cmds,
            ).stored.to_file()
            &&& commanded_all(paused, cmds).stored.to_file().enabled == s.stored.filed
        }),
    decreases cmds.len(),
{
    let paused = s.commanded(Command::TogglePause).0;
    reveal(alike_but_for_pause);
    lemma_pause_apart(s, paused, cmds);
    if cmds.len() > 0 {
        law_pause_never_reaches_the_file(s, cmds.drop_last());
    }
}

/// Importing an image and the messages of the color picker leave the master
/// switch in the file as it was, too.
pub proof fn law_switch_in_file_is_kept(
    s: Situation,
    sprite: SpriteSettings,
    msg: u32,
    wparam: usize,
    lparam: isize,
)
    ensures
        s.imported(sprite).stored.to_file().enabled == s.stored.filed,
        s.told(msg, wparam, lparam).0.stored.to_file().enabled == s.stored.filed,
{
}

/// Each switch of the menu undoes itself.
pub proof fn law_switches_undo_themselves(s: Situation, cmd: Command)
    requires
        cmd is TogglePause || cmd is ToggleMouseRipples || cmd is ToggleAutostart,
    ensures
        s.commanded(cmd).0.commanded(cmd).0 == s,
        s.commanded(cmd).0 != s,
{
}

/// Every command that changes the settings saves them, but for pausing.
pub proof fn law_changes_are_saved(s: Situation, cmd: Command)
    requires
        !(cmd is TogglePause),
        s.commanded(cmd).0.stored.current != s.stored.current,
    ensures
        s.commanded(cmd).1.contains(Effect::Save),
{
    let effects = s.commanded(cmd).1;
    assert(effects[0] == Effect::Save || effects[1] == Effect::Save);
}

/// There is one color picker at a time.
pub proof fn law_one_picker(s: Situation)
    ensures
        s.commanded(Command::WaterColor).1.contains(Effect::OpenPicker) <==> s.picker is None,
{
    let effects = s.commanded(Command::WaterColor).1;
    assert(effects.len() == 1);
    assert(effects[0] == Effect::OpenPicker <==> s.picker is None);
}

/// A preview is shown at once and leaves the settings alone, and so does
/// discarding it, after which the settings' colors show again.
pub proof fn law_cancel_reverts(
    s: Situation,
    colors: (Seq<char>, Seq<char>),
    wparam: usize,
    lparam: isize,
)
    ensures
        ({
            let previewed = Situation { water_preview: Some(colors), ..s };
            let (after, reaction) = previewed.told(colorpicker::WM_WATER_CANCEL, wparam, lparam);
            &&& previewed.shown_colors() == colors
            &&& after.stored == s.stored
            &&& after.shown_colors() == (s.stored.current.water_shallow, s.stored.current.water_deep)
            &&& after.picker is None
            &&& reaction != Reaction::Save
        }),
{
}

/// Keeping a preview writes the colors that were shown into the settings, and
/// goes on showing them.
pub proof fn law_commit_keeps_what_is_shown(
    s: Situation,
    colors: (Seq<char>, Seq<char>),
    wparam: usize,
    lparam: isize,
)
    ensures
        ({
            let previewed = Situation { water_preview: Some(colors), ..s };
            let (after, reaction) = previewed.told(colorpicker::WM_WATER_COMMIT, wparam, lparam);
            &&& after.shown_colors() == colors
            &&& (after.stored.current.water_shallow, after.stored.current.water_deep) == colors
            &&& after.water_preview is None
            &&& after.picker is None
            &&& reaction == Reaction::Save
        }),
{
}

/// No message but the one that keeps a preview changes the settings, and they
/// are saved exactly then.
pub proof fn law_messages_leave_settings(s: Situation, msg: u32, wparam: usize, lparam: isize)
    ensures
        s.told(msg, wparam, lparam).1 == Reaction::Save <==> msg == colorpicker::WM_WATER_COMMIT
            && s.water_preview is Some,
        s.told(msg, wparam, lparam).1 != Reaction::Save ==> s.told(msg, wparam, lparam).0.stored
            == s.stored,
{
}

/// Commands and messages keep the settings within range.
pub proof fn law_settings_stay_in_range(
    s: Situation,
    cmd: Command,
    sprite: SpriteSettings,
    msg: u32,
    wparam: usize,
    lparam: isize,
)
    requires
        s.stored.current.in_range(),
    ensures
        s.commanded(cmd).0.stored.current.in_range(),
        s.imported(sprite).stored.current.in_range(),
        s.told(msg, wparam, lparam).0.stored.current.in_range(),
{
}

/// An imported image is the character that is shown from then on.
pub proof fn law_import_is_shown(s: Situation, sprite: SpriteSettings)
    ensures
        config::effective(s.imported(sprite).stored.current, s.rotate_id).character == "custom"@,
        config::effective(s.imported(sprite).stored.current, s.rotate_id).custom_sprite == Some(
            sprite,
        ),
{
    reveal_strlit("custom");
    reveal_strlit("rotate");
    assert("custom"@[0] != "rotate"@[0]);
}

/// A built-in character that is picked from the menu is the one that is built
/// and shown.
pub proof fn law_picked_character_is_shown(s: Situation, art: Art<'_>, i: int)
    requires
        0 <= i < assets::roster_spec().len(),
    ensures
        ({
            let cmd = tray::command_of((tray::CMD_CHARACTER_BASE + i) as u32)->0;
            let after = s.commanded(cmd).0.stored.current;
            let shown = assets::frames_for(config::effective(after, s.rotate_id), art, None);
            shown == match assets::all_shown_by(assets::files_of(art, i)) {
                Err(e) => Err(e),
                Ok(frames) => Ok((frames, assets::roster_spec()[i].look)),
            }
        }),
{
    assets::law_ids_name_characters(i);
    let id = assets::roster_spec()[i].id@;
    let found = choose|j: int| assets::stands_at(id, j);
    assert(assets::stands_at(id, i));
    assert(found == i);
}

/// A refresh that was asked for is due at once, and housekeeping that has
/// begun is not due again for a second.
pub proof fn law_polls_once_a_second(s: Situation, now: u64, later: u64)
    requires
        now <= later < now + SECOND,
    ensures
        s.need_refresh ==> s.poll_due(now),
        !(Situation { last_slow_poll: now as i128, need_refresh: false, ..s }).poll_due(later),
{
}

/// Picking a character makes it the settings' character, whatever its id is,
/// and changes nothing else. The settings are then saved and applied, in this
/// order.
pub proof fn law_any_character_can_be_picked(s: Situation, id: Seq<char>)
    ensures
        ({
            let (after, effects) = s.commanded(Command::SelectCharacter(id));
            &&& after.stored.current.character == id
            &&& after.stored.to_file().character == id
            &&& after.with_settings(
                Settings { character: s.stored.current.character, ..after.stored.current },
            ) == s
            &&& effects.len() == 2
            &&& effects[0] == Effect::Save
            &&& effects[1] == Effect::ApplyConfigChange
        }),
{
}

/// Picking an entry of the menu of characters that selects a character, the
/// random and the custom one included, makes it the one checked entry of the
/// menu.
pub proof fn law_picked_entry_is_checked(
    s: Situation,
    before: Seq<char>,
    custom_available: bool,
    i: int,
    j: int,
    who: Seq<char>,
)
    requires
        0 <= i < tray::character_menu_spec(before, custom_available).len(),
        0 <= j < tray::character_menu_spec(before, custom_available).len(),
        tray::item_id(tray::character_menu_spec(before, custom_available)[i]) is Some,
        tray::command_of(
            tray::item_id(tray::character_menu_spec(before, custom_available)[i])->0,
        ) == Some(Command::SelectCharacter(who)),
    ensures
        ({
            let cmd = tray::command_of(
                tray::item_id(tray::character_menu_spec(before, custom_available)[i])->0,
            )->0;
            let after = s.commanded(cmd).0.stored.current.character;
            let menu = tray::character_menu_spec(after, custom_available);
            &&& menu[i] matches MenuItem::Command { checked, .. } ==> checked
            &&& menu[i] is Command
            &&& j != i ==> (menu[j] matches MenuItem::Command { checked, .. } ==> !checked)
        }),
{
    tray::law_menu_of_characters_stays(before, who, custom_available, i);
    tray::law_menu_of_characters_stays(before, who, custom_available, j);
    tray::law_checked_entry_is_the_current_one(who, custom_available, i);
    tray::law_checked_entry_is_the_current_one(who, custom_available, j);
    let menu = tray::character_menu_spec(who, custom_available);
    if j != i && tray::item_id(menu[j]) is Some && tray::command_of(tray::item_id(menu[j])->0)
        == Some(Command::SelectCharacter(who)) {
        tray::law_commands_are_distinct(
            tray::item_id(menu[i])->0,
            tray::item_id(menu[j])->0,
        );
        let main = tray::main_menu_spec(false, false, false);
        let all = main + menu;
        let (a, b) = (main.len() + i, main.len() + j);
        assert(all[a] == menu[i] && all[b] == menu[j]);
        tray::law_ids_are_distinct(
            false,
            false,
            false,
            who,
            custom_available,
            if a < b {
                a
            } else {
                b
            },
            if a < b {
                b
            } else {
                a
            },
        );
    }
}

/// Each switch of the menu flips its own setting and no other, and then sees
/// to what depends on it: the overlays, the file, or the registry and the
/// file, with the registry told what the setting has become.
pub proof fn law_each_switch_flips_its_own_setting(s: Situation)
    ensures
        ({
            let (paused, effects) = s.commanded(Command::TogglePause);
            &&& paused.stored.current.enabled != s.stored.current.enabled
            &&& paused.stored.filed == s.stored.filed
            &&& effects.len() == 1 && effects[0] == Effect::SyncOverlays
            &&& paused.with_settings(
                Settings { enabled: s.stored.current.enabled, ..paused.stored.current },
            ) == s
        }),
        ({
            let (after, effects) = s.commanded(Command::ToggleMouseRipples);
            &&& after.stored.current.mouse_ripples != s.stored.current.mouse_ripples
            &&& effects.len() == 1 && effects[0] == Effect::Save
            &&& after.with_settings(
                Settings { mouse_ripples: s.stored.current.mouse_ripples, ..after.stored.current },
            ) == s
        }),
        ({
            let (after, effects) = s.commanded(Command::ToggleAutostart);
            &&& after.stored.current.autostart != s.stored.current.autostart
            &&& effects.len() == 2
            &&& effects[0] == (Effect::SyncAutostart { want: after.stored.current.autostart })
            &&& effects[1] == Effect::Save
            &&& after.with_settings(
                Settings { autostart: s.stored.current.autostart, ..after.stored.current },
            ) == s
        }),
{
}

/// After a switch of the menu was used, the menu shows it the other way round
/// and all else as before.
pub proof fn law_menu_shows_what_was_switched(s: Situation)
    ensures
        ({
            let after = s.commanded(Command::ToggleMouseRipples).0.stored.current;
            let now = s.stored.current;
            tray::main_menu_spec(!after.enabled, after.mouse_ripples, after.autostart)
                == tray::main_menu_spec(!now.enabled, !now.mouse_ripples, now.autostart)
        }),
        ({
            let after = s.commanded(Command::ToggleAutostart).0.stored.current;
            let now = s.stored.current;
            tray::main_menu_spec(!after.enabled, after.mouse_ripples, after.autostart)
                == tray::main_menu_spec(!now.enabled, now.mouse_ripples, !now.autostart)
        }),
        ({
            let after = s.commanded(Command::TogglePause).0.stored.current;
            let now = s.stored.current;
            tray::main_menu_spec(!after.enabled, after.mouse_ripples, after.autostart)
                == tray::main_menu_spec(now.enabled, now.mouse_ripples, now.autostart)
        }),
{
}

/// The other commands leave the situation as it is and ask for one thing
/// each. Asking for the color picker while one is open brings up that one.
pub proof fn law_other_commands_only_ask(s: Situation, cmd: Command)
    requires
        cmd is WaterColor || cmd is ImportImage || cmd is OpenConfig || cmd is About || cmd is Exit,
    ensures
        s.commanded(cmd).0 == s,
        s.commanded(cmd).1.len() == 1,
        s.commanded(cmd).1[0] == match cmd {
            Command::ImportImage => Effect::PickImage,
            Command::OpenConfig => Effect::OpenSettings,
            Command::About => Effect::ShowAbout,
            Command::Exit => Effect::Quit,
            _ => match s.picker {
                Some(hwnd) => Effect::FocusPicker { hwnd },
                None => Effect::OpenPicker,
            },
        },
{
}

/// Commands and imports touch the settings in memory at most: what is
/// previewed, open, scheduled or on show stays.
pub proof fn law_commands_touch_settings_only(s: Situation, cmd: Command, sprite: SpriteSettings)
    ensures
        s.commanded(cmd).0 == s.with_settings(s.commanded(cmd).0.stored.current),
        s.imported(sprite) == s.with_settings(s.imported(sprite).stored.current),
        s.commanded(cmd).0.stored.filed == s.stored.filed,
        s.commanded(cmd).0.stored.path == s.stored.path,
        s.commanded(cmd).0.stored.last_mtime == s.stored.last_mtime,
        s.commanded(cmd).0.stored.current.custom_sprite == s.stored.current.custom_sprite,
        !(cmd is SelectCharacter) ==> s.commanded(cmd).0.stored.current.character
            == s.stored.current.character,
{
}

/// An import takes over the sprite and switches to it; every other setting
/// stays, and importing another image replaces the sprite.
pub proof fn law_import_switches(s: Situation, a: SpriteSettings, b: SpriteSettings)
    ensures
        s.imported(a).stored.current.character == "custom"@,
        s.imported(a).stored.current.custom_sprite == Some(a),
        s.imported(a).imported(b) == s.imported(b),
        s.imported(a).stored.current == (Settings {
            character: "custom"@,
            custom_sprite: Some(a),
            ..s.stored.current
        }),
        s.imported(a).commanded(Command::SelectCharacter(s.stored.current.character)).0
            == s.with_settings(Settings { custom_sprite: Some(a), ..s.stored.current }),
{
}

/// A message never touches the clock, the random numbers, the character on
/// show or the end of the program, and of the settings only the water colors.
/// A refresh that was asked for stays asked for; one is asked for by a change
/// of the display, of the system's settings or of the resolution, and by a
/// new taskbar.
pub proof fn law_messages_touch_little(s: Situation, msg: u32, wparam: usize, lparam: isize)
    ensures
        ({
            let (after, reaction) = s.told(msg, wparam, lparam);
            let own = 0x8001 <= msg <= 0x8004;
            let display = msg == 0x007e || msg == 0x001a || msg == 0x02e0;
            let created = !own && !display && msg == s.taskbar_created_msg && msg != 0;
            &&& after == (Situation {
                stored: after.stored,
                water_preview: after.water_preview,
                picker: after.picker,
                need_refresh: after.need_refresh,
                ..s
            })
            &&& after.stored == (Stored {
                current: Settings {
                    water_shallow: after.stored.current.water_shallow,
                    water_deep: after.stored.current.water_deep,
                    ..s.stored.current
                },
                ..s.stored
            })
            &&& after.need_refresh <==> s.need_refresh || display || created
            &&& reaction is Restore <==> created
            &&& !own && !created ==> reaction is Default
            &&& reaction is Tray <==> msg == tray::WM_TRAYICON
            &&& reaction is Recolor <==> msg == colorpicker::WM_WATER_PREVIEW
            &&& reaction matches Reaction::Tray { event } ==> (0 <= lparam <= u32::MAX ==> event
                == lparam)
            &&& msg != colorpicker::WM_WATER_COMMIT && msg != colorpicker::WM_WATER_CANCEL
                ==> after.picker == s.picker && after.water_preview == s.water_preview
        }),
{
}

/// The messages of the picker end it, with or without a preview to keep, and
/// no preview is left. Without one, nothing is saved.
pub proof fn law_picker_messages_close_it(
    s: Situation,
    msg: u32,
    wparam: usize,
    lparam: isize,
)
    requires
        msg == colorpicker::WM_WATER_COMMIT || msg == colorpicker::WM_WATER_CANCEL,
    ensures
        ({
            let (after, reaction) = s.told(msg, wparam, lparam);
            &&& after.picker is None
            &&& after.water_preview is None
            &&& s.water_preview is None ==> after.stored == s.stored && reaction is Done
            &&& msg == colorpicker::WM_WATER_CANCEL ==> after.stored == s.stored && reaction is Done
            &&& msg == colorpicker::WM_WATER_COMMIT ==> after.shown_colors() == s.shown_colors()
            &&& after.stored.current.character == s.stored.current.character
        }),
{
}

/// The colors that are shown are the previewed ones, and else the settings'.
/// The last preview counts, and a preview leaves everything but what is shown
/// alone.
pub proof fn law_previews_are_shown(
    s: Situation,
    a: (Seq<char>, Seq<char>),
    b: (Seq<char>, Seq<char>),
)
    ensures
        s.previewing(a).shown_colors() == a,
        s.previewing(a).previewing(b) == s.previewing(b),
        s.previewing(a).stored == s.stored,
        s.previewing(a).picker == s.picker,
        s.water_preview is None ==> s.shown_colors().0 == s.stored.current.water_shallow
            && s.shown_colors().1 == s.stored.current.water_deep,
        s.water_preview is None ==> s.shown_colors() == s.base_colors(false),
        s.base_colors(false) == s.previewing(a).base_colors(false),
        s.base_colors(false).0 == s.stored.current.water_shallow,
        s.base_colors(false).1 == s.stored.current.water_deep,
        s.base_colors(true).0 == "#3f9de0"@,
        s.base_colors(true).1 == "#123f78"@,
{
}

/// An open picker is the one that is brought up, and opening it changes
/// nothing else.
pub proof fn law_open_picker_is_focused(s: Situation, hwnd: isize)
    ensures
        s.picking(hwnd).commanded(Command::WaterColor).1[0] == (Effect::FocusPicker { hwnd }),
        s.picking(hwnd) == (Situation { picker: s.picking(hwnd).picker, ..s }),
{
}

/// Housekeeping is due exactly when a refresh was asked for or a second has
/// passed since it was last begun; once due it stays due. Beginning it takes
/// note of the time, answers the request, and changes nothing else.
pub proof fn law_housekeeping(s: Situation, now: u64, later: u64)
    requires
        now <= later,
    ensures
        s.poll_due(now) ==> s.poll_due(later),
        !s.need_refresh ==> (s.poll_due(now) <==> now >= s.last_slow_poll + 1_000_000_000),
        !s.poll_due(now) ==> s.polled(now) == s,
        s.poll_due(now) ==> {
            let t = s.polled(now);
            &&& t.last_slow_poll == now
            &&& !t.need_refresh
            &&& t == (Situation {
                last_slow_poll: t.last_slow_poll,
                need_refresh: t.need_refresh,
                ..s
            })
            &&& t.poll_due(later) <==> later >= now + 1_000_000_000
        },
{
}

/// Characters only change while they rotate, and each stays for its time: a
/// new one is not due before the time is over, and is due from then on.
pub proof fn law_each_character_stays_its_time(
    s: Situation,
    n: nat,
    now: u64,
    stay: u64,
    later: u64,
)
    ensures
        s.stored.current.character != "rotate"@ ==> !s.rotate_due(now),
        s.stored.current.character == "rotate"@ ==> (s.rotated(n, now, stay).rotate_due(later)
            <==> later >= now + stay),
        s.rotated(n, now, stay) == (Situation {
            rng: s.rotated(n, now, stay).rng,
            rotate_id: s.rotated(n, now, stay).rotate_id,
            next_rotate: s.rotated(n, now, stay).next_rotate,
            ..s
        }),
        s.rotated(n, now, stay).rotate_id == picked(s.rotated(n, now, stay).rng),
{
    assert(0 <= now + stay <= i128::MAX);
}

/// The character on show is a built-in one: the one at the place in the
/// roster that the highest 31 bits of the random number have as their
/// remainder, so that each comes as often as any other.
pub proof fn law_pick_is_a_remainder(rng: u64)
    ensures
        picked(rng) == assets::roster_spec()[(rng as int / 0x2_0000_0000) % 5].id@,
        picked(rng) != "rotate"@,
        picked(rng) != "custom"@,
{
    assert(rng >> 33 == rng / 0x2_0000_0000) by (bit_vector);
    let i = (rng as int / 0x2_0000_0000) % 5;
    assets::law_ids_are_apart(i, i);
}

/// The random numbers start from the clock, made odd by counting up; without
/// a clock they start like on any other clock.
pub proof fn law_seed_from_the_clock(nanos: u64)
    ensures
        seed_from(Some(nanos)) % 2 == 1,
        nanos <= seed_from(Some(nanos)) <= nanos + 1,
        exists|n: u64| #[trigger] seed_from(Some(n)) == seed_from(None),
{
    assert((nanos | 1) % 2 == 1 && nanos <= (nanos | 1) && (nanos | 1) <= nanos + 1)
        by (bit_vector);
    assert(seed_from(Some(0x9e37_79b9_7f4a_7c15)) == seed_from(None));
}

/// At one time two taskbars never get the same seed, nor does one taskbar at
/// two times.
pub proof fn law_seeds_over_bars_are_apart(a: isize, b: isize, s: u64, t: u64)
    ensures
        seed_over(a, s) == seed_over(a, t) ==> s == t,
        seed_over(a, s) == seed_over(b, s) ==> a == b,
        seed_over(a, s) ^ s == a as u64,
{
    let (x, y) = (a as u64, b as u64);
    assert(x ^ s == x ^ t ==> s == t) by (bit_vector);
    assert(x ^ s == y ^ s ==> x == y) by (bit_vector);
    assert((x ^ s) ^ s == x) by (bit_vector);
    assert(a as u64 == b as u64 ==> a == b) by (bit_vector);
}

/// A frame that is not due changes nothing. One that is due takes note of the
/// time. There is something to draw exactly if the overlays are on, nothing
/// covers the screen and there is an overlay; else the program looks again
/// after 300 milliseconds.
pub proof fn law_frames(s: Situation, now: u64, overlays: usize)
    ensures
        ({
            let (after, step) = s.framed(now, overlays);
            &&& step is Wait <==> now < s.next_frame
            &&& step is Wait ==> after == s
            &&& !(step is Wait) ==> after.last_tick == now
            &&& !(step is Wait) ==> (step is Draw <==> s.stored.current.enabled && !s.suspended
                && overlays > 0)
            &&& step is Rest ==> after.next_frame == now + 300_000_000
            &&& step is Draw ==> after.next_frame == s.next_frame
            &&& after == (Situation {
                last_tick: after.last_tick,
                next_frame: after.next_frame,
                ..s
            })
        }),
{
}

/// The time that frames see passes as it does: a frame is told the time since
/// the last one that was due, drawn or not.
pub proof fn law_frames_see_time_pass(
    s: Situation,
    first: u64,
    second: u64,
    overlays: usize,
    more: usize,
)
    requires
        first <= second,
        !(s.framed(first, overlays).1 is Wait),
    ensures
        s.framed(first, overlays).0.framed(second, more).1 matches FrameStep::Draw { elapsed }
            ==> first + elapsed == second,
        s.last_tick <= first ==> (s.framed(first, overlays).1 matches FrameStep::Draw { elapsed }
            ==> s.last_tick + elapsed == first),
{
}

/// `fps` frames take a second, to within half a nanosecond each, and more
/// frames a second never take longer each.
pub proof fn law_frames_fill_a_second(fps: u32, faster: u32)
    requires
        1 <= fps <= faster,
    ensures
        2 * (fps * frame_time(fps) - 1_000_000_000) <= fps,
        2 * (1_000_000_000 - fps * frame_time(fps)) <= fps,
        frame_time(faster) <= frame_time(fps),
{
    let (n, m) = (fps as int, faster as int);
    let (a, b) = (2_000_000_000 + n, 2_000_000_000 + m);
    vstd::arithmetic::div_mod::lemma_fundamental_div_mod(a, 2 * n);
    vstd::arithmetic::div_mod::lemma_fundamental_div_mod(b, 2 * m);
    let (q, p) = (a / (2 * n), b / (2 * m));
    assert((2 * n) * q == 2 * (n * q)) by (nonlinear_arith);
    assert(0 <= a % (2 * n) < 2 * n);
    assert(0 <= b % (2 * m) < 2 * m);
    if p > q {
        assert((2 * m) * p >= (2 * m) * (q + 1)) by (nonlinear_arith)
            requires
                p >= q + 1,
                m > 0,
        ;
        assert((2 * m) * (q + 1) - m >= (2 * n) * (q + 1) - n) by (nonlinear_arith)
            requires
                m >= n,
                q >= 0,
        ;
        assert((2 * n) * (q + 1) == (2 * n) * q + 2 * n) by (nonlinear_arith);
    }
}

/// The next frame comes at the active rate while anything moves and at the
/// idle rate otherwise, which is never sooner. Ending a frame changes nothing
/// but the time of the next one.
pub proof fn law_next_frame(s: Situation, now: u64)
    requires
        s.stored.current.in_range(),
    ensures
        s.scheduled(now, true).next_frame == now + frame_time(s.stored.current.active_fps),
        s.scheduled(now, false).next_frame == now + frame_time(s.stored.current.idle_fps),
        now < s.scheduled(now, true).next_frame <= s.scheduled(now, false).next_frame,
        forall|any: bool|
            #[trigger] s.scheduled(now, any) == (Situation {
                next_frame: s.scheduled(now, any).next_frame,
                ..s
            }),
{
    config::law_clamped_in_range(s.stored.current);
    let c = s.stored.current;
    law_frames_fill_a_second(c.active_fps, c.active_fps);
    law_frames_fill_a_second(c.idle_fps, c.active_fps);
    law_frames_fill_a_second(1, c.idle_fps);
    let (n, t) = (c.active_fps as int, frame_time(c.active_fps));
    assert(t > 0) by (nonlinear_arith)
        requires
            2 * (1_000_000_000 - n * t) <= n,
            1 <= n <= 240,
    ;
}

/// The program wakes up for the next frame, not after it and not more than a
/// millisecond before it, but looks after at most half a second. It does not
/// wait at all for a frame that is due.
pub proof fn law_wait_is_not_too_long(s: Situation, now: u64)
    ensures
        0 <= s.wait_time(now) <= 500,
        s.next_frame <= now ==> s.wait_time(now) == 0,
        now < s.next_frame ==> now + s.wait_time(now) * 1_000_000 <= s.next_frame,
        now < s.next_frame && s.wait_time(now) < 500 ==> s.next_frame < now + s.wait_time(now)
            * 1_000_000 + 1_000_000,
{
}

/// The overlays give way to whatever covers the screen, and to nothing else:
/// a user who can be interrupted, or who may be outside quiet hours only, is
/// no reason, and neither is not knowing.
pub proof fn law_what_suspends_overlays(s: Situation, state: Option<i32>)
    ensures
        !s.watching(None).suspended,
        forall|n: i32| #[trigger]
            s.watching(Some(n)).suspended <==> !(n == 5 || n == 6),
        s.watching(state) == (Situation { suspended: s.watching(state).suspended, ..s }),
        s.watching(state).showing() <==> s.stored.current.enabled && !s.watching(state).suspended,
{
}

/// The message to quit is not handed on and ends the program for good; every
/// other message is handed on and changes nothing.
pub proof fn law_quit_message(s: Situation, msg: u32)
    ensures
        !dispatched(msg) <==> msg == 0x0012,
        s.dequeued(0x0012).quitting,
        s.quitting ==> s.dequeued(msg).quitting,
        msg != 0x0012 ==> s.dequeued(msg) == s,
        s.dequeued(msg) == (Situation { quitting: s.dequeued(msg).quitting, ..s }),
{
}

/// A program that starts has everything due: housekeeping, a first frame and
/// a first character. No preview and no picker is open, and nothing has
/// happened to what it was given.
pub proof fn law_start(
    stored: Stored,
    taskbar_created_msg: u32,
    now: u64,
    rng: u64,
    rotate_id: Seq<char>,
    overlays: usize,
)
    ensures
        ({
            let s = Situation::starting(stored, taskbar_created_msg, now, rng, rotate_id);
            &&& s.poll_due(now)
            &&& s.framed(now, overlays).1 != FrameStep::Wait
            &&& s.framed(now, overlays).1 matches FrameStep::Draw { elapsed } ==> elapsed == 0
            &&& stored.current.character == "rotate"@ ==> s.rotate_due(now)
            &&& s.shown_colors() == s.base_colors(false)
            &&& s.water_preview is None
            &&& s.picker is None
            &&& !s.quitting
            &&& !s.suspended
            &&& s.showing() <==> stored.current.enabled
            &&& s.stored == stored
            &&& s.rng == rng
            &&& s.rotate_id == rotate_id
            &&& s.taskbar_created_msg == taskbar_created_msg
        }),
{
}

/// How far the cursor moved does not depend on the direction or on where on
/// the screen it was. It is nothing exactly if the cursor stayed, and a
/// straight move counts with its square.
pub proof fn law_cursor_distance(
    from: (i32, i32),
    to: (i32, i32),
    a: (i32, i32),
    b: (i32, i32),
)
    ensures
        b.0 - a.0 == to.0 - from.0 && b.1 - a.1 == to.1 - from.1 ==> distance_squared(a, b)
            == distance_squared(from, to),
        distance_squared(from, to) == Some(0int) <==> from == to,
        -46340 <= to.0 - from.0 <= 46340 ==> distance_squared(from, (to.0, from.1)) == Some(
            (to.0 - from.0) * (to.0 - from.0),
        ),
        -46340 <= to.1 - from.1 <= 46340 ==> distance_squared(from, (from.0, to.1)) == Some(
            (to.1 - from.1) * (to.1 - from.1),
        ),
        i32::MIN <= to.0 - from.0 <= i32::MAX && i32::MIN <= to.1 - from.1 <= i32::MAX && (to.0
            - from.0) * (to.0 - from.0) + (to.1 - from.1) * (to.1 - from.1) <= i32::MAX
            ==> distance_squared(from, to) is Some,
        distance_squared(from, to) matches Some(d) ==> 0 <= d <= i32::MAX && d == (to.0 - from.0)
            * (to.0 - from.0) + (to.1 - from.1) * (to.1 - from.1),
{
    let (dx, dy) = (to.0 - from.0, to.1 - from.1);
    assert(dx * dx >= 0 && dy * dy >= 0) by (nonlinear_arith);
    assert(dx * dx == 0 ==> dx == 0) by (nonlinear_arith);
    assert(dy * dy == 0 ==> dy == 0) by (nonlinear_arith);
    assert(-46340 <= dx <= 46340 ==> dx * dx <= 46340 * 46340) by (nonlinear_arith);
    assert(-46340 <= dy <= 46340 ==> dy * dy <= 46340 * 46340) by (nonlinear_arith);
    assert(0int * 0 == 0);
}

/// The mouse stirs nothing when ripples are off, when it moved two pixels or
/// less, or outside the bar; its left and top edges count as inside, its
/// right and bottom ones do not. Otherwise it stirs.
pub proof fn law_where_the_mouse_stirs(
    moved: Single,
    x: Single,
    y: Single,
    width: Single,
    height: Single,
)
    ensures
        !stirred(false, moved, x, y, width, height),
        moved.le(Single { bits: 0x4080_0000 }) ==> !stirred(true, moved, x, y, width, height),
        x.lt(Single { bits: 0 }) || y.lt(Single { bits: 0 }) ==> !stirred(
            true,
            moved,
            x,
            y,
            width,
            height,
        ),
        width.le(x) || height.le(y) ==> !stirred(true, moved, x, y, width, height),
        (Single { bits: 0x4080_0000 }).lt(moved) && (Single { bits: 0 }).le(x) && x.lt(width) && (
        Single { bits: 0 }).le(y) && y.lt(height) ==> stirred(true, moved, x, y, width, height),
        moved.nan() || x.nan() || y.nan() || width.nan() || height.nan() ==> !stirred(
            true,
            moved,
            x,
            y,
            width,
            height,
        ),
{
}

/// The sheet of the custom sprite is read exactly if the custom character is
/// on and configured. An imported image is read from then on, and no longer
/// once another character is picked.
pub proof fn law_when_the_sheet_is_read(s: Situation, sprite: SpriteSettings, id: Seq<char>)
    ensures
        sheet_of(s.imported(sprite).stored.current) == Some(sprite.path),
        id != "custom"@ ==> sheet_of(
            s.imported(sprite).commanded(Command::SelectCharacter(id)).0.stored.current,
        ) is None,
        s.stored.current.custom_sprite is None ==> sheet_of(s.stored.current) is None,
{
}

/// A character without fault is what the program starts with. If there is
/// something wrong with it, the program starts with the duck, whatever
/// character was asked for, and then the sheet makes no difference.
pub proof fn law_start_falls_back_to_the_duck(
    s: Settings,
    rotate_id: Seq<char>,
    art: Art<'_>,
    sheet: Option<Seq<u8>>,
    r: Option<Result<SpriteAtlas, AssetError>>,
)
    requires
        started_with(s, rotate_id, art, sheet, r),
    ensures
        ({
            let asked = Settings {
                character: if s.character == "rotate"@ {
                    rotate_id
                } else {
                    s.character
                },
                ..s
            };
            &&& !assets::faulty(asked, art, sheet) ==> assets::built_for(asked, art, sheet, r)
            &&& assets::faulty(asked, art, sheet) && assets::feasible(asked, art, sheet)
                ==> assets::built_for(Settings { character: "duck"@, ..s }, art, None, r)
        }),
{
}

/// The colors that are seen are those written: a previewed pair of colors is
/// seen as it is, surface and bottom each in its place, and so is the pair of
/// the settings without a preview. A color that cannot be read does not keep
/// the other one from being seen.
pub proof fn law_colors_are_seen(
    s: Situation,
    a: Rgb,
    b: Rgb,
    unread: Seq<char>,
    wparam: usize,
    lparam: isize,
)
    requires
        color::color_of(unread) is None,
    ensures
        s.previewing((color::hex_of(a), color::hex_of(b))).seen_colors() == (Some(a), Some(b)),
        s.previewing((color::hex_of(a), unread)).seen_colors() == (Some(a), None::<Rgb>),
        s.previewing((unread, color::hex_of(b))).seen_colors() == (None::<Rgb>, Some(b)),
        s.previewing((color::hex_of(a), color::hex_of(b))).told(
            colorpicker::WM_WATER_COMMIT,
            wparam,
            lparam,
        ).0.seen_colors() == (Some(a), Some(b)),
{
    color::law_hex_reads_back(a);
    color::law_hex_reads_back(b);
}

/// A change is reported exactly when the overlays give way or come back, and
/// not again while nothing changes.
pub proof fn law_changes_of_the_user_state(s: Situation, state: Option<i32>)
    ensures
        !s.watching(state).shifted_by(state),
        s.shifted_by(state) <==> s.watching(state) != s,
{
}

/// A scene is at rest exactly if its character and its water are.
pub proof fn law_active(moving: bool, calm: bool)
    ensures
        !active(moving, calm) <==> !moving && calm,
{
}

/// The random numbers go on one at a time, and characters are picked until
/// one differs from the last: the pick that counts is the first such one.
pub proof fn law_picks_until_another_comes(rng: u64, except: Seq<char>, n: nat, k: nat)
    ensures
        state_after(rng, 0) == rng,
        state_after(rng, n + 1) == character::scrambled(state_after(rng, n)),
        first_change(rng, except, n) ==> n > 0 && picked(state_after(rng, n)) != except && (0 < k
            < n ==> picked(state_after(rng, k)) == except),
        first_change(rng, except, n) ==> !never_changes(rng, except),
        first_change(rng, except, n) && first_change(rng, except, k) ==> n == k,
        picked(state_after(rng, 1)) != except ==> first_change(rng, except, 1),
{
    if first_change(rng, except, n) && first_change(rng, except, k) {
        if n < k {
            assert(picked(state_after(rng, n)) == except);
        }
        if k < n {
            assert(picked(state_after(rng, k)) == except);
        }
    }
}

} // verus!
