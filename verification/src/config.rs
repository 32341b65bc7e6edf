//! User settings and their ranges.

use vstd::prelude::*;

use crate::single::Single;
use crate::text;

verus! {

/// The sprite sheet that the user supplied: a horizontal strip of frames.
#[derive(Debug, Clone)]
pub struct CustomSprite {
    /// Path to a PNG containing a horizontal strip of equally sized frames.
    pub path: String,
    pub frame_width: u32,
    pub frame_height: u32,
    /// Animation speed in frames per second.
    pub fps: Single,
    /// "floater" bobs on the surface, "swimmer" glides submerged.
    pub mode: String,
    /// Direction the art faces in the sheet: "left" or "right".
    pub facing: String,
}

/// What a [`CustomSprite`] says.
pub struct SpriteSettings {
    pub path: Seq<char>,
    pub frame_width: u32,
    pub frame_height: u32,
    pub fps: Single,
    pub mode: Seq<char>,
    pub facing: Seq<char>,
}

impl View for CustomSprite {
    type V = SpriteSettings;

    open spec fn view(&self) -> SpriteSettings {
        SpriteSettings {
            path: self.path@,
            frame_width: self.frame_width,
            frame_height: self.frame_height,
            fps: self.fps,
            mode: self.mode@,
            facing: self.facing@,
        }
    }
}

impl SpriteSettings {
    /// Equal, with the speeds compared as numbers.
    pub open spec fn alike(self, other: SpriteSettings) -> bool {
        &&& self.path == other.path
        &&& self.frame_width == other.frame_width
        &&& self.frame_height == other.frame_height
        &&& self.fps.alike(other.fps)
        &&& self.mode == other.mode
        &&& self.facing == other.facing
    }
}

impl CustomSprite {
    pub fn duplicate(&self) -> (r: CustomSprite)
        ensures
            r@ == self@,
    {
        CustomSprite {
            path: self.path.clone(),
            frame_width: self.frame_width,
            frame_height: self.frame_height,
            fps: self.fps,
            mode: self.mode.clone(),
            facing: self.facing.clone(),
        }
    }

    /// Whether two entries are equal, with the speeds compared as numbers.
    pub fn same(&self, other: &CustomSprite) -> (r: bool)
        ensures
            r == self@.alike(other@),
    {
        self.path == other.path && self.frame_width == other.frame_width && self.frame_height
            == other.frame_height && self.fps.is_alike(other.fps) && self.mode == other.mode
            && self.facing == other.facing
    }
}

/// The mode of an entry that names none.
pub fn default_custom_mode() -> (r: String)
    ensures
        r@ == "floater"@,
{
    "floater".to_owned()
}

/// The facing of an entry that names none.
pub fn default_custom_facing() -> (r: String)
    ensures
        r@ == "right"@,
{
    "right".to_owned()
}

/// The speed of an entry that names none: 4 frames per second.
pub fn default_custom_fps() -> (r: Single)
    ensures
        r == (Single { bits: 0x4080_0000 }),
{
    Single { bits: 0x4080_0000 }
}

/// The settings.
#[derive(Debug, Clone)]
pub struct Config {
    /// Built-in ids: duck, capybara, fish, coconut, boat; or "custom", or
    /// "rotate" to switch between built-ins at random every `rotate_minutes`.
    pub character: String,
    /// How long each character stays on screen in rotate mode, in minutes.
    pub rotate_minutes: Single,
    /// Character size relative to taskbar height (0.2..=1.5).
    pub scale: Single,
    /// Swim speed multiplier (0.1..=4.0).
    pub speed: Single,
    /// Water body opacity (0.0..=1.0).
    pub water_opacity: Single,
    /// Water color at the surface, "#rrggbb".
    pub water_shallow: String,
    /// Water color at the bottom of the taskbar, "#rrggbb".
    pub water_deep: String,
    /// Strength of ambient waves and ripples (0.0..=2.0).
    pub wave_intensity: Single,
    /// Spawn ripples when the mouse moves across the taskbar.
    pub mouse_ripples: bool,
    /// Frame rate while water or character is in motion.
    pub active_fps: u32,
    /// Frame rate when the scene has settled to gentle idling.
    pub idle_fps: u32,
    /// Overlay secondary-monitor taskbars too.
    pub all_monitors: bool,
    /// Run at Windows startup.
    pub autostart: bool,
    /// Master switch; the tray menu's Pause toggles it in memory only.
    pub enabled: bool,
    /// Optional user-supplied sprite sheet.
    pub custom_sprite: Option<CustomSprite>,
}

/// What a [`Config`] says.
pub struct Settings {
    pub character: Seq<char>,
    pub rotate_minutes: Single,
    pub scale: Single,
    pub speed: Single,
    pub water_opacity: Single,
    pub water_shallow: Seq<char>,
    pub water_deep: Seq<char>,
    pub wave_intensity: Single,
    pub mouse_ripples: bool,
    pub active_fps: u32,
    pub idle_fps: u32,
    pub all_monitors: bool,
    pub autostart: bool,
    pub enabled: bool,
    pub custom_sprite: Option<SpriteSettings>,
}

impl View for Config {
    type V = Settings;

    open spec fn view(&self) -> Settings {
        Settings {
            character: self.character@,
            rotate_minutes: self.rotate_minutes,
            scale: self.scale,
            speed: self.speed,
            water_opacity: self.water_opacity,
            water_shallow: self.water_shallow@,
            water_deep: self.water_deep@,
            wave_intensity: self.wave_intensity,
            mouse_ripples: self.mouse_ripples,
            active_fps: self.active_fps,
            idle_fps: self.idle_fps,
            all_monitors: self.all_monitors,
            autostart: self.autostart,
            enabled: self.enabled,
            custom_sprite: match self.custom_sprite {
                Some(s) => Some(s@),
                None => None,
            },
        }
    }
}

/// 0.0
pub const ZERO: u32 = 0;

/// 0.1
pub const TENTH: u32 = 0x3dcc_cccd;

/// 0.2
pub const FIFTH: u32 = 0x3e4c_cccd;

/// 1.0
pub const ONE: u32 = 0x3f80_0000;

/// 1.5
pub const ONE_AND_A_HALF: u32 = 0x3fc0_0000;

/// 2.0
pub const TWO: u32 = 0x4000_0000;

/// 4.0
pub const FOUR: u32 = 0x4080_0000;

/// 720.0
pub const TWELVE_HOURS: u32 = 0x4434_0000;

/// `v` within `lo..=hi`.
pub open spec fn limited(v: u32, lo: u32, hi: u32) -> u32 {
    if v < lo {
        lo
    } else if v > hi {
        hi
    } else {
        v
    }
}

fn limit(v: u32, lo: u32, hi: u32) -> (r: u32)
    ensures
        r == limited(v, lo, hi),
{
    if v < lo {
        lo
    } else if v > hi {
        hi
    } else {
        v
    }
}

impl Settings {
    /// Every setting is within its range.
    pub open spec fn in_range(self) -> bool {
        self.clamped() == self
    }

    /// Every number brought into its range.
    pub open spec fn clamped(self) -> Settings {
        let active = limited(self.active_fps, 10, 240);
        Settings {
            scale: self.scale.clamped(Single { bits: FIFTH }, Single { bits: ONE_AND_A_HALF }),
            rotate_minutes: self.rotate_minutes.clamped(
                Single { bits: FIFTH },
                Single { bits: TWELVE_HOURS },
            ),
            speed: self.speed.clamped(Single { bits: TENTH }, Single { bits: FOUR }),
            water_opacity: self.water_opacity.clamped(Single { bits: ZERO }, Single { bits: ONE }),
            wave_intensity: self.wave_intensity.clamped(Single { bits: ZERO }, Single { bits: TWO }),
            active_fps: active,
            idle_fps: limited(self.idle_fps, 1, active),
            ..self
        }
    }

    /// Equal, with numbers compared as numbers: a setting that is not a
    /// number differs from everything.
    pub open spec fn alike(self, other: Settings) -> bool {
        &&& self.character == other.character
        &&& self.rotate_minutes.alike(other.rotate_minutes)
        &&& self.scale.alike(other.scale)
        &&& self.speed.alike(other.speed)
        &&& self.water_opacity.alike(other.water_opacity)
        &&& self.water_shallow == other.water_shallow
        &&& self.water_deep == other.water_deep
        &&& self.wave_intensity.alike(other.wave_intensity)
        &&& self.mouse_ripples == other.mouse_ripples
        &&& self.active_fps == other.active_fps
        &&& self.idle_fps == other.idle_fps
        &&& self.all_monitors == other.all_monitors
        &&& self.autostart == other.autostart
        &&& self.enabled == other.enabled
        &&& match (self.custom_sprite, other.custom_sprite) {
            (Some(a), Some(b)) => a.alike(b),
            (None, None) => true,
            _ => false,
        }
    }
}

/// The settings of a fresh install.
pub open spec fn stock() -> Settings {
    Settings {
        character: "duck"@,
        rotate_minutes: Single { bits: 0x40a0_0000 },  // 5.0
        scale: Single { bits: 0x3f4c_cccd },  // 0.8
        speed: Single { bits: ONE },
        water_opacity: Single { bits: 0x3ed7_0a3d },  // 0.42
        water_shallow: "#3f9de0"@,
        water_deep: "#123f78"@,
        wave_intensity: Single { bits: ONE },
        mouse_ripples: true,
        active_fps: 60,
        idle_fps: 30,
        all_monitors: true,
        autostart: false,
        enabled: true,
        custom_sprite: None,
    }
}

impl Default for Config {
    fn default() -> (r: Config)
        ensures
            r@ == stock(),
    {
        Config {
            character: "duck".to_owned(),
            rotate_minutes: Single { bits: 0x40a0_0000 },
            scale: Single { bits: 0x3f4c_cccd },
            speed: Single { bits: ONE },
            water_opacity: Single { bits: 0x3ed7_0a3d },
            water_shallow: "#3f9de0".to_owned(),
            water_deep: "#123f78".to_owned(),
            wave_intensity: Single { bits: ONE },
            mouse_ripples: true,
            active_fps: 60,
            idle_fps: 30,
            all_monitors: true,
            autostart: false,
            enabled: true,
            custom_sprite: None,
        }
    }
}

impl Config {
    /// Brings every number into its range.
    pub fn clamped(self) -> (r: Config)
        ensures
            r@ == self@.clamped(),
    {
        let active: u32 = limit(self.active_fps, 10, 240);
        Config {
            character: self.character,
            rotate_minutes: self.rotate_minutes.clamp(
                Single { bits: FIFTH },
                Single { bits: TWELVE_HOURS },
            ),
            scale: self.scale.clamp(Single { bits: FIFTH }, Single { bits: ONE_AND_A_HALF }),
            speed: self.speed.clamp(Single { bits: TENTH }, Single { bits: FOUR }),
            water_opacity: self.water_opacity.clamp(Single { bits: ZERO }, Single { bits: ONE }),
            water_shallow: self.water_shallow,
            water_deep: self.water_deep,
            wave_intensity: self.wave_intensity.clamp(Single { bits: ZERO }, Single { bits: TWO }),
            mouse_ripples: self.mouse_ripples,
            active_fps: active,
            idle_fps: limit(self.idle_fps, 1, active),
            all_monitors: self.all_monitors,
            autostart: self.autostart,
            enabled: self.enabled,
            custom_sprite: self.custom_sprite,
        }
    }

    pub fn duplicate(&self) -> (r: Config)
        ensures
            r@ == self@,
    {
        Config {
            character: self.character.clone(),
            rotate_minutes: self.rotate_minutes,
            scale: self.scale,
            speed: self.speed,
            water_opacity: self.water_opacity,
            water_shallow: self.water_shallow.clone(),
            water_deep: self.water_deep.clone(),
            wave_intensity: self.wave_intensity,
            mouse_ripples: self.mouse_ripples,
            active_fps: self.active_fps,
            idle_fps: self.idle_fps,
            all_monitors: self.all_monitors,
            autostart: self.autostart,
            enabled: self.enabled,
            custom_sprite: match &self.custom_sprite {
                Some(s) => Some(s.duplicate()),
                None => None,
            },
        }
    }

    /// Whether two settings are equal, with numbers compared as numbers.
    pub fn same(&self, other: &Config) -> (r: bool)
        ensures
            r == self@.alike(other@),
    {
        let sprites: bool = match (&self.custom_sprite, &other.custom_sprite) {
            (Some(a), Some(b)) => a.same(b),
            (None, None) => true,
            _ => false,
        };
        sprites && self.character == other.character && self.rotate_minutes.is_alike(
            other.rotate_minutes,
        ) && self.scale.is_alike(other.scale) && self.speed.is_alike(other.speed)
            && self.water_opacity.is_alike(other.water_opacity) && self.water_shallow
            == other.water_shallow && self.water_deep == other.water_deep
            && self.wave_intensity.is_alike(other.wave_intensity) && self.mouse_ripples
            == other.mouse_ripples && self.active_fps == other.active_fps && self.idle_fps
            == other.idle_fps && self.all_monitors == other.all_monitors && self.autostart
            == other.autostart && self.enabled == other.enabled
    }
}

/// Resolves "rotate" to the built-in on show; other characters stay.
pub fn effective_config(cfg: &Config, rotate_id: &str) -> (r: Config)
    ensures
        r@ == effective(cfg@, rotate_id@),
{
    let mut c = cfg.duplicate();
    if text::same(cfg.character.as_str(), "rotate") {
        c.character = rotate_id.to_owned();
    }
    c
}

/// `s` with "rotate" resolved to the built-in on show.
pub open spec fn effective(s: Settings, rotate_id: Seq<char>) -> Settings {
    if s.character == "rotate"@ {
        Settings { character: rotate_id, ..s }
    } else {
        s
    }
}

/// The comment at the top of the settings file.
pub open spec fn heading() -> Seq<char> {
    "# Floaty configuration — edits are applied live while Floaty runs.\n# Characters: duck, capybara, fish, coconut, boat, custom,\n# or \"rotate\" (random built-in every rotate_minutes)\n\n"@
}

/// The comment at the top of the settings file.
pub fn header() -> (r: String)
    ensures
        r@ == heading(),
{
    "# Floaty configuration — edits are applied live while Floaty runs.\n# Characters: duck, capybara, fish, coconut, boat, custom,\n# or \"rotate\" (random built-in every rotate_minutes)\n\n".to_owned()
}

/// Clamping brings every number into its range, unless it is not a number,
/// and the idle rate never exceeds the active one.
pub proof fn law_clamped_in_range(s: Settings)
    ensures
        10 <= s.clamped().active_fps <= 240,
        1 <= s.clamped().idle_fps <= s.clamped().active_fps,
        !s.scale.nan() ==> (Single { bits: FIFTH }).le(s.clamped().scale) && s.clamped().scale.le(
            Single { bits: ONE_AND_A_HALF },
        ),
        !s.rotate_minutes.nan() ==> (Single { bits: FIFTH }).le(s.clamped().rotate_minutes)
            && s.clamped().rotate_minutes.le(Single { bits: TWELVE_HOURS }),
        !s.speed.nan() ==> (Single { bits: TENTH }).le(s.clamped().speed) && s.clamped().speed.le(
            Single { bits: FOUR },
        ),
        !s.water_opacity.nan() ==> (Single { bits: ZERO }).le(s.clamped().water_opacity)
            && s.clamped().water_opacity.le(Single { bits: ONE }),
        !s.wave_intensity.nan() ==> (Single { bits: ZERO }).le(s.clamped().wave_intensity)
            && s.clamped().wave_intensity.le(Single { bits: TWO }),
{
}

/// Clamping settings a second time changes nothing.
pub proof fn law_clamped_idempotent(s: Settings)
    ensures
        s.clamped().clamped() == s.clamped(),
{
}

/// The settings of a fresh install are within range.
pub proof fn law_stock_in_range()
    ensures
        stock().clamped() == stock(),
{
}

/// Only numbers out of range change when settings are brought into range, and
/// each of them goes to the edge of its range that it is beyond. Numbers in
/// range stay as they are.
pub proof fn law_only_strays_are_clamped(s: Settings)
    ensures
        ({
            let t = s.clamped();
            &&& s.scale.lt(Single { bits: 0x3e4c_cccd }) ==> t.scale.bits == 0x3e4c_cccd
            &&& (Single { bits: 0x3fc0_0000 }).lt(s.scale) ==> t.scale.bits == 0x3fc0_0000
            &&& !s.scale.lt(Single { bits: 0x3e4c_cccd }) && !(Single { bits: 0x3fc0_0000 }).lt(
                s.scale,
            ) ==> t.scale == s.scale
            &&& s.rotate_minutes.lt(Single { bits: 0x3e4c_cccd }) ==> t.rotate_minutes.bits
                == 0x3e4c_cccd
            &&& (Single { bits: 0x4434_0000 }).lt(s.rotate_minutes) ==> t.rotate_minutes.bits
                == 0x4434_0000
            &&& !s.rotate_minutes.lt(Single { bits: 0x3e4c_cccd }) && !(Single {
                bits: 0x4434_0000,
            }).lt(s.rotate_minutes) ==> t.rotate_minutes == s.rotate_minutes
            &&& s.speed.lt(Single { bits: 0x3dcc_cccd }) ==> t.speed.bits == 0x3dcc_cccd
            &&& (Single { bits: 0x4080_0000 }).lt(s.speed) ==> t.speed.bits == 0x4080_0000
            &&& !s.speed.lt(Single { bits: 0x3dcc_cccd }) && !(Single { bits: 0x4080_0000 }).lt(
                s.speed,
            ) ==> t.speed == s.speed
            &&& s.water_opacity.lt(Single { bits: 0 }) ==> t.water_opacity.bits == 0
            &&& (Single { bits: 0x3f80_0000 }).lt(s.water_opacity) ==> t.water_opacity.bits
                == 0x3f80_0000
            &&& !s.water_opacity.lt(Single { bits: 0 }) && !(Single { bits: 0x3f80_0000 }).lt(
                s.water_opacity,
            ) ==> t.water_opacity == s.water_opacity
            &&& s.wave_intensity.lt(Single { bits: 0 }) ==> t.wave_intensity.bits == 0
            &&& (Single { bits: 0x4000_0000 }).lt(s.wave_intensity) ==> t.wave_intensity.bits
                == 0x4000_0000
            &&& !s.wave_intensity.lt(Single { bits: 0 }) && !(Single { bits: 0x4000_0000 }).lt(
                s.wave_intensity,
            ) ==> t.wave_intensity == s.wave_intensity
            &&& s.active_fps < 10 ==> t.active_fps == 10
            &&& s.active_fps > 240 ==> t.active_fps == 240
            &&& 10 <= s.active_fps <= 240 ==> t.active_fps == s.active_fps
            &&& s.idle_fps == 0 ==> t.idle_fps == 1
            &&& s.idle_fps > t.active_fps ==> t.idle_fps == t.active_fps
            &&& 1 <= s.idle_fps <= t.active_fps ==> t.idle_fps == s.idle_fps
        }),
{
}

/// Bringing settings into range leaves everything that is no number alone,
/// and each number goes its own way: only the idle rate looks at another one,
/// the active rate.
pub proof fn law_clamping_leaves_words_alone(s: Settings, t: Settings)
    ensures
        s.clamped().character == s.character,
        s.clamped().water_shallow == s.water_shallow,
        s.clamped().water_deep == s.water_deep,
        s.clamped().mouse_ripples == s.mouse_ripples,
        s.clamped().all_monitors == s.all_monitors,
        s.clamped().autostart == s.autostart,
        s.clamped().enabled == s.enabled,
        s.clamped().custom_sprite == s.custom_sprite,
        s.scale == t.scale ==> s.clamped().scale == t.clamped().scale,
        s.speed == t.speed ==> s.clamped().speed == t.clamped().speed,
        s.rotate_minutes == t.rotate_minutes ==> s.clamped().rotate_minutes
            == t.clamped().rotate_minutes,
        s.water_opacity == t.water_opacity ==> s.clamped().water_opacity
            == t.clamped().water_opacity,
        s.wave_intensity == t.wave_intensity ==> s.clamped().wave_intensity
            == t.clamped().wave_intensity,
        s.active_fps == t.active_fps ==> s.clamped().active_fps == t.clamped().active_fps,
        s.active_fps == t.active_fps && s.idle_fps == t.idle_fps ==> s.clamped().idle_fps
            == t.clamped().idle_fps,
{
}

/// Settings without numbers that are none are like themselves, being alike
/// goes both ways, and settings that are alike agree in every word, switch
/// and count.
pub proof fn law_alike(s: Settings, t: Settings)
    ensures
        s.alike(t) == t.alike(s),
        !s.scale.nan() && !s.rotate_minutes.nan() && !s.speed.nan() && !s.water_opacity.nan()
            && !s.wave_intensity.nan() && (s.custom_sprite matches Some(c) ==> !c.fps.nan())
            ==> s.alike(s),
        s.alike(t) ==> {
            &&& s.character == t.character
            &&& s.water_shallow == t.water_shallow
            &&& s.water_deep == t.water_deep
            &&& s.mouse_ripples == t.mouse_ripples
            &&& s.active_fps == t.active_fps
            &&& s.idle_fps == t.idle_fps
            &&& s.all_monitors == t.all_monitors
            &&& s.autostart == t.autostart
            &&& s.enabled == t.enabled
            &&& !s.scale.lt(t.scale) && !t.scale.lt(s.scale)
            &&& !s.speed.lt(t.speed) && !t.speed.lt(s.speed)
            &&& !s.rotate_minutes.lt(t.rotate_minutes) && !t.rotate_minutes.lt(s.rotate_minutes)
            &&& !s.water_opacity.lt(t.water_opacity) && !t.water_opacity.lt(s.water_opacity)
            &&& !s.wave_intensity.lt(t.wave_intensity) && !t.wave_intensity.lt(s.wave_intensity)
        },
        s.alike(t) ==> (match (s.custom_sprite, t.custom_sprite) {
            (None, None) => true,
            (Some(a), Some(b)) => a.path == b.path && a.frame_width == b.frame_width
                && a.frame_height == b.frame_height && a.mode == b.mode && a.facing == b.facing
                && !a.fps.lt(b.fps) && !b.fps.lt(a.fps),
            _ => false,
        }),
{
}

/// Only "rotate" gives way to the character on show, and nothing else of the
/// settings changes. What is on show is shown by name, too.
pub proof fn law_only_rotate_is_resolved(s: Settings, rotate_id: Seq<char>)
    ensures
        s.character == "rotate"@ ==> effective(s, rotate_id).character == rotate_id,
        s.character != "rotate"@ ==> effective(s, rotate_id) == s,
        effective(s, rotate_id) == (Settings {
            character: effective(s, rotate_id).character,
            ..s
        }),
        effective(effective(s, rotate_id), rotate_id) == effective(s, rotate_id),
{
}

/// Settings that agree in every word, switch and count, and in every number
/// as a number, are alike.
pub proof fn law_agreeing_settings_are_alike(s: Settings, t: Settings)
    requires
        s.scale.alike(t.scale) && s.rotate_minutes.alike(t.rotate_minutes) && s.speed.alike(t.speed),
        s.water_opacity.alike(t.water_opacity) && s.wave_intensity.alike(t.wave_intensity),
        s.character == t.character,
        s.water_shallow == t.water_shallow,
        s.water_deep == t.water_deep,
        s.mouse_ripples == t.mouse_ripples,
        s.active_fps == t.active_fps,
        s.idle_fps == t.idle_fps,
        s.all_monitors == t.all_monitors,
        s.autostart == t.autostart,
        s.enabled == t.enabled,
        s.custom_sprite is Some == t.custom_sprite is Some,
        s.custom_sprite is Some ==> {
            let (a, b) = (s.custom_sprite->0, t.custom_sprite->0);
            a.path == b.path && a.frame_width == b.frame_width && a.frame_height == b.frame_height
                && a.fps.alike(b.fps) && a.mode == b.mode && a.facing == b.facing
        },
    ensures
        s.alike(t),
{
}

} // verus!
