//! The settings in memory and the file they came from.
//!
//! The file is read and written by the program around the store. What the
//! store keeps of it is the time it was last changed, as far as it is known.

use vstd::prelude::*;

use crate::config;
use crate::config::{Config, Settings};
use crate::single::Single;

verus! {

/// What reading the settings file gave.
pub enum FileRead {
    /// There is no file to read.
    Missing,
    /// There is one, but it cannot be read or holds no settings.
    Malformed,
    Parsed(Config),
}

/// The settings and the file they are kept in.
pub struct ConfigStore {
    pub current: Config,
    /// The master switch as the file has it, which pausing leaves alone.
    pub filed: bool,
    pub path: String,
    /// When the file was last changed, in nanoseconds around 1970.
    pub last_mtime: Option<i128>,
}

/// What a [`ConfigStore`] holds.
pub struct Stored {
    pub current: Settings,
    pub filed: bool,
    pub path: Seq<char>,
    pub last_mtime: Option<i128>,
}

impl View for ConfigStore {
    type V = Stored;

    open spec fn view(&self) -> Stored {
        Stored {
            current: self.current@,
            filed: self.filed,
            path: self.path@,
            last_mtime: self.last_mtime,
        }
    }
}

/// The settings to start with: those of the file, within range, or those of
/// a fresh install.
pub open spec fn initial(file: FileRead) -> Settings {
    match file {
        FileRead::Parsed(c) => c@.clamped(),
        _ => config::stock(),
    }
}

/// The store that the program starts with.
pub open spec fn started(path: Seq<char>, file: FileRead) -> Stored {
    Stored { current: initial(file), filed: initial(file).enabled, path, last_mtime: None }
}

/// A file with the settings is to be written at start.
pub open spec fn asks_for_file(file: FileRead) -> bool {
    file is Missing
}

/// The text of a settings file.
pub open spec fn file_text(body: Seq<char>) -> Seq<char> {
    config::heading() + body
}

impl Stored {
    /// The file's time has been noted.
    pub open spec fn noted(self, mtime: Option<i128>) -> Stored {
        Stored { last_mtime: mtime, ..self }
    }

    /// The file has another time than the one noted.
    pub open spec fn stale(self, now: Option<i128>) -> bool {
        now != self.last_mtime
    }

    /// New settings differ from those in memory once they are within range.
    pub open spec fn changed_by(self, parsed: Option<Settings>) -> bool {
        parsed matches Some(p) && !p.clamped().alike(self.current)
    }

    /// The store after a reload that gave `parsed`, or nothing readable.
    pub open spec fn reloaded(self, parsed: Option<Settings>) -> Stored {
        match parsed {
            Some(p) => Stored {
                current: if self.changed_by(parsed) {
                    p.clamped()
                } else {
                    self.current
                },
                filed: p.enabled,
                ..self
            },
            None => self,
        }
    }

    /// What is to stand in the file: the settings in memory, but for a pause.
    pub open spec fn to_file(self) -> Settings {
        Settings { enabled: self.filed, ..self.current }
    }
}

impl ConfigStore {
    /// Starts from what reading the file gave. The second result asks for a
    /// file with the settings to be written, because there is none.
    pub fn load(path: String, file: FileRead) -> (r: (ConfigStore, bool))
        ensures
            r.0@ == started(path@, file),
            r.1 == asks_for_file(file),
    {
        let missing = matches!(file, FileRead::Missing);
        let current = match file {
            FileRead::Parsed(c) => c.clamped(),
            _ => Config::default(),
        };
        let filed = current.enabled;
        (ConfigStore { current, filed, path, last_mtime: None }, missing)
    }

    /// Where the settings file is.
    pub fn path(&self) -> (r: &String)
        ensures
            r@ == self@.path,
    {
        &self.path
    }

    /// Notes the time of the file after it was read at start or written, so
    /// that the next poll does not take the store's own change for news.
    pub fn note(&mut self, mtime: Option<i128>)
        ensures
            final(self)@ == old(self)@.noted(mtime),
    {
        self.last_mtime = mtime;
    }

    /// Looks at the time of the file. True when it changed and has to be read
    /// and handed to [`ConfigStore::accept`].
    pub fn poll_reload(&mut self, now: Option<i128>) -> (r: bool)
        ensures
            r == old(self)@.stale(now),
            final(self)@ == old(self)@.noted(now),
    {
        if now == self.last_mtime {
            return false;
        }
        self.last_mtime = now;
        true
    }

    /// Takes over what the changed file holds; nothing when it could not be
    /// read. True when the settings are now different.
    pub fn accept(&mut self, parsed: Option<Config>) -> (r: bool)
        ensures
            r == old(self)@.changed_by(
                match parsed {
                    Some(c) => Some(c@),
                    None => None,
                },
            ),
            final(self)@ == old(self)@.reloaded(
                match parsed {
                    Some(c) => Some(c@),
                    None => None,
                },
            ),
    {
        match parsed {
            Some(c) => {
                let c = c.clamped();
                self.filed = c.enabled;
                if c.same(&self.current) {
                    return false;
                }
                self.current = c;
                true
            },
            None => false,
        }
    }

    /// The settings to write to the file: those in memory, with the master
    /// switch as the file has it, since pausing happens in memory only.
    pub fn to_write(&self) -> (r: Config)
        ensures
            r@ == self@.to_file(),
    {
        let mut c = self.current.duplicate();
        c.enabled = self.filed;
        c
    }

    /// What to write to the settings file for settings that were written out
    /// as `body`; nothing when they could not be written out.
    pub fn save(&self, body: Option<&str>) -> (r: Option<String>)
        ensures
            r is Some <==> body is Some,
            r matches Some(t) ==> t@ == file_text(body->0@),
    {
        match body {
            Some(b) => {
                let mut text = config::header();
                text.append(b);
                Some(text)
            },
            None => None,
        }
    }
}

/// A file whose time was noted after writing it is not read again until its
/// time changes.
pub proof fn law_own_write_is_no_news(s: Stored, mtime: Option<i128>)
    ensures
        !s.noted(mtime).stale(mtime),
{
}

/// A reload never leaves the settings out of range when they were in range.
pub proof fn law_reload_keeps_range(s: Stored, parsed: Option<Settings>)
    requires
        s.current.clamped() == s.current,
    ensures
        s.reloaded(parsed).current.clamped() == s.reloaded(parsed).current,
{
}

/// Reloading settings that say nothing new leaves those in memory as they
/// were, and an unreadable file changes nothing at all.
pub proof fn law_reload_without_news(s: Stored, parsed: Option<Settings>)
    requires
        parsed is None || parsed->0.clamped().alike(s.current),
    ensures
        s.reloaded(parsed).current == s.current,
        parsed is None ==> s.reloaded(parsed) == s,
        !s.changed_by(parsed),
{
}

/// After a reload the master switch that would be written is the one that the
/// file has.
pub proof fn law_reload_notes_the_switch(s: Stored, parsed: Settings)
    ensures
        s.reloaded(Some(parsed)).to_file().enabled == parsed.enabled,
{
}

/// A file whose numbers are all in range is taken over as it is: every
/// setting, the character and the colors too, is the file's.
pub proof fn law_good_file_is_taken_over(c: Config)
    requires
        (Single { bits: 0x3e4c_cccd }).le(c@.scale) && c@.scale.le(Single { bits: 0x3fc0_0000 }),
        (Single { bits: 0x3e4c_cccd }).le(c@.rotate_minutes) && c@.rotate_minutes.le(
            Single { bits: 0x4434_0000 },
        ),
        (Single { bits: 0x3dcc_cccd }).le(c@.speed) && c@.speed.le(Single { bits: 0x4080_0000 }),
        (Single { bits: 0 }).le(c@.water_opacity) && c@.water_opacity.le(
            Single { bits: 0x3f80_0000 },
        ),
        (Single { bits: 0 }).le(c@.wave_intensity) && c@.wave_intensity.le(
            Single { bits: 0x4000_0000 },
        ),
        10 <= c@.active_fps <= 240,
        1 <= c@.idle_fps <= c@.active_fps,
    ensures
        initial(FileRead::Parsed(c)).character == c.character@,
        initial(FileRead::Parsed(c)).rotate_minutes == c.rotate_minutes,
        initial(FileRead::Parsed(c)).scale == c.scale,
        initial(FileRead::Parsed(c)).speed == c.speed,
        initial(FileRead::Parsed(c)).water_opacity == c.water_opacity,
        initial(FileRead::Parsed(c)).water_shallow == c.water_shallow@,
        initial(FileRead::Parsed(c)).water_deep == c.water_deep@,
        initial(FileRead::Parsed(c)).wave_intensity == c.wave_intensity,
        initial(FileRead::Parsed(c)).mouse_ripples == c.mouse_ripples,
        initial(FileRead::Parsed(c)).active_fps == c.active_fps,
        initial(FileRead::Parsed(c)).idle_fps == c.idle_fps,
        initial(FileRead::Parsed(c)).all_monitors == c.all_monitors,
        initial(FileRead::Parsed(c)).autostart == c.autostart,
        initial(FileRead::Parsed(c)).enabled == c.enabled,
        initial(FileRead::Parsed(c)).custom_sprite == c@.custom_sprite,
{
}

/// What a file says that is no number is taken over even if its numbers are
/// out of range.
pub proof fn law_words_are_taken_over(c: Config)
    ensures
        initial(FileRead::Parsed(c)).character == c.character@,
        initial(FileRead::Parsed(c)).water_shallow == c.water_shallow@,
        initial(FileRead::Parsed(c)).water_deep == c.water_deep@,
        initial(FileRead::Parsed(c)).mouse_ripples == c.mouse_ripples,
        initial(FileRead::Parsed(c)).all_monitors == c.all_monitors,
        initial(FileRead::Parsed(c)).autostart == c.autostart,
        initial(FileRead::Parsed(c)).enabled == c.enabled,
        initial(FileRead::Parsed(c)).custom_sprite == c@.custom_sprite,
{
}

/// Starting with a file and reloading it while the program runs come to the
/// same: whatever the settings in memory were, they are those that starting
/// with the file gives, or say the same as those. The master switch that
/// would be written is the file's either way.
pub proof fn law_starting_agrees_with_reloading(c: Config, s: Stored)
    ensures
        s.reloaded(Some(c@)).current == initial(FileRead::Parsed(c)) || (s.reloaded(
            Some(c@),
        ).current == s.current && initial(FileRead::Parsed(c)).alike(s.current)),
        s.changed_by(Some(c@)) <==> !initial(FileRead::Parsed(c)).alike(s.current),
        started(s.path, FileRead::Parsed(c)).filed == s.reloaded(Some(c@)).filed,
{
}

/// A file that says something else than the settings in memory replaces them
/// altogether, and a second reload of it brings nothing new.
pub proof fn law_reload_takes_over(c: Config, s: Stored)
    requires
        !c@.scale.nan() && !c@.rotate_minutes.nan() && !c@.speed.nan(),
        !c@.water_opacity.nan() && !c@.wave_intensity.nan(),
        c@.custom_sprite matches Some(sprite) ==> !sprite.fps.nan(),
        s.current.character != c@.character || s.current.water_shallow != c@.water_shallow
            || s.current.water_deep != c@.water_deep || s.current.mouse_ripples != c@.mouse_ripples
            || s.current.all_monitors != c@.all_monitors || s.current.autostart != c@.autostart
            || s.current.enabled != c@.enabled,
    ensures
        s.changed_by(Some(c@)),
        s.reloaded(Some(c@)).current == initial(FileRead::Parsed(c)),
        !s.reloaded(Some(c@)).changed_by(Some(c@)),
        s.reloaded(Some(c@)).reloaded(Some(c@)) == s.reloaded(Some(c@)),
{
}

/// Without readable settings the program starts with those of a fresh
/// install, whether there is a file or not. Only a missing file is written.
pub proof fn law_start_without_settings()
    ensures
        initial(FileRead::Missing) == config::stock(),
        initial(FileRead::Malformed) == config::stock(),
        asks_for_file(FileRead::Missing),
        !asks_for_file(FileRead::Malformed),
        forall|c: Config| !#[trigger] asks_for_file(FileRead::Parsed(c)),
{
}

/// A store that has just been started keeps its file's place, knows of no
/// time, and would write what it started with, the master switch included.
pub proof fn law_start_is_what_is_written(path: Seq<char>, file: FileRead)
    ensures
        started(path, file).path == path,
        started(path, file).last_mtime is None,
        started(path, file).current == initial(file),
        started(path, file).to_file() == initial(file),
        forall|mtime: i128| #[trigger] started(path, file).stale(Some(mtime)),
        !started(path, file).stale(None),
{
}

/// What is written is read back: a store that starts with a file holding what
/// another store wrote has that store's settings, with the master switch of
/// its file.
pub proof fn law_written_settings_are_read_back(s: Stored, c: Config)
    requires
        s.current.in_range(),
        c@ == s.to_file(),
    ensures
        initial(FileRead::Parsed(c)) == s.to_file(),
        initial(FileRead::Parsed(c)).character == s.current.character,
        initial(FileRead::Parsed(c)).enabled == s.filed,
        s.filed == s.current.enabled ==> initial(FileRead::Parsed(c)) == s.current,
{
}

/// What is written differs from the settings in memory in the master switch
/// at most.
pub proof fn law_only_the_switch_is_held_back(s: Stored)
    ensures
        s.to_file().enabled == s.filed,
        (Settings { enabled: s.current.enabled, ..s.to_file() }) == s.current,
        s.filed == s.current.enabled ==> s.to_file() == s.current,
{
}

/// Noting a time and reloading have nothing to do with each other: the one
/// touches the time alone, the other all but the time and the place.
pub proof fn law_time_and_settings_are_apart(
    s: Stored,
    mtime: Option<i128>,
    parsed: Option<Settings>,
)
    ensures
        s.noted(mtime).last_mtime == mtime,
        s.noted(mtime).current == s.current,
        s.noted(mtime).filed == s.filed,
        s.noted(mtime).path == s.path,
        s.reloaded(parsed).path == s.path,
        s.reloaded(parsed).last_mtime == s.last_mtime,
        s.noted(mtime).reloaded(parsed) == s.reloaded(parsed).noted(mtime),
{
}

/// A file is news exactly when its time is another one than the time last
/// noted: a file that appears or goes away is news, and one that stays is
/// not.
pub proof fn law_when_a_file_is_news(s: Stored, before: Option<i128>, now: Option<i128>)
    ensures
        s.noted(before).stale(now) <==> s.noted(now).stale(before),
        !s.noted(before).stale(now) <==> before == now,
{
}

/// A settings file is the comment, which is always the same, and after it the
/// settings as they were written out, unchanged.
pub proof fn law_file_text(a: Seq<char>, b: Seq<char>)
    ensures
        file_text(a).len() == config::heading().len() + a.len(),
        file_text(a).skip(config::heading().len() as int) == a,
        file_text(a).take(config::heading().len() as int) == config::heading(),
        file_text(a + b) == file_text(a) + b,
{
    assert(file_text(a).skip(config::heading().len() as int) =~= a);
    assert(file_text(a).take(config::heading().len() as int) =~= config::heading());
    assert(file_text(a + b) =~= file_text(a) + b);
}

} // verus!
