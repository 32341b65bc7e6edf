//! The tray icon's menu and the commands it gives.

use vstd::prelude::*;

use crate::assets;
use crate::message::{WM_CONTEXTMENU, WM_LBUTTONDBLCLK, WM_RBUTTONUP};
use crate::text;

verus! {

/// The message that the tray icon posts to the program's window.
pub const WM_TRAYICON: u32 = 0x8001;

pub const CMD_PAUSE: u32 = 1;

pub const CMD_MOUSE_RIPPLES: u32 = 2;

pub const CMD_AUTOSTART: u32 = 3;

pub const CMD_OPEN_CONFIG: u32 = 4;

pub const CMD_ABOUT: u32 = 5;

pub const CMD_EXIT: u32 = 6;

pub const CMD_WATER_COLOR: u32 = 7;

pub const CMD_CHARACTER_BASE: u32 = 100;

pub const CMD_CHARACTER_IMPORT: u32 = 197;

pub const CMD_CHARACTER_ROTATE: u32 = 198;

pub const CMD_CHARACTER_CUSTOM: u32 = 199;

/// What the user asked for.
#[derive(Debug, Clone, PartialEq, Eq)]
pub enum TrayCommand {
    TogglePause,
    ToggleMouseRipples,
    ToggleAutostart,
    WaterColor,
    OpenConfig,
    About,
    Exit,
    SelectCharacter(String),
    ImportImage,
}

/// What a [`TrayCommand`] says.
pub enum Command {
    TogglePause,
    ToggleMouseRipples,
    ToggleAutostart,
    WaterColor,
    OpenConfig,
    About,
    Exit,
    SelectCharacter(Seq<char>),
    ImportImage,
}

impl View for TrayCommand {
    type V = Command;

    open spec fn view(&self) -> Command {
        match self {
            TrayCommand::TogglePause => Command::TogglePause,
            TrayCommand::ToggleMouseRipples => Command::ToggleMouseRipples,
            TrayCommand::ToggleAutostart => Command::ToggleAutostart,
            TrayCommand::WaterColor => Command::WaterColor,
            TrayCommand::OpenConfig => Command::OpenConfig,
            TrayCommand::About => Command::About,
            TrayCommand::Exit => Command::Exit,
            TrayCommand::SelectCharacter(id) => Command::SelectCharacter(id@),
            TrayCommand::ImportImage => Command::ImportImage,
        }
    }
}

/// An entry of a menu.
#[derive(Debug, Clone, Copy)]
pub enum MenuItem {
    Command { id: u32, label: &'static str, checked: bool, grayed: bool },
    /// Opens the menu of characters.
    Characters { label: &'static str },
    Separator,
}

/// The entry for the built-in character at `i` of the roster; the current one
/// is checked.
pub open spec fn character_item(character: Seq<char>, i: int) -> MenuItem {
    MenuItem::Command {
        id: (CMD_CHARACTER_BASE + i) as u32,
        label: assets::roster_spec()[i].name,
        checked: character == assets::roster_spec()[i].id@,
        grayed: false,
    }
}

/// The menu of characters: the built-in ones in order, then the random one,
/// the custom one, which needs a custom sprite, and the import.
pub open spec fn character_menu_spec(character: Seq<char>, custom_available: bool) -> Seq<MenuItem> {
    Seq::new(
        assets::roster_spec().len(),
        |i: int| character_item(character, i),
    ) + seq![
        MenuItem::Command {
            id: CMD_CHARACTER_ROTATE,
            label: "Surprise me (rotate)",
            checked: character == "rotate"@,
            grayed: false,
        },
        MenuItem::Separator,
        MenuItem::Command {
            id: CMD_CHARACTER_CUSTOM,
            label: "Custom image",
            checked: character == "custom"@,
            grayed: !custom_available,
        },
        MenuItem::Command {
            id: CMD_CHARACTER_IMPORT,
            label: "Import image…",
            checked: false,
            grayed: false,
        },
    ]
}

/// Builds the menu of characters.
pub fn character_menu(character: &str, custom_available: bool) -> (r: Vec<MenuItem>)
    ensures
        r@ == character_menu_spec(character@, custom_available),
{
    let all = assets::roster();
    let mut items: Vec<MenuItem> = Vec::new();
    let mut i: usize = 0;
    while i < all.len()
        invariant
            i <= all.len(),
            all@ == assets::roster_spec(),
            all.len() == assets::ROSTER_LEN,
            items@ == Seq::new(i as nat, |k: int| character_item(character@, k)),
        decreases all.len() - i,
    {
        items.push(
            MenuItem::Command {
                id: CMD_CHARACTER_BASE + i as u32,
                label: all[i].name,
                checked: text::same(character, all[i].id),
                grayed: false,
            },
        );
        assert(items@ =~= Seq::new((i + 1) as nat, |k: int| character_item(character@, k)));
        i = i + 1;
    }
    items.push(
        MenuItem::Command {
            id: CMD_CHARACTER_ROTATE,
            label: "Surprise me (rotate)",
            checked: text::same(character, "rotate"),
            grayed: false,
        },
    );
    items.push(MenuItem::Separator);
    items.push(
        MenuItem::Command {
            id: CMD_CHARACTER_CUSTOM,
            label: "Custom image",
            checked: text::same(character, "custom"),
            grayed: !custom_available,
        },
    );
    items.push(
        MenuItem::Command {
            id: CMD_CHARACTER_IMPORT,
            label: "Import image…",
            checked: false,
            grayed: false,
        },
    );
    assert(items@ =~= character_menu_spec(character@, custom_available));
    items
}

/// The menu of the tray icon.
pub open spec fn main_menu_spec(paused: bool, mouse_ripples: bool, autostart: bool) -> Seq<MenuItem> {
    seq![
        MenuItem::Command {
            id: CMD_PAUSE,
            label: if paused {
                "Resume"
            } else {
                "Pause"
            },
            checked: false,
            grayed: false,
        },
        MenuItem::Characters { label: "Character" },
        MenuItem::Command {
            id: CMD_WATER_COLOR,
            label: "Water color…",
            checked: false,
            grayed: false,
        },
        MenuItem::Command {
            id: CMD_MOUSE_RIPPLES,
            label: "Mouse ripples",
            checked: mouse_ripples,
            grayed: false,
        },
        MenuItem::Command {
            id: CMD_AUTOSTART,
            label: "Start with Windows",
            checked: autostart,
            grayed: false,
        },
        MenuItem::Separator,
        MenuItem::Command {
            id: CMD_OPEN_CONFIG,
            label: "Open settings file",
            checked: false,
            grayed: false,
        },
        MenuItem::Command { id: CMD_ABOUT, label: "About Floaty", checked: false, grayed: false },
        MenuItem::Separator,
        MenuItem::Command { id: CMD_EXIT, label: "Exit", checked: false, grayed: false },
    ]
}

/// Builds the menu of the tray icon.
pub fn main_menu(paused: bool, mouse_ripples: bool, autostart: bool) -> (r: Vec<MenuItem>)
    ensures
        r@ == main_menu_spec(paused, mouse_ripples, autostart),
{
    let pause: &'static str = if paused {
        "Resume"
    } else {
        "Pause"
    };
    let items = vec![
        MenuItem::Command { id: CMD_PAUSE, label: pause, checked: false, grayed: false },
        MenuItem::Characters { label: "Character" },
        MenuItem::Command {
            id: CMD_WATER_COLOR,
            label: "Water color…",
            checked: false,
            grayed: false,
        },
        MenuItem::Command {
            id: CMD_MOUSE_RIPPLES,
            label: "Mouse ripples",
            checked: mouse_ripples,
            grayed: false,
        },
        MenuItem::Command {
            id: CMD_AUTOSTART,
            label: "Start with Windows",
            checked: autostart,
            grayed: false,
        },
        MenuItem::Separator,
        MenuItem::Command {
            id: CMD_OPEN_CONFIG,
            label: "Open settings file",
            checked: false,
            grayed: false,
        },
        MenuItem::Command { id: CMD_ABOUT, label: "About Floaty", checked: false, grayed: false },
        MenuItem::Separator,
        MenuItem::Command { id: CMD_EXIT, label: "Exit", checked: false, grayed: false },
    ];
    assert(items@ =~= main_menu_spec(paused, mouse_ripples, autostart));
    items
}

/// The command behind a menu id; none for an id that no menu has.
pub open spec fn command_of(id: u32) -> Option<Command> {
    if id == CMD_PAUSE {
        Some(Command::TogglePause)
    } else if id == CMD_MOUSE_RIPPLES {
        Some(Command::ToggleMouseRipples)
    } else if id == CMD_AUTOSTART {
        Some(Command::ToggleAutostart)
    } else if id == CMD_WATER_COLOR {
        Some(Command::WaterColor)
    } else if id == CMD_OPEN_CONFIG {
        Some(Command::OpenConfig)
    } else if id == CMD_ABOUT {
        Some(Command::About)
    } else if id == CMD_EXIT {
        Some(Command::Exit)
    } else if id == CMD_CHARACTER_IMPORT {
        Some(Command::ImportImage)
    } else if id == CMD_CHARACTER_ROTATE {
        Some(Command::SelectCharacter("rotate"@))
    } else if id == CMD_CHARACTER_CUSTOM {
        Some(Command::SelectCharacter("custom"@))
    } else if CMD_CHARACTER_BASE <= id < CMD_CHARACTER_BASE + assets::roster_spec().len() {
        Some(Command::SelectCharacter(assets::roster_spec()[id - CMD_CHARACTER_BASE].id@))
    } else {
        None
    }
}

/// Translates a picked menu id.
pub fn command_for(id: u32) -> (r: Option<TrayCommand>)
    ensures
        match r {
            Some(c) => command_of(id) == Some(c@),
            None => command_of(id) is None,
        },
{
    if id == CMD_PAUSE {
        return Some(TrayCommand::TogglePause);
    }
    if id == CMD_MOUSE_RIPPLES {
        return Some(TrayCommand::ToggleMouseRipples);
    }
    if id == CMD_AUTOSTART {
        return Some(TrayCommand::ToggleAutostart);
    }
    if id == CMD_WATER_COLOR {
        return Some(TrayCommand::WaterColor);
    }
    if id == CMD_OPEN_CONFIG {
        return Some(TrayCommand::OpenConfig);
    }
    if id == CMD_ABOUT {
        return Some(TrayCommand::About);
    }
    if id == CMD_EXIT {
        return Some(TrayCommand::Exit);
    }
    if id == CMD_CHARACTER_IMPORT {
        return Some(TrayCommand::ImportImage);
    }
    if id == CMD_CHARACTER_ROTATE {
        return Some(TrayCommand::SelectCharacter("rotate".to_owned()));
    }
    if id == CMD_CHARACTER_CUSTOM {
        return Some(TrayCommand::SelectCharacter("custom".to_owned()));
    }
    if id < CMD_CHARACTER_BASE {
        return None;
    }
    let all = assets::roster();
    let i: usize = (id - CMD_CHARACTER_BASE) as usize;
    if i < all.len() {
        Some(TrayCommand::SelectCharacter(all[i].id.to_owned()))
    } else {
        None
    }
}

/// What the program does about a notification of the tray icon.
#[derive(Debug, Clone, Copy, PartialEq, Eq, Structural)]
pub enum TrayReaction {
    ShowMenu,
    /// Do what the pause entry of the menu does.
    TogglePause,
    Ignore,
}

/// What a notification of the tray icon asks for.
pub open spec fn reaction_to(event: u32) -> TrayReaction {
    if event == WM_RBUTTONUP || event == WM_CONTEXTMENU {
        TrayReaction::ShowMenu
    } else if event == WM_LBUTTONDBLCLK {
        TrayReaction::TogglePause
    } else {
        TrayReaction::Ignore
    }
}

/// A right click or the menu key opens the menu, a double click pauses.
pub fn on_tray(event: u32) -> (r: TrayReaction)
    ensures
        r == reaction_to(event),
{
    if event == WM_RBUTTONUP || event == WM_CONTEXTMENU {
        TrayReaction::ShowMenu
    } else if event == WM_LBUTTONDBLCLK {
        TrayReaction::TogglePause
    } else {
        TrayReaction::Ignore
    }
}

/// What to do after an attempt to add the icon.
#[derive(Debug, Clone, Copy, PartialEq, Eq, Structural)]
pub enum AddStep {
    /// The icon is there.
    Added,
    /// Wait this many milliseconds and try again.
    Retry { wait: u32 },
    /// Leave it to the next time the taskbar is created.
    GiveUp,
}

/// What follows an attempt to add the icon.
pub open spec fn step_after(attempt: u32, added: bool) -> AddStep {
    if added {
        AddStep::Added
    } else if attempt < 4 {
        AddStep::Retry { wait: 400 }
    } else {
        AddStep::GiveUp
    }
}

/// The shell may still be starting up and refuse the icon, so adding it is
/// tried five times. `attempt` counts from 0.
pub fn after_attempt(attempt: u32, added: bool) -> (r: AddStep)
    ensures
        r == step_after(attempt, added),
{
    if added {
        AddStep::Added
    } else if attempt < 4 {
        AddStep::Retry { wait: 400 }
    } else {
        AddStep::GiveUp
    }
}

// ---- laws -----------------------------------------------------------------

/// The id of an entry that gives a command.
pub open spec fn item_id(item: MenuItem) -> Option<u32> {
    match item {
        MenuItem::Command { id, .. } => Some(id),
        _ => None,
    }
}

/// Everything that can be picked from either menu is a command.
pub proof fn law_every_entry_works(
    paused: bool,
    mouse_ripples: bool,
    autostart: bool,
    character: Seq<char>,
    custom_available: bool,
    i: int,
)
    ensures
        0 <= i < main_menu_spec(paused, mouse_ripples, autostart).len() ==> (item_id(
            main_menu_spec(paused, mouse_ripples, autostart)[i],
        ) matches Some(id) ==> command_of(id) is Some),
        0 <= i < character_menu_spec(character, custom_available).len() ==> (item_id(
            character_menu_spec(character, custom_available)[i],
        ) matches Some(id) ==> command_of(id) is Some),
{
}

/// No two entries of the two menus share an id.
pub proof fn law_ids_are_distinct(
    paused: bool,
    mouse_ripples: bool,
    autostart: bool,
    character: Seq<char>,
    custom_available: bool,
    i: int,
    j: int,
)
    requires
        0 <= i < j < (main_menu_spec(paused, mouse_ripples, autostart) + character_menu_spec(
            character,
            custom_available,
        )).len(),
    ensures
        ({
            let all = main_menu_spec(paused, mouse_ripples, autostart) + character_menu_spec(
                character,
                custom_available,
            );
            item_id(all[i]) is Some ==> item_id(all[i]) != item_id(all[j])
        }),
{
}

/// Picking a built-in character from the menu selects that character.
pub proof fn law_character_entry_selects_it(character: Seq<char>, custom_available: bool, i: int)
    requires
        0 <= i < assets::roster_spec().len(),
    ensures
        command_of(item_id(character_menu_spec(character, custom_available)[i])->0) == Some(
            Command::SelectCharacter(assets::roster_spec()[i].id@),
        ),
{
}

/// An entry of the menu of characters is checked exactly if picking it would
/// select the character that is current already, the random and the custom
/// one included.
pub proof fn law_checked_entry_is_the_current_one(
    character: Seq<char>,
    custom_available: bool,
    i: int,
)
    requires
        0 <= i < character_menu_spec(character, custom_available).len(),
    ensures
        character_menu_spec(character, custom_available)[i] matches MenuItem::Command {
            id,
            checked,
            ..
        } ==> (checked <==> command_of(id) == Some(Command::SelectCharacter(character))),
{
    let item = character_menu_spec(character, custom_available)[i];
    if i < assets::roster_spec().len() {
        assert(item == character_item(character, i));
    }
}

/// Only the custom character can be out of reach, and it is exactly as long
/// as there is no custom sprite.
pub proof fn law_grayed_entry_is_the_custom_one(
    character: Seq<char>,
    custom_available: bool,
    i: int,
)
    requires
        0 <= i < character_menu_spec(character, custom_available).len(),
    ensures
        character_menu_spec(character, custom_available)[i] matches MenuItem::Command {
            id,
            grayed,
            ..
        } ==> (grayed <==> !custom_available && command_of(id) == Some(
            Command::SelectCharacter("custom"@),
        )),
{
    let item = character_menu_spec(character, custom_available)[i];
    if i < assets::roster_spec().len() {
        assert(item == character_item(character, i));
    }
    let k = if i < assets::roster_spec().len() {
        i
    } else {
        0
    };
    assets::law_ids_are_apart(k, k);
}

/// Which characters there are to pick does not depend on the current one:
/// the menu has the same entries for all, each under its character's name.
pub proof fn law_menu_of_characters_stays(
    a: Seq<char>,
    b: Seq<char>,
    custom_available: bool,
    i: int,
)
    requires
        0 <= i < character_menu_spec(a, custom_available).len(),
    ensures
        character_menu_spec(a, custom_available).len() == character_menu_spec(
            b,
            custom_available,
        ).len(),
        item_id(character_menu_spec(a, custom_available)[i]) == item_id(
            character_menu_spec(b, custom_available)[i],
        ),
        item_label(character_menu_spec(a, custom_available)[i]) == item_label(
            character_menu_spec(b, custom_available)[i],
        ),
        i < assets::roster_spec().len() ==> item_label(character_menu_spec(a, custom_available)[i])
            == assets::roster_spec()[i].name@,
{
    if i < assets::roster_spec().len() {
        assert(character_menu_spec(a, custom_available)[i] == character_item(a, i));
        assert(character_menu_spec(b, custom_available)[i] == character_item(b, i));
    }
}

/// What an entry says.
pub open spec fn item_label(item: MenuItem) -> Seq<char> {
    match item {
        MenuItem::Command { label, .. } => label@,
        MenuItem::Characters { label } => label@,
        MenuItem::Separator => Seq::empty(),
    }
}

/// The menu of the icon always has the same entries, none of them out of
/// reach. The two switches show whether they are on, each by itself, nothing
/// else is ever checked, and pausing only changes what its own entry says.
pub proof fn law_main_menu_shows_the_switches(
    paused: bool,
    mouse_ripples: bool,
    autostart: bool,
    i: int,
)
    requires
        0 <= i < main_menu_spec(paused, mouse_ripples, autostart).len(),
    ensures
        main_menu_spec(paused, mouse_ripples, autostart).len() == main_menu_spec(
            false,
            false,
            false,
        ).len(),
        item_id(main_menu_spec(paused, mouse_ripples, autostart)[i]) == item_id(
            main_menu_spec(false, false, false)[i],
        ),
        main_menu_spec(paused, mouse_ripples, autostart)[i] matches MenuItem::Command {
            id,
            checked,
            grayed,
            label,
        } ==> {
            &&& !grayed
            &&& checked <==> (command_of(id) == Some(Command::ToggleMouseRipples) && mouse_ripples)
                || (command_of(id) == Some(Command::ToggleAutostart) && autostart)
            &&& command_of(id) != Some(Command::TogglePause) ==> label@ == item_label(
                main_menu_spec(false, false, false)[i],
            )
            &&& command_of(id) == Some(Command::TogglePause) ==> label@ == (if paused {
                "Resume"@
            } else {
                "Pause"@
            })
        },
{
}

/// Every command can be picked from a menu: an id means something only if an
/// entry has it.
pub proof fn law_only_entries_are_commands(id: u32)
    requires
        command_of(id) is Some,
    ensures
        exists|i: int|
            0 <= i < (main_menu_spec(false, false, false) + character_menu_spec(
                Seq::empty(),
                true,
            )).len() && item_id(
                #[trigger] (main_menu_spec(false, false, false) + character_menu_spec(
                    Seq::empty(),
                    true,
                ))[i],
            ) == Some(id),
{
    let (main, more) = (main_menu_spec(false, false, false), character_menu_spec(Seq::empty(), true));
    let all = main + more;
    if item_id(all[0]) == Some(id) || item_id(all[2]) == Some(id) || item_id(all[3]) == Some(id)
        || item_id(all[4]) == Some(id) || item_id(all[6]) == Some(id) || item_id(all[7]) == Some(id)
        || item_id(all[9]) == Some(id) {
    } else if id >= CMD_CHARACTER_BASE && id < CMD_CHARACTER_BASE + assets::roster_spec().len() {
        let i = id - CMD_CHARACTER_BASE;
        assert(more[i] == character_item(Seq::empty(), i));
        assert(item_id(all[10 + i]) == Some(id));
    } else {
        assert(item_id(all[15]) == Some(id) || item_id(all[17]) == Some(id) || item_id(all[18])
            == Some(id));
    }
}

/// No two ids mean the same.
pub proof fn law_commands_are_distinct(a: u32, b: u32)
    requires
        command_of(a) is Some,
        command_of(a) == command_of(b),
    ensures
        a == b,
{
    let base = CMD_CHARACTER_BASE;
    let n = assets::roster_spec().len();
    assets::law_ids_are_apart(0, 0);
    if base <= a < base + n {
        assets::law_ids_are_apart(a - base, a - base);
    }
    if base <= b < base + n {
        assets::law_ids_are_apart(b - base, b - base);
        if base <= a < base + n {
            assets::law_ids_are_apart(a - base, b - base);
        }
    }
}

/// Three notifications of the icon mean something: a right click and the menu
/// key the same, a double click something else.
pub proof fn law_icon_notifications(event: u32)
    ensures
        reaction_to(event) is ShowMenu <==> event == 0x0205 || event == 0x007b,
        reaction_to(event) is TogglePause <==> event == 0x0203,
{
}

/// Adding the icon ends once it is there. It is tried five times in all, with
/// a pause before each new try.
pub proof fn law_five_attempts(attempt: u32)
    ensures
        step_after(attempt, true) is Added,
        attempt < 4 ==> step_after(attempt, false) == (AddStep::Retry { wait: 400 }),
        attempt >= 4 ==> step_after(attempt, false) is GiveUp,
{
}

} // verus!
