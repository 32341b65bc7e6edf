use floaty::tray::{
    after_attempt, character_menu, command_for, main_menu, on_tray, AddStep, MenuItem, TrayCommand,
    TrayReaction,
};

fn labels(items: &[MenuItem]) -> Vec<&'static str> {
    items
        .iter()
        .map(|item| match item {
            MenuItem::Command { label, .. } | MenuItem::Characters { label } => *label,
            MenuItem::Separator => "-",
        })
        .collect()
}

fn commands(items: &[MenuItem]) -> Vec<(u32, bool, bool)> {
    items
        .iter()
        .filter_map(|item| match item {
            MenuItem::Command { id, checked, grayed, .. } => Some((*id, *checked, *grayed)),
            _ => None,
        })
        .collect()
}

#[test]
fn the_main_menu() {
    let items = main_menu(false, true, false);
    assert_eq!(
        labels(&items),
        [
            "Pause",
            "Character",
            "Water color…",
            "Mouse ripples",
            "Start with Windows",
            "-",
            "Open settings file",
            "About Floaty",
            "-",
            "Exit",
        ]
    );
    assert_eq!(
        commands(&items),
        [
            (1, false, false),
            (7, false, false),
            (2, true, false),
            (3, false, false),
            (4, false, false),
            (5, false, false),
            (6, false, false),
        ]
    );
    let items = main_menu(true, false, true);
    assert_eq!(labels(&items)[0], "Resume");
    assert_eq!(commands(&items)[2..4], [(2, false, false), (3, true, false)]);
}

#[test]
fn the_menu_of_characters() {
    let items = character_menu("fish", false);
    assert_eq!(
        labels(&items),
        [
            "Duck",
            "Capybara",
            "Clownfish",
            "Coconut",
            "Sailboat",
            "Surprise me (rotate)",
            "-",
            "Custom image",
            "Import image…",
        ]
    );
    assert_eq!(
        commands(&items),
        [
            (100, false, false),
            (101, false, false),
            (102, true, false),
            (103, false, false),
            (104, false, false),
            (198, false, false),
            (199, false, true),
            (197, false, false),
        ]
    );
    let items = character_menu("custom", true);
    assert_eq!(commands(&items)[6], (199, true, false));
    let items = character_menu("rotate", true);
    assert_eq!(commands(&items)[5], (198, true, false));
}

#[test]
fn every_entry_is_a_command_of_its_own() {
    let mut ids = Vec::new();
    let entries = [main_menu(true, true, true), character_menu("duck", true)].concat();
    for (id, _, _) in commands(&entries) {
        assert!(command_for(id).is_some());
        assert!(!ids.contains(&id));
        ids.push(id);
    }
    assert_eq!(ids.len(), 15);
}

#[test]
fn ids_stand_for_commands() {
    assert_eq!(command_for(1), Some(TrayCommand::TogglePause));
    assert_eq!(command_for(2), Some(TrayCommand::ToggleMouseRipples));
    assert_eq!(command_for(3), Some(TrayCommand::ToggleAutostart));
    assert_eq!(command_for(4), Some(TrayCommand::OpenConfig));
    assert_eq!(command_for(5), Some(TrayCommand::About));
    assert_eq!(command_for(6), Some(TrayCommand::Exit));
    assert_eq!(command_for(7), Some(TrayCommand::WaterColor));
    assert_eq!(command_for(197), Some(TrayCommand::ImportImage));
    let select = |id: &str| Some(TrayCommand::SelectCharacter(id.to_string()));
    assert_eq!(command_for(198), select("rotate"));
    assert_eq!(command_for(199), select("custom"));
    for (i, id) in ["duck", "capybara", "fish", "coconut", "boat"].into_iter().enumerate() {
        assert_eq!(command_for(100 + i as u32), select(id));
    }
    for id in [0, 8, 99, 105, 196, 200, u32::MAX] {
        assert_eq!(command_for(id), None);
    }
}

#[test]
fn clicks_on_the_icon() {
    assert_eq!(on_tray(0x205), TrayReaction::ShowMenu);
    assert_eq!(on_tray(0x7b), TrayReaction::ShowMenu);
    assert_eq!(on_tray(0x203), TrayReaction::TogglePause);
    assert_eq!(on_tray(0x201), TrayReaction::Ignore);
}

#[test]
fn adding_the_icon_is_tried_five_times() {
    let mut attempts = 0;
    let mut waited = 0;
    loop {
        let step = after_attempt(attempts, false);
        attempts += 1;
        match step {
            AddStep::Retry { wait } => waited += wait,
            AddStep::GiveUp => break,
            AddStep::Added => unreachable!(),
        }
    }
    assert_eq!((attempts, waited), (5, 1600));
    assert_eq!(after_attempt(2, true), AddStep::Added);
}
