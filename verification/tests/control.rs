use floaty::assets::{Art, AssetError};
use floaty::color::Rgb;
use floaty::colorpicker::{Preview, WM_WATER_CANCEL, WM_WATER_COMMIT, WM_WATER_PREVIEW};
use floaty::config::{Config, CustomSprite};
use floaty::control::{
    character_seed, cursor_moved, frame_nanos, is_active, mouse_stirs, random_roster_id, rng_seed,
    sheet_path, starting_atlas, App, Effect, FrameStep, Reaction,
};
use floaty::png_file::PngFault;
use floaty::single::Single;
use floaty::store::{ConfigStore, FileRead};
use floaty::tray::{command_for, TrayCommand};

const SECOND: u64 = 1_000_000_000;

fn s(v: f32) -> Single {
    Single { bits: v.to_bits() }
}

fn app_at(now: u64) -> App {
    let store = ConfigStore::load("c.toml".to_string(), FileRead::Missing).0;
    App::new(store, 0xc123, now, 99, "boat".to_string())
}

fn app() -> App {
    app_at(20 * SECOND)
}

fn sprite() -> CustomSprite {
    CustomSprite {
        path: "dir/cat.png".to_string(),
        frame_width: 1,
        frame_height: 1,
        fps: s(1.0),
        mode: "floater".to_string(),
        facing: "right".to_string(),
    }
}

#[test]
fn pausing_is_not_saved() {
    let mut a = app();
    assert!(a.is_showing());
    assert_eq!(a.on_command(TrayCommand::TogglePause), [Effect::SyncOverlays]);
    assert!(!a.store.current.enabled && !a.is_showing());
    assert_eq!(a.on_command(TrayCommand::TogglePause), [Effect::SyncOverlays]);
    assert!(a.store.current.same(&Config::default()));
}

#[test]
fn a_pause_never_reaches_the_file() {
    let mut a = app();
    a.on_command(TrayCommand::TogglePause);
    assert_eq!(a.on_command(TrayCommand::ToggleMouseRipples), [Effect::Save]);
    assert!(!a.store.current.enabled);
    let written = a.store.to_write();
    assert!(written.enabled && !written.mouse_ripples);
    a.on_command(TrayCommand::SelectCharacter("boat".to_string()));
    a.apply_import(sprite());
    a.set_preview("#010203".to_string(), "#040506".to_string());
    assert_eq!(a.on_message(WM_WATER_COMMIT, 0, 0), Reaction::Save);
    let written = a.store.to_write();
    assert!(written.enabled);
    assert_eq!(written.character, "custom");
    assert_eq!(written.water_deep, "#040506");
}

#[test]
fn switches_are_saved() {
    let mut a = app();
    assert_eq!(a.on_command(TrayCommand::ToggleMouseRipples), [Effect::Save]);
    assert!(!a.store.current.mouse_ripples);
    let effects = a.on_command(TrayCommand::ToggleAutostart);
    assert_eq!(effects, [Effect::SyncAutostart { want: true }, Effect::Save]);
    assert!(a.store.current.autostart);
    let effects = a.on_command(TrayCommand::ToggleAutostart);
    assert_eq!(effects, [Effect::SyncAutostart { want: false }, Effect::Save]);
    a.on_command(TrayCommand::ToggleMouseRipples);
    assert!(a.store.current.same(&Config::default()));
}

#[test]
fn selecting_a_character_saves_and_applies_it() {
    let mut a = app();
    let effects = a.on_command(TrayCommand::SelectCharacter("fish".to_string()));
    assert_eq!(effects, [Effect::Save, Effect::ApplyConfigChange]);
    assert_eq!(a.store.current.character, "fish");
}

#[test]
fn there_is_one_picker_at_a_time() {
    let mut a = app();
    assert_eq!(a.on_command(TrayCommand::WaterColor), [Effect::OpenPicker]);
    a.picker_opened(77);
    assert_eq!(a.on_command(TrayCommand::WaterColor), [Effect::FocusPicker { hwnd: 77 }]);
    assert_eq!(a.on_message(WM_WATER_CANCEL, 0, 0), Reaction::Done);
    assert_eq!(a.on_command(TrayCommand::WaterColor), [Effect::OpenPicker]);
}

#[test]
fn other_commands_leave_the_state_alone() {
    let mut a = app();
    assert_eq!(a.on_command(TrayCommand::ImportImage), [Effect::PickImage]);
    assert_eq!(a.on_command(TrayCommand::OpenConfig), [Effect::OpenSettings]);
    assert_eq!(a.on_command(TrayCommand::About), [Effect::ShowAbout]);
    assert_eq!(a.on_command(TrayCommand::Exit), [Effect::Quit]);
    assert!(a.store.current.same(&Config::default()));
}

#[test]
fn an_import_becomes_the_character() {
    let mut a = app();
    assert_eq!(a.apply_import(sprite()), [Effect::Save, Effect::ApplyConfigChange]);
    assert_eq!(a.store.current.character, "custom");
    assert_eq!(sheet_path(&a.store.current).unwrap(), "dir/cat.png");
    a.store.current.character = "duck".to_string();
    assert!(sheet_path(&a.store.current).is_none());
    a.store.current.character = "custom".to_string();
    a.store.current.custom_sprite = None;
    assert!(sheet_path(&a.store.current).is_none());
}

#[test]
fn tray_events_are_passed_on() {
    assert_eq!(app().on_message(0x8001, 0, 0x205), Reaction::Tray { event: 0x205 });
}

#[test]
fn previews_are_unpacked() {
    let reaction = app().on_message(WM_WATER_PREVIEW, 1 + 2 * 850 + 65536 * 550, 2040);
    let preview = Preview { stock: true, hue: 2040, saturation: 850, lightness: 550 };
    assert_eq!(reaction, Reaction::Recolor { preview });
}

#[test]
fn previews_recolor_the_settings_or_the_stock_palette() {
    let mut a = app();
    a.store.current.water_shallow = "#111111".to_string();
    a.store.current.water_deep = "#222222".to_string();
    assert_eq!(a.preview_base(false), ("#111111".to_string(), "#222222".to_string()));
    assert_eq!(a.preview_base(true), ("#3f9de0".to_string(), "#123f78".to_string()));
}

#[test]
fn kept_previews_are_saved() {
    let mut a = app();
    a.picker_opened(5);
    a.set_preview("#010203".to_string(), "#040506".to_string());
    let shown = (Some(Rgb { r: 1, g: 2, b: 3 }), Some(Rgb { r: 4, g: 5, b: 6 }));
    assert_eq!(a.water_colors(), shown);
    assert_eq!(a.store.current.water_shallow, "#3f9de0");
    assert_eq!(a.on_message(WM_WATER_COMMIT, 0, 0), Reaction::Save);
    assert_eq!(a.store.current.water_shallow, "#010203");
    assert_eq!(a.store.current.water_deep, "#040506");
    assert_eq!(a.water_colors(), shown);
    assert!(a.picker.is_none() && a.water_preview.is_none());
}

#[test]
fn discarded_previews_leave_no_trace() {
    let mut a = app();
    a.picker_opened(5);
    a.set_preview("#010203".to_string(), "bad".to_string());
    assert_eq!(a.water_colors(), (Some(Rgb { r: 1, g: 2, b: 3 }), None));
    assert_eq!(a.on_message(WM_WATER_CANCEL, 0, 0), Reaction::Done);
    assert!(a.picker.is_none() && a.water_preview.is_none());
    assert!(a.store.current.same(&Config::default()));
    assert_eq!(a.water_colors().0, Some(Rgb { r: 0x3f, g: 0x9d, b: 0xe0 }));
}

#[test]
fn without_a_preview_there_is_nothing_to_keep() {
    let mut a = app();
    a.picker_opened(5);
    assert_eq!(a.on_message(WM_WATER_COMMIT, 0, 0), Reaction::Done);
    assert!(a.picker.is_none());
    assert!(a.store.current.same(&Config::default()));
}

#[test]
fn changes_of_the_display_ask_for_a_refresh() {
    for msg in [0x7e, 0x1a, 0x2e0] {
        let mut a = app();
        a.need_refresh = false;
        assert_eq!(a.on_message(msg, 0, 0), Reaction::Default);
        assert!(a.need_refresh);
    }
    let mut a = app();
    a.need_refresh = false;
    assert_eq!(a.on_message(0x0f, 0, 0), Reaction::Default);
    assert!(!a.need_refresh);
}

#[test]
fn a_new_taskbar_restores_everything() {
    let mut a = app();
    a.need_refresh = false;
    assert_eq!(a.on_message(0xc123, 0, 0), Reaction::Restore);
    assert!(a.need_refresh);
    let mut a = app();
    a.taskbar_created_msg = 0;
    assert_eq!(a.on_message(0, 0, 0), Reaction::Default);
}

#[test]
fn the_message_to_quit_is_not_dispatched() {
    let mut a = app();
    assert!(a.dequeue(0x0f));
    assert!(!a.quitting);
    assert!(!a.dequeue(0x12));
    assert!(a.quitting);
    assert!(a.dequeue(0x0f));
    assert!(a.quitting);
}

#[test]
fn housekeeping_is_due_once_a_second() {
    let mut a = app();
    assert!(a.begin_slow_poll(20 * SECOND));
    assert!(!a.begin_slow_poll(20 * SECOND));
    assert!(!a.begin_slow_poll(21 * SECOND - 1));
    assert!(a.begin_slow_poll(21 * SECOND));
    assert!(!a.begin_slow_poll(21 * SECOND + 5));
    a.need_refresh = true;
    assert!(a.begin_slow_poll(21 * SECOND + 5));
    assert!(!a.need_refresh);
    assert!(!a.begin_slow_poll(3));
}

#[test]
fn frames_come_when_they_are_due() {
    let mut a = app();
    let draw = FrameStep::Draw { elapsed: 0 };
    assert_eq!(a.begin_frame(20 * SECOND, 1), draw);
    a.end_frame(20 * SECOND, true);
    assert_eq!(a.next_frame, 20_016_666_667);
    assert_eq!(a.wait(20 * SECOND), 16);
    assert_eq!(a.begin_frame(20_016_666_666, 1), FrameStep::Wait);
    let draw = FrameStep::Draw { elapsed: 16_666_667 };
    assert_eq!(a.begin_frame(20_016_666_667, 1), draw);
    a.end_frame(20_016_666_667, false);
    assert_eq!(a.next_frame, 20_050_000_000);
}

#[test]
fn there_may_be_nothing_to_draw() {
    let mut a = app();
    assert_eq!(a.begin_frame(20 * SECOND, 0), FrameStep::Rest);
    assert_eq!(a.wait(20 * SECOND), 300);
    assert_eq!(a.begin_frame(20 * SECOND + 1, 1), FrameStep::Wait);
    let mut a = app();
    a.on_command(TrayCommand::TogglePause);
    assert_eq!(a.begin_frame(20 * SECOND, 1), FrameStep::Rest);
    let mut a = app();
    assert!(a.set_user_state(Some(3)));
    assert_eq!(a.begin_frame(20 * SECOND, 1), FrameStep::Rest);
}

#[test]
fn the_wait_is_at_most_half_a_second() {
    let mut a = app();
    a.next_frame = 30 * SECOND as i128;
    assert_eq!(a.wait(20 * SECOND), 500);
    assert_eq!(a.wait(29_500_000_001), 499);
    assert_eq!(a.wait(29_999_000_001), 0);
    assert_eq!(a.wait(31 * SECOND), 0);
}

#[test]
fn frames_share_a_second() {
    for fps in 1..=240u32 {
        let expected = std::time::Duration::from_secs_f64(1.0 / fps as f64).as_nanos();
        assert_eq!(frame_nanos(fps) as u128, expected);
    }
}

#[test]
fn fullscreen_programs_suspend_the_overlays() {
    let mut a = app();
    assert!(!a.set_user_state(Some(5)));
    assert!(!a.set_user_state(Some(6)));
    assert!(!a.set_user_state(None));
    for state in [1, 2, 3, 4, 7] {
        assert!(a.set_user_state(Some(state)));
        assert!(!a.is_showing());
        assert!(!a.set_user_state(Some(state)));
        assert!(a.set_user_state(None));
        assert!(a.is_showing());
    }
}

#[test]
fn rotation_always_changes_the_character() {
    let mut a = app();
    assert!(!a.is_rotate_due(20 * SECOND));
    a.store.current.character = "rotate".to_string();
    assert!(a.is_rotate_due(20 * SECOND));
    for _ in 0..200 {
        let was = a.rotate_id.clone();
        assert!(a.rotate(20 * SECOND, 300 * SECOND));
        assert!(a.rotate_id != was);
    }
    assert!(!a.is_rotate_due(320 * SECOND - 1));
    assert!(a.is_rotate_due(320 * SECOND));
}

#[test]
fn random_picks_follow_the_recurrence() {
    let ids = ["duck", "capybara", "fish", "coconut", "boat"];
    let mut rng = rng_seed(Some(123456788));
    assert_eq!(rng, 123456789);
    let mut state = rng;
    for _ in 0..500 {
        let except = ids[(state % 5) as usize];
        let expected = loop {
            state ^= state << 13;
            state ^= state >> 7;
            state ^= state << 17;
            let pick = ids[(state >> 33) as usize % 5];
            if pick != except {
                break pick;
            }
        };
        assert_eq!(random_roster_id(&mut rng, except), Some(expected));
        assert_eq!(rng, state);
    }
    assert_eq!(rng_seed(None), 0x9e3779b97f4a7c15);
}

#[test]
fn picking_goes_on_until_the_character_changes() {
    let mut rng = 1u64;
    let mut states = Vec::new();
    let mut state = rng;
    for _ in 0..200 {
        state ^= state << 13;
        state ^= state >> 7;
        state ^= state << 17;
        states.push(state);
    }
    let ids = ["duck", "capybara", "fish", "coconut", "boat"];
    let picks: Vec<_> = states.iter().map(|s| ids[(s >> 33) as usize % 5]).collect();
    let n = picks.iter().position(|p| *p != picks[0]).unwrap();
    assert_eq!(random_roster_id(&mut rng, picks[0]), Some(picks[n]));
    assert_eq!(rng, states[n]);
    // Where the same character comes twice before another one does.
    let twice = (0..198).find(|&i| picks[i] == picks[i + 1] && picks[i + 1] != picks[i + 2]).unwrap();
    let mut rng = if twice == 0 { 1 } else { states[twice - 1] };
    assert_eq!(random_roster_id(&mut rng, picks[twice]), Some(picks[twice + 2]));
    assert_eq!(rng, states[twice + 2]);
}

#[test]
fn the_first_pick_is_taken_when_nothing_is_excepted() {
    for seed in [0, 1, 2, 99, u64::MAX] {
        let mut rng = seed;
        assert!(random_roster_id(&mut rng, "").is_some());
        let mut state = seed;
        state ^= state << 13;
        state ^= state >> 7;
        state ^= state << 17;
        assert_eq!(rng, state);
    }
}

#[test]
fn only_a_character_that_never_changes_is_kept() {
    // From zero every pick is the duck.
    let mut rng = 0;
    assert_eq!(random_roster_id(&mut rng, "duck"), None);
    assert_eq!(random_roster_id(&mut rng, "fish"), Some("duck"));
    assert_eq!(rng, 0);
    let mut a = app();
    a.rng = 0;
    a.rotate_id = "duck".to_string();
    assert!(!a.rotate(0, 0));
    assert_eq!(a.rotate_id, "duck");
    assert_eq!(a.next_rotate, 20 * SECOND as i128);
}

#[test]
fn characters_get_their_own_seed() {
    assert_eq!(character_seed(0x1234, 0x00ff), 0x12cb);
    assert_eq!(character_seed(-1, 0), u64::MAX);
}

#[test]
fn the_cursor_moves_by_a_square() {
    assert_eq!(cursor_moved((0, 0), (3, -4)), Some(25));
    assert_eq!(cursor_moved((10, 10), (10, 10)), Some(0));
    assert_eq!(cursor_moved((0, 0), (46340, 0)), Some(46340 * 46340));
    assert_eq!(cursor_moved((0, 0), (46341, 0)), None);
    assert_eq!(cursor_moved((0, 0), (46340, 46340)), None);
    assert_eq!(cursor_moved((i32::MIN, 0), (i32::MAX, 0)), None);
    assert_eq!(cursor_moved((i32::MAX, 0), (i32::MAX, 2)), Some(4));
}

#[test]
fn the_mouse_stirs_where_it_crosses_the_bar() {
    let (w, h) = (s(1920.0), s(48.0));
    assert!(mouse_stirs(true, s(5.0), s(0.0), s(0.0), w, h));
    assert!(mouse_stirs(true, s(5.0), s(1919.0), s(47.0), w, h));
    assert!(!mouse_stirs(false, s(5.0), s(0.0), s(0.0), w, h));
    assert!(!mouse_stirs(true, s(4.0), s(0.0), s(0.0), w, h));
    assert!(!mouse_stirs(true, s(5.0), s(-1.0), s(0.0), w, h));
    assert!(!mouse_stirs(true, s(5.0), s(1920.0), s(0.0), w, h));
    assert!(!mouse_stirs(true, s(5.0), s(0.0), s(-1.0), w, h));
    assert!(!mouse_stirs(true, s(5.0), s(0.0), s(48.0), w, h));
}

#[test]
fn scenes_are_active_while_anything_moves() {
    assert!(is_active(true, true));
    assert!(is_active(false, false));
    assert!(!is_active(false, true));
}

fn pixel(red: u8) -> Vec<u8> {
    let mut file = Vec::new();
    let mut encoder = png::Encoder::new(&mut file, 1, 1);
    encoder.set_color(png::ColorType::Rgba);
    encoder.set_depth(png::BitDepth::Eight);
    let mut writer = encoder.write_header().unwrap();
    writer.write_image_data(&[red, 0, 0, 255]).unwrap();
    drop(writer);
    file
}

/// Art in which only the duck, the boat and the first capybara are drawn.
fn art<'a>(duck: &'a [u8], boat: &'a [u8]) -> Art<'a> {
    Art {
        duck_float_1: duck,
        duck_float_2: duck,
        capy_1: duck,
        capy_2: b"",
        capy_3: b"",
        capy_4: b"",
        coconut_1: b"",
        fish_1: b"",
        fish_2: b"",
        fish_3: b"",
        fish_4: b"",
        boat_1: boat,
        boat_2: boat,
        boat_3: boat,
        boat_4: boat,
    }
}

#[test]
fn a_faulty_character_is_replaced_by_the_duck() {
    let (duck, boat) = (pixel(10), pixel(20));
    let art = art(&duck, &boat);
    let frames = |character: &str, sheet: Option<&[u8]>| {
        let mut c = Config::default();
        c.character = character.to_string();
        c.custom_sprite = Some(sprite());
        starting_atlas(&c, "boat", &art, sheet).unwrap().ok().unwrap().frames.len()
    };
    assert_eq!(frames("boat", None), 4);
    assert_eq!(frames("rotate", None), 4);
    assert_eq!(frames("capybara", None), 9);
    assert_eq!(frames("fish", None), 9);
    assert_eq!(frames("dog", None), 9);
    assert_eq!(frames("custom", None), 9);
    assert_eq!(frames("custom", Some(b"")), 9);
    assert_eq!(frames("custom", Some(&boat)), 1);
}

#[test]
fn without_a_duck_there_is_no_start() {
    let built = starting_atlas(&Config::default(), "boat", &art(b"", b""), None).unwrap();
    assert_eq!(built.err(), Some(AssetError::Png(PngFault::Header)));
}

#[test]
fn rebuilding_goes_by_the_character_on_show() {
    let (duck, boat) = (pixel(10), pixel(20));
    let art = art(&duck, &boat);
    let mut a = app();
    assert_eq!(a.rebuild(&art, None).unwrap().ok().unwrap().frames.len(), 9);
    a.store.current.character = "rotate".to_string();
    assert_eq!(a.rebuild(&art, None).unwrap().ok().unwrap().frames.len(), 4);
    a.store.current.character = "dog".to_string();
    assert_eq!(a.rebuild(&art, None).unwrap().err(), Some(AssetError::UnknownCharacter));
}

#[test]
fn a_character_picked_from_the_menu_is_shown() {
    let files: [Vec<u8>; 5] = std::array::from_fn(|i| pixel(10 * (i as u8 + 1)));
    let [duck, capy, fish, coconut, boat] = &files;
    let art = Art {
        duck_float_1: duck,
        duck_float_2: duck,
        capy_1: capy,
        capy_2: capy,
        capy_3: capy,
        capy_4: capy,
        coconut_1: coconut,
        fish_1: fish,
        fish_2: fish,
        fish_3: fish,
        fish_4: fish,
        boat_1: boat,
        boat_2: boat,
        boat_3: boat,
        boat_4: boat,
    };
    for i in 0..5u32 {
        let mut a = app();
        a.on_command(command_for(100 + i).unwrap());
        let atlas = a.rebuild(&art, None).unwrap().ok().unwrap();
        let at = ((atlas.width + 1) * 4) as usize;
        assert_eq!(atlas.pixels[at] as u32, 10 * (i + 1));
    }
}
