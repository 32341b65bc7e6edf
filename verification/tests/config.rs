use floaty::config::{
    default_custom_facing, default_custom_fps, default_custom_mode, effective_config, header, Config,
    CustomSprite,
};
use floaty::single::Single;

fn s(v: f32) -> Single {
    Single { bits: v.to_bits() }
}

fn sprite() -> CustomSprite {
    CustomSprite {
        path: "pics/cat.png".to_string(),
        frame_width: 16,
        frame_height: 8,
        fps: s(4.0),
        mode: "swimmer".to_string(),
        facing: "left".to_string(),
    }
}

#[test]
fn a_fresh_install_shows_the_duck() {
    let c = Config::default();
    assert_eq!(c.character, "duck");
    assert_eq!(c.rotate_minutes, s(5.0));
    assert_eq!(c.scale, s(0.8));
    assert_eq!(c.speed, s(1.0));
    assert_eq!(c.water_opacity, s(0.42));
    assert_eq!(c.water_shallow, "#3f9de0");
    assert_eq!(c.water_deep, "#123f78");
    assert_eq!(c.wave_intensity, s(1.0));
    assert!(c.mouse_ripples && c.all_monitors && c.enabled && !c.autostart);
    assert_eq!((c.active_fps, c.idle_fps), (60, 30));
    assert!(c.custom_sprite.is_none());
}

#[test]
fn settings_are_brought_into_range() {
    let mut c = Config::default();
    c.scale = s(9.0);
    c.rotate_minutes = s(0.0);
    c.speed = s(-1.0);
    c.water_opacity = s(1.5);
    c.wave_intensity = s(2.5);
    c.active_fps = 1000;
    c.idle_fps = 1000;
    let c = c.clamped();
    assert_eq!(c.scale, s(1.5));
    assert_eq!(c.rotate_minutes, s(0.2));
    assert_eq!(c.speed, s(0.1));
    assert_eq!(c.water_opacity, s(1.0));
    assert_eq!(c.wave_intensity, s(2.0));
    assert_eq!((c.active_fps, c.idle_fps), (240, 240));

    let mut c = Config::default();
    c.scale = s(0.0);
    c.rotate_minutes = s(1e9);
    c.speed = s(40.0);
    c.water_opacity = s(-0.5);
    c.wave_intensity = s(-0.5);
    c.active_fps = 3;
    c.idle_fps = 0;
    let c = c.clamped();
    assert_eq!(c.scale, s(0.2));
    assert_eq!(c.rotate_minutes, s(720.0));
    assert_eq!(c.speed, s(4.0));
    assert_eq!(c.water_opacity, s(0.0));
    assert_eq!(c.wave_intensity, s(0.0));
    assert_eq!((c.active_fps, c.idle_fps), (10, 1));
}

#[test]
fn the_idle_rate_never_exceeds_the_active_one() {
    let mut c = Config::default();
    c.active_fps = 20;
    c.idle_fps = 30;
    let c = c.clamped();
    assert_eq!((c.active_fps, c.idle_fps), (20, 20));
}

#[test]
fn a_setting_that_is_no_number_stays_one() {
    let mut c = Config::default();
    c.scale = s(f32::NAN);
    let c = c.clamped();
    assert!(c.scale.is_nan());
    assert!(!c.same(&c.duplicate()));
}

#[test]
fn bringing_into_range_twice_changes_nothing_more() {
    let mut c = Config::default();
    c.scale = s(9.0);
    c.idle_fps = 999;
    let once = c.clamped();
    let again = once.duplicate().clamped();
    assert!(once.same(&again));
    assert!(Config::default().same(&Config::default().clamped()));
}

#[test]
fn sameness_looks_at_every_setting() {
    let base = || {
        let mut c = Config::default();
        c.custom_sprite = Some(sprite());
        c
    };
    assert!(base().same(&base()));
    let changes: [fn(&mut Config); 19] = [
        |c| c.character = "fish".to_string(),
        |c| c.rotate_minutes = s(6.0),
        |c| c.scale = s(0.7),
        |c| c.speed = s(2.0),
        |c| c.water_opacity = s(0.5),
        |c| c.water_shallow = "#000000".to_string(),
        |c| c.water_deep = "#000000".to_string(),
        |c| c.wave_intensity = s(0.5),
        |c| c.mouse_ripples = false,
        |c| c.active_fps = 61,
        |c| c.idle_fps = 31,
        |c| c.all_monitors = false,
        |c| c.autostart = true,
        |c| c.enabled = false,
        |c| c.custom_sprite = None,
        |c| c.custom_sprite.as_mut().unwrap().path.push('x'),
        |c| c.custom_sprite.as_mut().unwrap().frame_width = 1,
        |c| c.custom_sprite.as_mut().unwrap().fps = s(5.0),
        |c| c.custom_sprite.as_mut().unwrap().mode.push('x'),
    ];
    for (i, change) in changes.into_iter().enumerate() {
        let mut c = base();
        change(&mut c);
        assert!(!c.same(&base()), "change {i}");
        assert!(!base().same(&c), "change {i}");
    }
}

#[test]
fn zeros_of_either_sign_are_the_same_setting() {
    let (mut a, mut b) = (Config::default(), Config::default());
    a.wave_intensity = s(0.0);
    b.wave_intensity = s(-0.0);
    assert!(a.same(&b));
}

#[test]
fn rotating_resolves_to_the_character_on_show() {
    let mut c = Config::default();
    c.character = "rotate".to_string();
    assert_eq!(effective_config(&c, "boat").character, "boat");
    c.character = "fish".to_string();
    assert_eq!(effective_config(&c, "boat").character, "fish");
    c.custom_sprite = Some(sprite());
    assert!(effective_config(&c, "boat").same(&c));
}

#[test]
fn entries_get_defaults_for_what_they_leave_out() {
    assert_eq!(default_custom_mode(), "floater");
    assert_eq!(default_custom_facing(), "right");
    assert_eq!(default_custom_fps(), s(4.0));
}

#[test]
fn the_settings_file_starts_with_comments() {
    assert_eq!(
        header(),
        "# Floaty configuration — edits are applied live while Floaty runs.\n\
         # Characters: duck, capybara, fish, coconut, boat, custom,\n\
         # or \"rotate\" (random built-in every rotate_minutes)\n\n"
    );
    let text = header();
    assert!(text.lines().all(|l| l.is_empty() || l.starts_with('#')));
}
