use floaty::atlas::WaterMode;
use floaty::scene::{by_mode, compose, needs_height_texture, Placement};
use floaty::single::Single;

fn s(v: f32) -> Single {
    Single { bits: v.to_bits() }
}

fn placement() -> Placement {
    Placement {
        x: s(1.0),
        y: s(2.0),
        mirror_y: s(3.0),
        w: s(4.0),
        h: s(5.0),
        uv: [s(0.1), s(0.2), s(0.3), s(0.4)],
        tilt: s(6.0),
        facing: s(-1.0),
        waterline: s(7.0),
    }
}

#[test]
fn floaters_are_reflected() {
    let draw = compose(WaterMode::Floater, &placement());
    assert_eq!(draw.body.rect, [s(1.0), s(2.0), s(4.0), s(5.0)]);
    assert_eq!(draw.body.uv, [s(0.1), s(0.2), s(0.3), s(0.4)]);
    assert_eq!(draw.body.misc, [s(6.0), s(-1.0), s(7.0), s(0.0)]);
    let mirror = draw.reflection.unwrap();
    assert_eq!(mirror.rect, [s(1.0), s(3.0), s(4.0), s(5.0)]);
    assert_eq!(mirror.uv, [s(0.1), s(0.4), s(0.3), s(0.2)]);
    assert_eq!(mirror.misc, [s(-6.0), s(-1.0), s(0.0), s(1.0)]);
    let passes = draw.passes();
    assert_eq!(passes.len(), 2);
    assert_eq!(passes[0].rect, mirror.rect);
    assert_eq!(passes[1].rect, draw.body.rect);
}

#[test]
fn swimmers_are_not_reflected() {
    let draw = compose(WaterMode::Swimmer, &placement());
    assert_eq!(draw.body.misc, [s(6.0), s(-1.0), s(0.0), s(0.0)]);
    assert!(draw.reflection.is_none());
    assert_eq!(draw.passes().len(), 1);
}

#[test]
fn values_go_by_the_kind_of_character() {
    assert_eq!(by_mode(WaterMode::Floater, s(1.0), s(2.0)), s(1.0));
    assert_eq!(by_mode(WaterMode::Swimmer, s(1.0), s(2.0)), s(2.0));
}

#[test]
fn textures_are_kept_while_the_grid_is() {
    assert!(!needs_height_texture((960, 24), (960, 24)));
    assert!(needs_height_texture((960, 24), (960, 25)));
    assert!(needs_height_texture((960, 24), (961, 24)));
}
