use floaty::atlas::{Facing, WaterMode};
use floaty::character::{bob_amp, slope_gain, sway, Character, Outlook, Rng, State};
use floaty::single::Single;

fn s(v: f32) -> Single {
    Single { bits: v.to_bits() }
}

fn xorshift(mut v: u64) -> u64 {
    v ^= v << 13;
    v ^= v >> 7;
    v ^= v << 17;
    v
}

fn character() -> Character {
    Character::new(s(50.0), Rng::seeded(1234))
}

/// Values that can be told apart, far from any decision.
fn outlook() -> Outlook {
    Outlook {
        clock: s(101.0),
        pause_left: s(0.5),
        target: s(102.0),
        gap: s(20.0),
        stride: s(2.0),
        facing_right: s(0.9),
        facing_left: s(-0.9),
        x_right: s(52.0),
        x_left: s(48.0),
        pause: s(103.0),
        wake_left: s(0.25),
        wake_again: s(0.55),
        splash_left: s(7.0),
        splash_first: s(104.0),
        splash_second: s(105.0),
    }
}

#[test]
fn random_numbers_follow_the_recurrence() {
    let mut rng = Rng::seeded(42);
    assert_eq!(rng.state, 43);
    let mut state = 43;
    for _ in 0..1000 {
        state = xorshift(state);
        let n = rng.draw();
        assert_eq!(n as u64, state >> 40);
        assert_eq!(rng.state, state);
        assert!(n < 1 << 24);
        assert!(state != 0);
    }
    assert_eq!(Rng::seeded(0).state, 1);
    assert_eq!(Rng::seeded(42), Rng::seeded(43));
}

#[test]
fn new_characters_rest_for_a_second() {
    let c = character();
    assert_eq!(c.x, s(50.0));
    assert_eq!(c.facing, s(1.0));
    assert_eq!(c.state, State::Pausing { remaining: s(1.0) });
    assert_eq!(c.splash_t, s(8.0));
    assert_eq!((c.anim_t, c.wake_t, c.bob, c.tilt), (s(0.0), s(0.0), s(0.0), s(0.0)));
}

#[test]
fn a_pause_runs_out() {
    let mut c = character();
    let was = c;
    let seen = c.update(&outlook());
    assert!(!seen.moving && !seen.wake && !seen.hop);
    assert_eq!(c.state, State::Pausing { remaining: s(0.5) });
    assert_eq!((c.x, c.facing, c.rng, c.wake_t), (was.x, was.facing, was.rng, was.wake_t));
    assert_eq!((c.anim_t, c.splash_t), (s(101.0), s(7.0)));

    let seen = c.update(&Outlook { pause_left: s(0.0), ..outlook() });
    assert!(!seen.moving);
    assert_eq!(c.state, State::Swimming { target_x: s(102.0) });
    assert_eq!(c.x, was.x);
    assert_eq!(c.rng.state, xorshift(was.rng.state));
}

fn swimmer() -> Character {
    let mut c = character();
    c.state = State::Swimming { target_x: s(70.0) };
    c
}

#[test]
fn a_swimmer_goes_towards_its_target() {
    let mut c = swimmer();
    let seen = c.update(&outlook());
    assert!(seen.moving && !seen.wake);
    assert_eq!((c.x, c.facing, c.wake_t), (s(52.0), s(0.9), s(0.25)));
    assert_eq!(c.state, State::Swimming { target_x: s(70.0) });

    let mut c = swimmer();
    c.update(&Outlook { gap: s(-20.0), ..outlook() });
    assert_eq!((c.x, c.facing), (s(48.0), s(-0.9)));

    // A target straight ahead lies to the right.
    let mut c = swimmer();
    c.update(&Outlook { gap: s(-0.0), stride: s(2.0), ..outlook() });
    assert_eq!((c.x, c.facing), (s(70.0), s(0.9)));
}

#[test]
fn a_swimmer_arrives() {
    let mut c = swimmer();
    let was = c;
    let seen = c.update(&Outlook { gap: s(-2.0), wake_left: s(-1.0), ..outlook() });
    assert!(!seen.moving && !seen.wake);
    assert_eq!(c.x, s(70.0));
    assert_eq!(c.facing, s(-0.9));
    assert_eq!(c.state, State::Pausing { remaining: s(103.0) });
    assert_eq!(c.rng.state, xorshift(was.rng.state));
    assert_eq!(c.wake_t, was.wake_t);

    // Half a pixel is near enough for the slowest, too.
    let mut c = swimmer();
    c.update(&Outlook { gap: s(0.5), stride: s(0.001), ..outlook() });
    assert_eq!(c.x, s(70.0));
    let mut c = swimmer();
    c.update(&Outlook { gap: s(0.51), stride: s(0.001), ..outlook() });
    assert_eq!(c.x, s(52.0));
    let mut c = swimmer();
    c.update(&Outlook { gap: s(0.5), stride: s(f32::NAN), ..outlook() });
    assert_eq!(c.x, s(70.0));
}

#[test]
fn a_swimmer_leaves_a_wake() {
    let mut c = swimmer();
    let seen = c.update(&Outlook { wake_left: s(0.0), ..outlook() });
    assert!(seen.moving && seen.wake);
    assert_eq!(c.wake_t, s(0.55));
}

#[test]
fn hops_use_the_next_random_number() {
    let mut c = character();
    let was = c;
    let seen = c.update(&Outlook { splash_left: s(-0.1), ..outlook() });
    assert!(seen.hop);
    assert_eq!(c.splash_t, s(104.0));
    assert_eq!(c.rng.state, xorshift(was.rng.state));

    // One that wakes up at the same time has used the first.
    let mut c = character();
    let seen = c.update(&Outlook { splash_left: s(0.0), pause_left: s(-1.0), ..outlook() });
    assert!(seen.hop);
    assert_eq!(c.splash_t, s(105.0));
    assert_eq!(c.rng.state, xorshift(xorshift(was.rng.state)));
    let (first, second) = was.next_draws();
    assert_eq!(first as u64, xorshift(was.rng.state) >> 40);
    assert_eq!(second as u64, xorshift(xorshift(was.rng.state)) >> 40);
}

#[test]
fn following_the_water_moves_nothing_else() {
    let mut c = swimmer();
    let was = c;
    c.settle(s(1.0), s(2.0));
    assert_eq!((c.bob, c.tilt), (s(1.0), s(2.0)));
    assert_eq!(Character { bob: was.bob, tilt: was.tilt, ..c }, was);
}

#[test]
fn art_that_faces_left_is_mirrored() {
    let mut c = character();
    c.facing = s(0.75);
    let right = c.pose(s(1.0), s(2.0), Facing::Right, 13, 4, true);
    assert_eq!((right.x, right.y_offset, right.tilt), (s(50.0), s(1.0), s(2.0)));
    assert_eq!((right.facing, right.frame, right.moving), (s(0.75), 1, true));
    let left = c.pose(s(1.0), s(2.0), Facing::Left, 13, 4, false);
    assert_eq!((left.facing, left.moving), (s(-0.75), false));
    c.facing = s(1.0000001);
    assert_eq!(c.pose(s(0.0), s(0.0), Facing::Right, 0, 1, false).facing, s(1.0));
    assert_eq!(c.pose(s(0.0), s(0.0), Facing::Left, 0, 1, false).facing, s(-1.0));
}

#[test]
fn characters_are_kept_inside_the_pool() {
    let mut c = swimmer();
    c.clamp_to(s(60.0));
    assert_eq!((c.x, c.state), (s(50.0), State::Swimming { target_x: s(60.0) }));
    c.clamp_to(s(10.0));
    assert_eq!((c.x, c.state), (s(10.0), State::Swimming { target_x: s(10.0) }));
    let mut c = character();
    c.x = s(-3.0);
    c.clamp_to(s(10.0));
    assert_eq!((c.x, c.state), (s(0.0), State::Pausing { remaining: s(1.0) }));
}

#[test]
fn a_swimmer_stays_between_its_start_and_its_target() {
    let mut c = swimmer();
    let mut x = 50.0;
    while c.state != (State::Pausing { remaining: s(103.0) }) {
        let gap = 70.0 - x;
        let ahead = Outlook { gap: s(gap), stride: s(3.0), x_right: s(x + 3.0), ..outlook() };
        c.update(&ahead);
        x = f32::from_bits(c.x.bits);
        assert!((50.0..=70.0).contains(&x));
        assert!((-1.0..=1.0).contains(&f32::from_bits(c.facing.bits)));
    }
    assert_eq!(c.x, s(70.0));
}

#[test]
fn swimmers_stay_level() {
    assert_eq!(slope_gain(WaterMode::Floater), s(0.9));
    assert_eq!(slope_gain(WaterMode::Swimmer), s(0.12));
    assert_eq!(bob_amp(WaterMode::Floater), s(3.0));
    assert_eq!(bob_amp(WaterMode::Swimmer), s(1.2));
    assert_eq!(sway(WaterMode::Floater, s(0.3)), s(0.3));
    assert_eq!(sway(WaterMode::Swimmer, s(0.3)), s(0.0));
}
