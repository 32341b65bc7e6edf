use floaty::sim::{RippleSim, CELL};
use floaty::single::Single;

fn s(v: f32) -> Single {
    Single { bits: v.to_bits() }
}

fn f(v: Single) -> f32 {
    f32::from_bits(v.bits)
}

fn relax(up: Single, down: Single, left: Single, right: Single, prev: Single) -> Single {
    s(((f(up) + f(down) + f(left) + f(right)) * 0.5 - f(prev)) * 0.985)
}

fn add_energy(total: Single, v: Single) -> Single {
    s(f(total) + f(v) * f(v))
}

fn step(sim: &mut RippleSim) {
    sim.step(relax, add_energy);
}

/// One step, written out cell by cell.
fn stepped(w: usize, h: usize, curr: &[f32], prev: &[f32]) -> (Vec<f32>, f32) {
    let mut next = Vec::new();
    let mut energy = 0.0;
    for y in 0..h {
        for x in 0..w {
            let at = |x: usize, y: usize| curr[y * w + x];
            let sum = at(x, y.saturating_sub(1))
                + at(x, (y + 1).min(h - 1))
                + at(x.saturating_sub(1), y)
                + at((x + 1).min(w - 1), y);
            let v = (sum * 0.5 - prev[y * w + x]) * 0.985;
            next.push(v);
            energy += v * v;
        }
    }
    (next, energy)
}

fn bump_at(sim: &mut RippleSim, x: u32, y: u32, v: f32) {
    let energy = s(f(sim.energy) + v.abs());
    sim.splash(x, y, x, y, |_, _| s(0.0), |_, level| s(f(level) + v), energy);
}

#[test]
fn the_grid_is_half_the_surface() {
    assert_eq!(CELL, 2);
    let sim = RippleSim::new(1920, 48);
    assert_eq!((sim.width, sim.height), (960, 24));
    assert_eq!(sim.field().len(), 960 * 24);
    assert!(sim.field().iter().all(|v| v.bits == 0));
    assert!(sim.is_calm());
    let small = RippleSim::new(0, 0);
    assert_eq!((small.width, small.height), (8, 4));
    let odd = RippleSim::new(19, 11);
    assert_eq!((odd.width, odd.height), (9, 5));
}

#[test]
fn grids_have_at_most_so_many_cells() {
    assert!(RippleSim::fits(1920, 48));
    assert!(RippleSim::fits(2_147_483_647, 5));
    assert!(!RippleSim::fits(2_147_483_648, 5));
    assert!(!RippleSim::fits(u32::MAX, 48));
    assert!(!RippleSim::fits(u32::MAX, u32::MAX));
}

#[test]
fn still_water_stays_still() {
    let mut sim = RippleSim::new(40, 20);
    for _ in 0..5 {
        step(&mut sim);
    }
    assert!(sim.field().iter().all(|&v| f(v) == 0.0));
    assert!(sim.is_calm());
}

#[test]
fn waves_spread_as_computed_by_hand() {
    let mut sim = RippleSim::new(20, 12);
    let (w, h) = (sim.width as usize, sim.height as usize);
    for (x, y, v) in [(0, 0, 0.5), (9, 5, -0.25), (4, 3, 1.0), (9, 0, 0.125), (0, 5, 0.75)] {
        bump_at(&mut sim, x, y, v);
    }
    let mut curr: Vec<f32> = sim.field().iter().map(|&v| f(v)).collect();
    let mut prev = vec![0.0; w * h];
    for _ in 0..50 {
        let (next, energy) = stepped(w, h, &curr, &prev);
        step(&mut sim);
        let got: Vec<f32> = sim.field().iter().map(|&v| f(v)).collect();
        assert_eq!(got, next);
        assert_eq!(f(sim.energy), energy);
        prev = curr;
        curr = next;
    }
}

#[test]
fn waves_die_down() {
    let mut sim = RippleSim::new(40, 20);
    bump_at(&mut sim, 5, 5, 0.7);
    assert!(!sim.is_calm());
    for _ in 0..5000 {
        step(&mut sim);
    }
    assert!(sim.is_calm());
}

#[test]
fn a_splash_raises_the_cells_within_its_rim() {
    let mut sim = RippleSim::new(40, 20);
    bump_at(&mut sim, 0, 0, 0.25);
    // Cells at a distance of one or more from (10, 5), in steps of a third.
    let distance = |x: u32, y: u32| {
        let (dx, dy) = (x as f32 - 10.0, y as f32 - 5.0);
        s((dx * dx + dy * dy) / 9.0)
    };
    sim.splash(7, 2, 13, 8, distance, |d, v| s(f(v) + 1.0 - f(d)), s(9.0));
    assert_eq!(f(sim.energy), 9.0);
    for y in 0..10u32 {
        for x in 0..20u32 {
            let d = f(distance(x, y));
            let expected = if (x, y) == (0, 0) {
                0.25
            } else if d < 1.0 {
                1.0 - d
            } else {
                0.0
            };
            assert_eq!(f(sim.field()[(y * 20 + x) as usize]), expected, "({x}, {y})");
        }
    }
}

#[test]
fn an_empty_box_is_not_splashed() {
    let mut sim = RippleSim::new(40, 20);
    sim.splash(5, 5, 4, 9, |_, _| s(0.0), |_, _| s(1.0), s(0.5));
    sim.splash(5, 5, 9, 4, |_, _| s(0.0), |_, _| s(1.0), s(0.5));
    assert!(sim.field().iter().all(|v| v.bits == 0));
    assert_eq!(f(sim.energy), 0.5);
}

#[test]
fn height_is_read_along_the_middle() {
    let mut sim = RippleSim::new(40, 20);
    bump_at(&mut sim, 3, 5, 0.5);
    bump_at(&mut sim, 19, 5, 0.75);
    assert_eq!(f(sim.height_at(3)), 0.5);
    assert_eq!(f(sim.height_at(4)), 0.0);
    assert_eq!(f(sim.height_at(19)), 0.75);
    assert_eq!(f(sim.height_at(u32::MAX)), 0.75);
}

#[test]
fn calm_is_a_matter_of_energy() {
    let mut sim = RippleSim::new(40, 20);
    sim.energy = s(1e-4);
    assert!(!sim.is_calm());
    sim.energy = s(9e-5);
    assert!(sim.is_calm());
    sim.energy = s(f32::NAN);
    assert!(!sim.is_calm());
}
