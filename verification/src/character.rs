//! How a character behaves: it wanders the pool, pauses, turns round, leaves
//! a wake while it moves and hops now and then.
//!
//! The caller does the arithmetic and hands over the values that a frame may
//! need; which of them hold is decided here.

use vstd::prelude::*;

use crate::atlas::{Facing, WaterMode};
use crate::single::Single;

verus! {

/// 0.
pub const ZERO: u32 = 0;

/// 0.5.
pub const HALF: u32 = 0x3f00_0000;

/// 1.
pub const ONE: u32 = 0x3f80_0000;

/// -1.
pub const MINUS_ONE: u32 = 0xbf80_0000;

/// 8: seconds until a new character's first hop.
pub const EIGHT: u32 = 0x4100_0000;

// ---- chance ---------------------------------------------------------------

/// The state that follows `s`.
pub open spec fn scrambled(s: u64) -> u64 {
    let a = s ^ (s << 13);
    let b = a ^ (a >> 7);
    b ^ (b << 17)
}

/// The state that a seed gives.
pub open spec fn first_state(seed: u64) -> u64 {
    seed | 1
}

/// The random number that a state gives.
pub open spec fn drawn(s: u64) -> u64 {
    s >> 40
}

/// A small random number generator.
#[derive(Debug, Clone, Copy, PartialEq, Eq, Structural)]
pub struct Rng {
    pub state: u64,
}

/// Steps the state of a generator.
pub fn scramble(s: u64) -> (r: u64)
    ensures
        r == scrambled(s),
{
    let a: u64 = s ^ (s << 13);
    let b: u64 = a ^ (a >> 7);
    b ^ (b << 17)
}

impl Rng {
    /// A generator that starts from a seed.
    pub fn seeded(seed: u64) -> (r: Rng)
        ensures
            r.state == first_state(seed),
    {
        Rng { state: seed | 1 }
    }

    /// The next random number, of 24 bits. As a fraction of 2^24 it is spread
    /// over the range from 0 to 1.
    pub fn draw(&mut self) -> (r: u32)
        ensures
            final(self).state == scrambled(old(self).state),
            r == drawn(scrambled(old(self).state)),
            r < 0x100_0000,
    {
        self.state = scramble(self.state);
        let s: u64 = self.state;
        assert(s >> 40 < 0x100_0000) by (bit_vector);
        (s >> 40) as u32
    }
}

/// A generator started from any seed never gets stuck at zero, from which it
/// could not get away.
pub proof fn law_never_stuck(seed: u64, s: u64)
    ensures
        seed | 1 != 0,
        s != 0 ==> scrambled(s) != 0,
{
    assert(seed | 1 != 0) by (bit_vector);
    assert(s != 0 ==> s ^ (s << 13) != 0) by (bit_vector);
    let a = s ^ (s << 13);
    assert(a != 0 ==> a ^ (a >> 7) != 0) by (bit_vector);
    let b = a ^ (a >> 7);
    assert(b != 0 ==> b ^ (b << 17) != 0) by (bit_vector);
}

/// The lowest bit of a seed makes no difference, so that zero is a seed like
/// any other.
pub proof fn law_seed_is_made_odd(seed: u64)
    ensures
        (seed | 1) | 1 == seed | 1,
        (seed | 1) % 2 == 1,
{
    assert((seed | 1) | 1 == seed | 1) by (bit_vector);
    assert((seed | 1) % 2 == 1) by (bit_vector);
}

/// Two states never lead to the same one, so that nothing is lost of a seed
/// but its lowest bit.
pub proof fn law_states_stay_apart(s: u64, t: u64)
    requires
        scrambled(s) == scrambled(t),
    ensures
        s == t,
{
    let (a, c) = (s ^ (s << 13), t ^ (t << 13));
    let (b, d) = (a ^ (a >> 7), c ^ (c >> 7));
    assert(b ^ (b << 17) == d ^ (d << 17) ==> b == d) by (bit_vector);
    assert(a ^ (a >> 7) == c ^ (c >> 7) ==> a == c) by (bit_vector);
    assert(s ^ (s << 13) == t ^ (t << 13) ==> s == t) by (bit_vector);
}

// ---- behavior -------------------------------------------------------------

/// What a character is doing.
#[derive(Debug, Clone, Copy, PartialEq, Eq, Structural)]
pub enum State {
    Swimming { target_x: Single },
    /// Seconds remain.
    Pausing { remaining: Single },
}

/// A character in a pool.
#[derive(Debug, Clone, Copy, PartialEq, Eq, Structural)]
pub struct Character {
    pub x: Single,
    /// -1 to 1: the sign is where it looks, and the size shrinks while it
    /// turns round.
    pub facing: Single,
    pub state: State,
    pub rng: Rng,
    pub anim_t: Single,
    pub wake_t: Single,
    pub splash_t: Single,
    pub bob: Single,
    pub tilt: Single,
}

/// The values that a frame may need, for the character as it is and the time
/// that has passed. Those for a state that it is not in are not looked at.
#[derive(Debug, Clone, Copy, PartialEq, Eq, Structural)]
pub struct Outlook {
    /// Its clock.
    pub clock: Single,
    /// What remains of the pause.
    pub pause_left: Single,
    /// Where to swim next, by the first random number.
    pub target: Single,
    /// How far the target is to the right.
    pub gap: Single,
    /// How far it swims.
    pub stride: Single,
    /// How it faces when it swims right, and when it swims left.
    pub facing_right: Single,
    pub facing_left: Single,
    /// Where it gets to when it swims right, and when it swims left.
    pub x_right: Single,
    pub x_left: Single,
    /// How long to pause on arrival, by the first random number.
    pub pause: Single,
    /// Seconds until its next wake, and between wakes.
    pub wake_left: Single,
    pub wake_again: Single,
    /// Seconds until its next hop.
    pub splash_left: Single,
    /// Seconds between hops, by the first and by the second random number.
    pub splash_first: Single,
    pub splash_second: Single,
}

/// What shows of a character in a frame.
#[derive(Debug, Clone, Copy, PartialEq, Eq, Structural)]
pub struct Outcome {
    pub moving: bool,
    /// It stirs the water behind it.
    pub wake: bool,
    /// It hops.
    pub hop: bool,
}

/// What the renderer needs.
#[derive(Debug, Clone, Copy, PartialEq, Eq, Structural)]
pub struct Pose {
    pub x: Single,
    pub y_offset: Single,
    pub tilt: Single,
    pub facing: Single,
    pub frame: usize,
    pub moving: bool,
}

/// The greater of a half and `v`.
pub open spec fn at_least_half(v: Single) -> Single {
    if (Single { bits: HALF }).lt(v) {
        v
    } else {
        Single { bits: HALF }
    }
}

impl Character {
    /// A character at `x` that has just appeared.
    pub open spec fn newborn(x: Single, rng: Rng) -> Character {
        Character {
            x,
            facing: Single { bits: ONE },
            state: State::Pausing { remaining: Single { bits: ONE } },
            rng,
            anim_t: Single { bits: ZERO },
            wake_t: Single { bits: ZERO },
            splash_t: Single { bits: EIGHT },
            bob: Single { bits: ZERO },
            tilt: Single { bits: ZERO },
        }
    }

    /// A character at `x` that rests for a second.
    pub fn new(x: Single, rng: Rng) -> (r: Character)
        ensures
            r == Character::newborn(x, rng),
    {
        Character {
            x,
            facing: Single { bits: ONE },
            state: State::Pausing { remaining: Single { bits: ONE } },
            rng,
            anim_t: Single { bits: ZERO },
            wake_t: Single { bits: ZERO },
            splash_t: Single { bits: EIGHT },
            bob: Single { bits: ZERO },
            tilt: Single { bits: ZERO },
        }
    }

    /// Its pause is over.
    pub open spec fn rested(self, o: Outlook) -> bool {
        self.state is Pausing && o.pause_left.le(Single { bits: ZERO })
    }

    /// The target lies to its right.
    pub open spec fn heads_right(self, o: Outlook) -> bool {
        (Single { bits: ZERO }).le(o.gap)
    }

    /// It reaches its target.
    pub open spec fn arrives(self, o: Outlook) -> bool {
        self.state is Swimming && o.gap.unsigned().le(at_least_half(o.stride))
    }

    /// It swims on.
    pub open spec fn swims(self, o: Outlook) -> bool {
        self.state is Swimming && !self.arrives(o)
    }

    /// It leaves a wake, which it only does while it swims.
    pub open spec fn stirs(self, o: Outlook) -> bool {
        self.swims(o) && o.wake_left.le(Single { bits: ZERO })
    }

    /// It hops.
    pub open spec fn hops(self, o: Outlook) -> bool {
        o.splash_left.le(Single { bits: ZERO })
    }

    /// It makes up its mind, by the first random number.
    pub open spec fn decides(self, o: Outlook) -> bool {
        self.rested(o) || self.arrives(o)
    }

    /// Its generator after as many numbers as it used.
    pub open spec fn rng_after(self, o: Outlook) -> Rng {
        let once = Rng { state: scrambled(self.rng.state) };
        if self.decides(o) && self.hops(o) {
            Rng { state: scrambled(once.state) }
        } else if self.decides(o) || self.hops(o) {
            once
        } else {
            self.rng
        }
    }

    /// The character after a frame.
    pub open spec fn after(self, o: Outlook) -> Character {
        Character {
            x: match self.state {
                State::Swimming { target_x } => if self.arrives(o) {
                    target_x
                } else if self.heads_right(o) {
                    o.x_right
                } else {
                    o.x_left
                },
                State::Pausing { .. } => self.x,
            },
            facing: if self.state is Pausing {
                self.facing
            } else if self.heads_right(o) {
                o.facing_right
            } else {
                o.facing_left
            },
            state: if self.rested(o) {
                State::Swimming { target_x: o.target }
            } else if self.state is Pausing {
                State::Pausing { remaining: o.pause_left }
            } else if self.arrives(o) {
                State::Pausing { remaining: o.pause }
            } else {
                self.state
            },
            rng: self.rng_after(o),
            anim_t: o.clock,
            wake_t: if self.stirs(o) {
                o.wake_again
            } else if self.swims(o) {
                o.wake_left
            } else {
                self.wake_t
            },
            splash_t: if !self.hops(o) {
                o.splash_left
            } else if self.decides(o) {
                o.splash_second
            } else {
                o.splash_first
            },
            bob: self.bob,
            tilt: self.tilt,
        }
    }

    /// What shows of it in a frame.
    pub open spec fn shown(self, o: Outlook) -> Outcome {
        Outcome { moving: self.swims(o), wake: self.stirs(o), hop: self.hops(o) }
    }

    /// The random numbers that a frame uses if it uses any, in order.
    pub fn next_draws(&self) -> (r: (u32, u32))
        ensures
            r.0 == drawn(scrambled(self.rng.state)),
            r.1 == drawn(scrambled(scrambled(self.rng.state))),
            r.0 < 0x100_0000,
            r.1 < 0x100_0000,
    {
        let mut rng = self.rng;
        let first = rng.draw();
        let second = rng.draw();
        (first, second)
    }

    /// Lives through a frame.
    pub fn update(&mut self, o: &Outlook) -> (r: Outcome)
        ensures
            *final(self) == old(self).after(*o),
            r == old(self).shown(*o),
    {
        let zero = Single { bits: ZERO };
        let mut moving = false;
        let mut decided = false;
        self.anim_t = o.clock;
        match self.state {
            State::Pausing { .. } => {
                if o.pause_left.is_at_most(zero) {
                    self.rng.draw();
                    decided = true;
                    self.state = State::Swimming { target_x: o.target };
                } else {
                    self.state = State::Pausing { remaining: o.pause_left };
                }
            },
            State::Swimming { target_x } => {
                let right = zero.is_at_most(o.gap);
                self.facing = if right {
                    o.facing_right
                } else {
                    o.facing_left
                };
                let half = Single { bits: HALF };
                let reach = if half.is_below(o.stride) {
                    o.stride
                } else {
                    half
                };
                if o.gap.abs().is_at_most(reach) {
                    self.x = target_x;
                    self.rng.draw();
                    decided = true;
                    self.state = State::Pausing { remaining: o.pause };
                } else {
                    self.x = if right {
                        o.x_right
                    } else {
                        o.x_left
                    };
                    moving = true;
                }
            },
        }
        let mut wake = false;
        if moving {
            wake = o.wake_left.is_at_most(zero);
            self.wake_t = if wake {
                o.wake_again
            } else {
                o.wake_left
            };
        }
        let hop = o.splash_left.is_at_most(zero);
        if hop {
            self.rng.draw();
            self.splash_t = if decided {
                o.splash_second
            } else {
                o.splash_first
            };
        } else {
            self.splash_t = o.splash_left;
        }
        Outcome { moving, wake, hop }
    }

    /// The character once it follows the water.
    pub open spec fn settled(self, bob: Single, tilt: Single) -> Character {
        Character { bob, tilt, ..self }
    }

    /// Follows the water: takes over the smoothed height and slope.
    pub fn settle(&mut self, bob: Single, tilt: Single)
        ensures
            *final(self) == old(self).settled(bob, tilt),
    {
        self.bob = bob;
        self.tilt = tilt;
    }

    /// How the character shows.
    pub open spec fn posed(
        self,
        y_offset: Single,
        tilt: Single,
        art: Facing,
        ticks: usize,
        frames: usize,
        moving: bool,
    ) -> Pose {
        Pose {
            x: self.x,
            y_offset,
            tilt,
            facing: art_facing(self.facing, art),
            frame: (ticks % frames) as usize,
            moving,
        }
    }

    /// How the character shows: `ticks` frames of its animation have passed,
    /// which has `frames` frames, and its art faces `art`. Art that faces
    /// left is mirrored.
    pub fn pose(
        &self,
        y_offset: Single,
        tilt: Single,
        art: Facing,
        ticks: usize,
        frames: usize,
        moving: bool,
    ) -> (r: Pose)
        requires
            frames > 0,
        ensures
            r == self.posed(y_offset, tilt, art, ticks, frames, moving),
            r.frame < frames,
    {
        let facing = match art {
            Facing::Right => self.facing,
            Facing::Left => self.facing.negate(),
        };
        Pose {
            x: self.x,
            y_offset,
            tilt,
            facing: facing.clamp(Single { bits: MINUS_ONE }, Single { bits: ONE }),
            frame: ticks % frames,
            moving,
        }
    }

    /// The character once it is back inside a pool of this width.
    pub open spec fn within(self, pool_width: Single) -> Character {
        let zero = Single { bits: ZERO };
        Character {
            x: self.x.clamped(zero, pool_width),
            state: match self.state {
                State::Swimming { target_x } => State::Swimming {
                    target_x: target_x.clamped(zero, pool_width),
                },
                State::Pausing { remaining } => State::Pausing { remaining },
            },
            ..self
        }
    }

    /// Keeps the character inside the pool when the taskbar changes.
    pub fn clamp_to(&mut self, pool_width: Single)
        requires
            (Single { bits: ZERO }).le(pool_width),
        ensures
            *final(self) == old(self).within(pool_width),
    {
        let zero = Single { bits: ZERO };
        self.x = self.x.clamp(zero, pool_width);
        if let State::Swimming { target_x } = self.state {
            self.state = State::Swimming { target_x: target_x.clamp(zero, pool_width) };
        }
    }
}

/// Which way the art is drawn: 1 as it is, -1 mirrored, and between while the
/// character turns.
pub open spec fn art_facing(facing: Single, art: Facing) -> Single {
    (match art {
        Facing::Right => facing,
        Facing::Left => facing.negated(),
    }).clamped(Single { bits: MINUS_ONE }, Single { bits: ONE })
}

/// How much a character pitches with the slope of the water: floaters ride
/// on it, while swimmers barely notice the waves overhead.
pub fn slope_gain(mode: WaterMode) -> (r: Single)
    ensures
        r.bits == match mode {
            WaterMode::Floater => 0x3f66_6666u32,
            WaterMode::Swimmer => 0x3df5_c28fu32,
        },
{
    match mode {
        WaterMode::Floater => Single { bits: 0x3f66_6666 },
        WaterMode::Swimmer => Single { bits: 0x3df5_c28f },
    }
}

/// How many pixels a character moves up and down on calm water.
pub fn bob_amp(mode: WaterMode) -> (r: Single)
    ensures
        r.bits == match mode {
            WaterMode::Floater => 0x4040_0000u32,
            WaterMode::Swimmer => 0x3f99_999au32,
        },
{
    match mode {
        WaterMode::Floater => Single { bits: 0x4040_0000 },
        WaterMode::Swimmer => Single { bits: 0x3f99_999a },
    }
}

/// How far a character of this kind sways.
pub open spec fn swayed(mode: WaterMode, floater: Single) -> Single {
    match mode {
        WaterMode::Floater => floater,
        WaterMode::Swimmer => Single { bits: ZERO },
    }
}

/// How far a character sways, given how far a floater would: swimmers stay
/// level.
pub fn sway(mode: WaterMode, floater: Single) -> (r: Single)
    ensures
        r == swayed(mode, floater),
{
    match mode {
        WaterMode::Floater => floater,
        WaterMode::Swimmer => Single { bits: ZERO },
    }
}

/// A character that is put back inside the pool is inside it, and so is where
/// it swims to.
pub proof fn law_stays_in_pool(c: Character, pool_width: Single)
    requires
        (Single { bits: ZERO }).le(pool_width),
    ensures
        !c.x.nan() ==> (Single { bits: ZERO }).le(c.within(pool_width).x) && c.within(
            pool_width,
        ).x.le(pool_width),
        c.within(pool_width).state matches State::Swimming { target_x } ==> !target_x.nan() ==> (
        Single { bits: ZERO }).le(target_x) && target_x.le(pool_width),
        c.within(pool_width).within(pool_width) == c.within(pool_width),
{
}

/// A frame either leaves a wake or lets the character rest or arrive, never
/// both; a resting character stays where it is, and an arriving one gets
/// exactly to its target.
pub proof fn law_frame(c: Character, o: Outlook)
    ensures
        c.stirs(o) ==> !c.decides(o),
        c.state is Pausing ==> c.after(o).x == c.x && c.after(o).facing == c.facing,
        c.arrives(o) ==> c.after(o).x == c.state->target_x && c.after(o).state is Pausing,
        c.swims(o) ==> c.after(o).state == c.state,
{
}

/// The direction that art is drawn in is that of the character, mirrored for
/// art that faces left.
pub proof fn law_art_facing(facing: Single)
    requires
        (Single { bits: MINUS_ONE }).le(facing),
        facing.le(Single { bits: ONE }),
    ensures
        art_facing(facing, Facing::Right) == facing,
        art_facing(facing, Facing::Left) == facing.negated(),
{
}

/// `v` lies from `lo` to `hi`.
pub open spec fn between(v: Single, lo: Single, hi: Single) -> bool {
    lo.le(v) && v.le(hi)
}

/// A character faces within -1 and 1 after a frame if it did before and if
/// the directions that it may turn to do. The art is then drawn facing the
/// same way, or mirrored.
pub proof fn law_facing_stays_in_range(c: Character, o: Outlook)
    requires
        between(c.facing, Single { bits: MINUS_ONE }, Single { bits: ONE }),
        between(o.facing_right, Single { bits: MINUS_ONE }, Single { bits: ONE }),
        between(o.facing_left, Single { bits: MINUS_ONE }, Single { bits: ONE }),
    ensures
        between(c.after(o).facing, Single { bits: MINUS_ONE }, Single { bits: ONE }),
        art_facing(c.after(o).facing, Facing::Right) == c.after(o).facing,
        art_facing(c.after(o).facing, Facing::Left) == c.after(o).facing.negated(),
{
}

/// The target of a character, while it has one, lies from `lo` to `hi`.
pub open spec fn target_between(c: Character, lo: Single, hi: Single) -> bool {
    c.state matches State::Swimming { target_x } ==> between(target_x, lo, hi)
}

/// A stride goes towards the target and not past it, unless it is reached.
pub open spec fn strides_ahead(c: Character, o: Outlook) -> bool {
    c.state matches State::Swimming { target_x } ==> c.arrives(o) || if c.heads_right(o) {
        between(o.x_right, c.x, target_x)
    } else {
        between(o.x_left, target_x, c.x)
    }
}

/// A character stays between any two places that it and its targets lie
/// between, as long as its strides go towards the target and not past it. In
/// particular it never gets past its target.
pub proof fn law_stays_between(c: Character, o: Outlook, lo: Single, hi: Single)
    requires
        between(c.x, lo, hi),
        target_between(c, lo, hi),
        between(o.target, lo, hi),
        strides_ahead(c, o),
    ensures
        between(c.after(o).x, lo, hi),
        target_between(c.after(o), lo, hi),
        c.state matches State::Swimming { target_x } ==> if c.heads_right(o) {
            c.after(o).x.le(target_x)
        } else {
            target_x.le(c.after(o).x)
        },
{
}

/// A character hops in every frame, and only in those, in which its hop timer
/// runs out, whatever else it does. The timer is then set to a freshly drawn
/// interval: the one by the second random number if the first one went into
/// deciding what to do next, else the one by the first. Otherwise the timer
/// just runs on.
pub proof fn law_hop_timer(c: Character, o: Outlook)
    ensures
        c.shown(o).hop <==> o.splash_left.le(Single { bits: 0 }),
        c.shown(o).hop ==> c.after(o).splash_t == (if (c.state is Swimming) == (c.after(
            o,
        ).state is Swimming) {
            o.splash_first
        } else {
            o.splash_second
        }),
        !c.shown(o).hop ==> c.after(o).splash_t == o.splash_left,
{
}

/// With positive intervals two hops are an interval apart: the timer is
/// positive after every frame, after a hop too, and a frame that leaves it
/// positive has no hop.
pub proof fn law_hops_are_apart(c: Character, o: Outlook, next: Outlook)
    requires
        (Single { bits: 0 }).lt(o.splash_first),
        (Single { bits: 0 }).lt(o.splash_second),
        !o.splash_left.nan(),
    ensures
        (Single { bits: 0 }).lt(c.after(o).splash_t),
        c.shown(o).hop ==> c.after(o).splash_t == o.splash_first || c.after(o).splash_t
            == o.splash_second,
        (Single { bits: 0 }).lt(next.splash_left) ==> !c.after(o).shown(next).hop && c.after(
            o,
        ).after(next).splash_t == next.splash_left,
{
}

/// The wake timer only runs while the character swims on, which is when it
/// moves. A wake comes when the timer runs out, and the timer then starts
/// anew; a resting or arriving character leaves no wake and keeps its timer.
pub proof fn law_wake_timer(c: Character, o: Outlook)
    ensures
        c.shown(o).moving <==> c.state is Swimming && c.after(o).state is Swimming,
        c.shown(o).wake <==> c.shown(o).moving && o.wake_left.le(Single { bits: 0 }),
        c.after(o).wake_t == (if !c.shown(o).moving {
            c.wake_t
        } else if c.shown(o).wake {
            o.wake_again
        } else {
            o.wake_left
        }),
{
}

/// A resting character stays where it is and looks where it looked. It rests
/// on while time is left, and then sets out for the drawn target.
pub proof fn law_resting(c: Character, o: Outlook, remaining: Single)
    requires
        c.state == (State::Pausing { remaining }),
    ensures
        c.after(o).x == c.x,
        c.after(o).facing == c.facing,
        o.pause_left.le(Single { bits: 0 }) ==> c.after(o).state == (State::Swimming {
            target_x: o.target,
        }),
        !o.pause_left.le(Single { bits: 0 }) ==> c.after(o).state == (State::Pausing {
            remaining: o.pause_left,
        }),
        !c.shown(o).moving,
{
}

/// A swimming character turns towards its target. It is there when the target
/// is within a stride or within half a pixel: it then stands exactly on it
/// and rests for the drawn time. Otherwise it gets a stride closer on the
/// side where the target lies and keeps the target.
pub proof fn law_swimming(c: Character, o: Outlook, target_x: Single)
    requires
        c.state == (State::Swimming { target_x }),
    ensures
        (Single { bits: 0 }).le(o.gap) ==> c.after(o).facing == o.facing_right,
        !(Single { bits: 0 }).le(o.gap) ==> c.after(o).facing == o.facing_left,
        ({
            let near = o.gap.unsigned().le(o.stride) || o.gap.unsigned().le(
                Single { bits: 0x3f00_0000 },
            );
            &&& near ==> c.after(o).x == target_x && c.after(o).state == (State::Pausing {
                remaining: o.pause,
            }) && !c.shown(o).moving
            &&& !near ==> c.after(o).state == c.state && c.shown(o).moving && c.after(o).x == (if (
            Single { bits: 0 }).le(o.gap) {
                o.x_right
            } else {
                o.x_left
            })
        }),
{
}

/// A frame uses one random number for a decision, which is a change between
/// resting and swimming, and one for a hop. It sets the clock, and leaves the
/// height and the slope of the water alone.
pub proof fn law_what_a_frame_uses(c: Character, o: Outlook)
    ensures
        ({
            let n = c.after(o);
            let decided = (c.state is Swimming) != (n.state is Swimming);
            let hop = c.shown(o).hop;
            let once = scrambled(c.rng.state);
            &&& !decided && !hop ==> n.rng.state == c.rng.state
            &&& decided != hop ==> n.rng.state == once
            &&& decided && hop ==> n.rng.state == scrambled(once)
            &&& n.anim_t == o.clock
            &&& n.bob == c.bob
            &&& n.tilt == c.tilt
        }),
{
}

/// A frame only looks at where the character is, what it does and what its
/// outlook says: two characters that differ in height, slope, clock and hop
/// timer alone live through it alike.
pub proof fn law_frame_looks_at_little(c: Character, d: Character, o: Outlook)
    requires
        c.x == d.x,
        c.facing == d.facing,
        c.state == d.state,
        c.rng == d.rng,
        c.wake_t == d.wake_t,
    ensures
        c.shown(o) == d.shown(o),
        c.after(o) == d.after(o).settled(c.bob, c.tilt),
{
}

/// A new character stands at its place, at rest for a second and facing
/// right, on calm water; its clock is at zero, and its first hop is eight
/// seconds away.
pub proof fn law_newborn(x: Single, rng: Rng)
    ensures
        Character::newborn(x, rng).x == x,
        Character::newborn(x, rng).rng == rng,
        Character::newborn(x, rng).state == (State::Pausing {
            remaining: Single { bits: 0x3f80_0000 },
        }),
        Character::newborn(x, rng).facing.bits == 0x3f80_0000,
        Character::newborn(x, rng).splash_t.bits == 0x4100_0000,
        Character::newborn(x, rng).anim_t.bits == 0,
        Character::newborn(x, rng).wake_t.bits == 0,
        Character::newborn(x, rng) == Character::newborn(x, rng).settled(
            Single { bits: 0 },
            Single { bits: 0 },
        ),
{
}

/// Following the water changes nothing but height and slope, and the last one
/// to settle counts.
pub proof fn law_settling(c: Character, bob: Single, tilt: Single, o: Outlook)
    ensures
        c.settled(bob, tilt).bob == bob,
        c.settled(bob, tilt).tilt == tilt,
        c.settled(bob, tilt).settled(c.bob, c.tilt) == c,
        c.settled(bob, tilt).shown(o) == c.shown(o),
        c.settled(bob, tilt).after(o) == c.after(o).settled(bob, tilt),
{
}

/// The animation goes round: it starts with the first frame, moves on by one
/// with each tick, and starts over after the last frame.
pub proof fn law_animation_goes_round(
    c: Character,
    y_offset: Single,
    tilt: Single,
    art: Facing,
    ticks: usize,
    frames: usize,
    moving: bool,
)
    requires
        frames > 0,
        ticks < usize::MAX,
    ensures
        c.posed(y_offset, tilt, art, 0, frames, moving).frame == 0,
        ({
            let now = c.posed(y_offset, tilt, art, ticks, frames, moving).frame;
            let next = c.posed(y_offset, tilt, art, (ticks + 1) as usize, frames, moving).frame;
            &&& now < frames
            &&& now + 1 < frames ==> next == now + 1
            &&& now + 1 == frames ==> next == 0
        }),
{
    let (t, n) = (ticks as int, frames as int);
    vstd::arithmetic::div_mod::lemma_fundamental_div_mod(t, n);
    let (q, m) = (t / n, t % n);
    vstd::arithmetic::div_mod::lemma_mod_bound(t, n);
    if m + 1 < n {
        assert(t + 1 == q * n + (m + 1)) by (nonlinear_arith)
            requires
                t == n * q + m,
        ;
        vstd::arithmetic::div_mod::lemma_fundamental_div_mod_converse(t + 1, n, q, m + 1);
    } else {
        assert(t + 1 == (q + 1) * n) by (nonlinear_arith)
            requires
                t == n * q + m,
                m + 1 == n,
        ;
        vstd::arithmetic::div_mod::lemma_fundamental_div_mod_converse(t + 1, n, q + 1, 0);
    }
    vstd::arithmetic::div_mod::lemma_fundamental_div_mod_converse(0, n, 0, 0);
}

/// A character shows where it is, at the height and slope it is given. It
/// looks where it faces, and art that faces left is mirrored: the two
/// directions that it can be drawn in are opposite.
pub proof fn law_pose_shows_the_character(
    c: Character,
    y_offset: Single,
    tilt: Single,
    art: Facing,
    ticks: usize,
    frames: usize,
    moving: bool,
)
    requires
        frames > 0,
        (Single { bits: 0xbf80_0000 }).le(c.facing),
        c.facing.le(Single { bits: 0x3f80_0000 }),
    ensures
        ({
            let p = c.posed(y_offset, tilt, art, ticks, frames, moving);
            &&& p.x == c.x
            &&& p.y_offset == y_offset
            &&& p.tilt == tilt
            &&& p.moving == moving
            &&& art is Right ==> p.facing == c.facing
            &&& art is Left ==> p.facing == c.facing.negated()
        }),
{
    law_art_facing(c.facing);
}

/// Being kept inside a pool moves only what lies outside it: the place and
/// the target stay if they are inside, and else go to the nearest edge.
/// Nothing else of the character changes.
pub proof fn law_only_strays_are_moved(c: Character, pool_width: Single)
    requires
        (Single { bits: 0 }).le(pool_width),
    ensures
        ({
            let d = c.within(pool_width);
            let zero = Single { bits: 0 };
            &&& c.x.lt(zero) ==> d.x == zero
            &&& pool_width.lt(c.x) ==> d.x == pool_width
            &&& !c.x.lt(zero) && !pool_width.lt(c.x) ==> d.x == c.x
            &&& c.state is Pausing ==> d.state == c.state
            &&& c.state matches State::Swimming { target_x } ==> {
                &&& d.state is Swimming
                &&& target_x.lt(zero) ==> d.state->target_x == zero
                &&& pool_width.lt(target_x) ==> d.state->target_x == pool_width
                &&& !target_x.lt(zero) && !pool_width.lt(target_x) ==> d.state->target_x
                    == target_x
            }
            &&& d.facing == c.facing && d.rng == c.rng && d.anim_t == c.anim_t && d.wake_t
                == c.wake_t && d.splash_t == c.splash_t && d.bob == c.bob && d.tilt == c.tilt
        }),
{
}

/// The generator is linear: what two seeds differ by decides what the states
/// after them differ by.
pub proof fn law_scramble_is_linear(s: u64, t: u64)
    ensures
        scrambled(s ^ t) == scrambled(s) ^ scrambled(t),
{
    let (a, c) = (s ^ (s << 13), t ^ (t << 13));
    let (b, d) = (a ^ (a >> 7), c ^ (c >> 7));
    let u = s ^ t;
    assert(u ^ (u << 13) == a ^ c) by (bit_vector)
        requires
            u == s ^ t,
            a == s ^ (s << 13),
            c == t ^ (t << 13),
    ;
    let v = a ^ c;
    assert(v ^ (v >> 7) == b ^ d) by (bit_vector)
        requires
            v == a ^ c,
            b == a ^ (a >> 7),
            d == c ^ (c >> 7),
    ;
    let w = b ^ d;
    assert(w ^ (w << 17) == (b ^ (b << 17)) ^ (d ^ (d << 17))) by (bit_vector)
        requires
            w == b ^ d,
    ;
}

/// A random number is the highest 24 bits of a state: equal shares of the
/// states give each of the numbers, in order.
pub proof fn law_draw_is_the_top(s: u64)
    ensures
        drawn(s) * 0x100_0000_0000 <= s < (drawn(s) + 1) * 0x100_0000_0000,
{
    let d = s >> 40;
    assert(d * 0x100_0000_0000 <= s && s < (d + 1) * 0x100_0000_0000) by (bit_vector)
        requires
            d == s >> 40,
    ;
}

/// A generator starts from its seed, made odd by counting up.
pub proof fn law_seed_is_the_state(seed: u64)
    ensures
        seed % 2 == 1 ==> first_state(seed) == seed,
        seed % 2 == 0 ==> first_state(seed) == seed + 1,
{
    assert(seed % 2 == 1 ==> seed | 1 == seed) by (bit_vector);
    assert(seed % 2 == 0 ==> seed | 1 == seed + 1) by (bit_vector);
}

/// Floaters sway all the way, swimmers not at all.
pub proof fn law_only_floaters_sway(a: Single)
    ensures
        swayed(WaterMode::Floater, a) == a,
        swayed(WaterMode::Swimmer, a).bits == 0,
{
}

} // verus!
