//! The player: four directional signals steer it, and the walls hold it in
//! the arena.

use crate::arena::Bounds;
use crate::fixed::{magnitude, ONE};
use crate::movable::{displaced, elapsed, tick_velocity, Movable, MovementTunables};
use crate::vec2::{amplifier, Vec2};
use vstd::prelude::*;

verus! {

/// The diameter of the player's disc.
pub const PLAYER_DIAMETER: i64 = 50 * ONE;

/// The player's top speed, in units per second.
pub const PLAYER_MAX_SPEED: i64 = 400 * ONE;

/// The player's acceleration while a direction is held.
pub const PLAYER_ACCELERATION: i64 = 600 * ONE;

/// The decay rate of an axis without input; larger values stop faster.
pub const PLAYER_DAMPING: i64 = 2 * ONE;

/// What the player moves with.
pub open spec fn spec_player_tunables() -> MovementTunables {
    MovementTunables {
        acceleration: PLAYER_ACCELERATION,
        max_speed: PLAYER_MAX_SPEED,
        damping: PLAYER_DAMPING,
    }
}

/// What the player moves with.
#[verifier::when_used_as_spec(spec_player_tunables)]
pub fn player_tunables() -> (tunables: MovementTunables)
    ensures
        tunables == spec_player_tunables(),
{
    MovementTunables {
        acceleration: PLAYER_ACCELERATION,
        max_speed: PLAYER_MAX_SPEED,
        damping: PLAYER_DAMPING,
    }
}

/// Each component of a diagonal direction of unit length: one over the
/// square root of two, rounded toward zero.
pub const DIAGONAL: i64 = 707_106;

/// The four directional signals of one tick, each held or not.
#[derive(Clone, Copy, Debug, PartialEq, Eq, Structural)]
pub struct DirectionalInput {
    pub up: bool,
    pub down: bool,
    pub left: bool,
    pub right: bool,
}

/// What one axis of input amounts to: one unit toward the held side, and
/// nothing when both or neither are held.
pub open spec fn axis(positive: bool, negative: bool) -> i64 {
    if positive && !negative {
        ONE
    } else if negative && !positive {
        (-ONE) as i64
    } else {
        0
    }
}

/// One component of the wanted direction, given the raw component and
/// whether the other axis has input too.
pub open spec fn wanted_component(raw: i64, other: i64) -> i64 {
    if other == 0 {
        raw
    } else if raw > 0 {
        DIAGONAL
    } else if raw < 0 {
        (-DIAGONAL) as i64
    } else {
        0
    }
}

impl DirectionalInput {
    /// The signals as a vector: right and up count as positive, and
    /// opposite signals cancel.
    pub open spec fn spec_raw_direction(self) -> Vec2 {
        Vec2 { x: axis(self.right, self.left), y: axis(self.up, self.down) }
    }

    /// The direction the player wants to go: the raw direction at unit
    /// length, or zero.
    pub open spec fn spec_direction(self) -> Vec2 {
        self.spec_raw_direction().spec_normalize_or_zero()
    }

    /// The signals as a vector.
    pub fn raw_direction(&self) -> (d: Vec2)
        ensures
            d == self.spec_raw_direction(),
    {
        let mut d = Vec2::zero();
        if self.up {
            d.y = d.y + ONE;
        }
        if self.down {
            d.y = d.y - ONE;
        }
        if self.left {
            d.x = d.x - ONE;
        }
        if self.right {
            d.x = d.x + ONE;
        }
        d
    }

    /// The direction the player wants to go, at unit length or zero. It has
    /// a component on an axis exactly if one signal of that axis is held
    /// alone.
    pub fn direction(&self) -> (d: Vec2)
        ensures
            d == self.spec_direction(),
            d.x == wanted_component(self.spec_raw_direction().x, self.spec_raw_direction().y),
            d.y == wanted_component(self.spec_raw_direction().y, self.spec_raw_direction().x),
            d.x == 0 <==> self.left == self.right,
            d.y == 0 <==> self.up == self.down,
    {
        proof {
            lemma_direction(*self);
        }
        self.raw_direction().normalize_or_zero()
    }
}

/// The wanted direction is the raw one along a single axis, and has the
/// same length on both axes along a diagonal. It has a component on an axis
/// exactly if one of the two signals of that axis is held alone, so an axis
/// is damped exactly if it has no input. Normalizing it once more, as the
/// acceleration step does, changes nothing.
pub proof fn lemma_direction(input: DirectionalInput)
    ensures
        input.spec_direction().x == wanted_component(
            input.spec_raw_direction().x,
            input.spec_raw_direction().y,
        ),
        input.spec_direction().y == wanted_component(
            input.spec_raw_direction().y,
            input.spec_raw_direction().x,
        ),
        input.spec_direction().x == 0 <==> input.left == input.right,
        input.spec_direction().y == 0 <==> input.up == input.down,
        input.spec_direction().spec_normalize_or_zero() == input.spec_direction(),
{
    let raw = input.spec_raw_direction();
    let wanted = input.spec_direction();
    let a = magnitude(raw.x as int);
    let b = magnitude(raw.y as int);
    // One unit, as a larger component, is amplified by 2^42; so is a
    // diagonal component.
    let f: nat = 4_398_046_511_104;
    reveal_with_fuel(amplifier, 43);
    assert(amplifier(1_000_000) == f);
    assert(amplifier(707_106) == f);
    if a != 0 && b != 0 {
        let s: nat = 6_219_777_023_950_949_771;
        lemma_amplified_unit(a);
        lemma_amplified_unit(b);
        assert(s * s >= 38_685_626_227_668_133_590_597_632_000_000_000_000 > (s - 1) * (s - 1))
            by (nonlinear_arith)
            requires
                s == 6_219_777_023_950_949_771,
        ;
        raw.lemma_normalized_components(f, s);
        assert(4_398_046_511_104_000_000_000_000int / 6_219_777_023_950_949_771 == 707_106);
        // Once more: the diagonal direction is a little short of one unit,
        // and comes out as it went in.
        let t: nat = 4_398_041_652_297_860_289;
        lemma_amplified_diagonal(magnitude(wanted.x as int));
        lemma_amplified_diagonal(magnitude(wanted.y as int));
        assert(t * t >= 19_342_770_375_346_893_011_740_877_916_997_681_152 > (t - 1) * (t - 1))
            by (nonlinear_arith)
            requires
                t == 4_398_041_652_297_860_289,
        ;
        wanted.lemma_normalized_components(f, t);
        assert(3_109_885_076_280_705_024_000_000int / 4_398_041_652_297_860_289 == 707_106);
    } else if a != 0 || b != 0 {
        let s: nat = 4_398_046_511_104_000_000;
        if a != 0 {
            lemma_amplified_unit(a);
            lemma_amplified_nothing(b);
        } else {
            lemma_amplified_nothing(a);
            lemma_amplified_unit(b);
        }
        assert(s * s == 19_342_813_113_834_066_795_298_816_000_000_000_000 > (s - 1) * (s - 1))
            by (nonlinear_arith)
            requires
                s == 4_398_046_511_104_000_000,
        ;
        raw.lemma_normalized_components(f, s);
        assert(4_398_046_511_104_000_000_000_000int / 4_398_046_511_104_000_000 == 1_000_000);
        assert(0int / 4_398_046_511_104_000_000 == 0);
        assert(wanted == raw);
    }
}

/// One unit amplified by 2^42: its square, and its product with one.
proof fn lemma_amplified_unit(a: nat)
    requires
        a == ONE,
    ensures
        (a * 4_398_046_511_104) * (a * 4_398_046_511_104)
            == 19_342_813_113_834_066_795_298_816_000_000_000_000,
        (a * 4_398_046_511_104) as int * ONE == 4_398_046_511_104_000_000_000_000,
{
    assert((a * 4_398_046_511_104) * (a * 4_398_046_511_104)
        == 19_342_813_113_834_066_795_298_816_000_000_000_000 && (a * 4_398_046_511_104)
        * 1_000_000 == 4_398_046_511_104_000_000_000_000) by (nonlinear_arith)
        requires
            a == 1_000_000,
    ;
}

/// A diagonal component amplified by 2^42: its square, and its product
/// with one.
proof fn lemma_amplified_diagonal(a: nat)
    requires
        a == DIAGONAL,
    ensures
        (a * 4_398_046_511_104) * (a * 4_398_046_511_104)
            == 9_671_385_187_673_446_505_870_438_958_498_840_576,
        (a * 4_398_046_511_104) as int * ONE == 3_109_885_076_280_705_024_000_000,
{
    assert((a * 4_398_046_511_104) * (a * 4_398_046_511_104)
        == 9_671_385_187_673_446_505_870_438_958_498_840_576 && (a * 4_398_046_511_104)
        * 1_000_000 == 3_109_885_076_280_705_024_000_000) by (nonlinear_arith)
        requires
            a == 707_106,
    ;
}

/// No component, amplified, is none.
proof fn lemma_amplified_nothing(a: nat)
    requires
        a == 0,
    ensures
        (a * 4_398_046_511_104) * (a * 4_398_046_511_104) == 0,
        (a * 4_398_046_511_104) as int * ONE == 0,
{
    assert((a * 4_398_046_511_104) * (a * 4_398_046_511_104) == 0 && (a * 4_398_046_511_104)
        * 1_000_000 == 0) by (nonlinear_arith)
        requires
            a == 0,
    ;
}

/// The player: where it is and how it moves.
#[derive(Clone, Copy, Debug, PartialEq, Eq, Structural)]
pub struct Player {
    pub position: Vec2,
    pub movable: Movable,
}

/// The player after one tick with the given signals: the velocity goes
/// through the tick, the position moves with it and is pulled back between
/// the walls.
pub open spec fn player_after(player: Player, input: DirectionalInput, delta_seconds: i64) -> Player {
    let velocity = tick_velocity(
        player.movable.velocity,
        input.spec_direction(),
        spec_player_tunables(),
        delta_seconds,
    );
    Player {
        position: Bounds::spec_inside_walls(PLAYER_DIAMETER).spec_clamp(
            displaced(player.position, velocity, elapsed(delta_seconds)),
        ),
        movable: Movable { velocity },
    }
}

impl Player {
    /// The player at the centre of the arena, at rest.
    pub fn new() -> (player: Player)
        ensures
            player.position == Vec2::spec_zero(),
            player.movable.velocity == Vec2::spec_zero(),
    {
        Player { position: Vec2::zero(), movable: Movable::new() }
    }
}

/// Moves the player by one tick. The walls correct only the position: the
/// velocity may still point into a wall that holds the player.
pub fn move_player(player: &mut Player, input: DirectionalInput, delta_seconds: i64)
    ensures
        *final(player) == player_after(*old(player), input, delta_seconds),
        Bounds::spec_inside_walls(PLAYER_DIAMETER).contains(final(player).position),
        final(player).movable.velocity.spec_length_squared() <= PLAYER_MAX_SPEED
            * PLAYER_MAX_SPEED,
{
    let direction: Vec2 = input.direction();
    let mut movable: Movable = player.movable;
    let mut position: Vec2 = player.position;
    movable.step(&mut position, direction, player_tunables(), delta_seconds);
    let bounds: Bounds = Bounds::inside_walls(PLAYER_DIAMETER);
    player.position = bounds.clamp(position);
    player.movable = movable;
}

} // verus!
