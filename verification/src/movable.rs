//! The kinematic state of a moving entity and the four operations of a tick:
//! accelerate, damp the idle axes, cap the speed, move.

use crate::fixed::{
    lemma_div_toward_zero_by_magnitude, lemma_product_of_zero, lemma_product_with_fraction,
    lemma_product_with_one, lemma_quotient_brackets, magnitude, product, saturate,
    saturating_difference, scaled_product, ONE,
};
use crate::sqrt::lemma_square_monotonic;
use crate::vec2::{Vec2, AMPLE};
use vstd::prelude::*;

verus! {

/// What an entity kind is configured with: acceleration in units per
/// second squared, top speed in units per second, and the decay rate per
/// second of an axis without input.
#[derive(Clone, Copy, Debug, PartialEq, Eq, Structural)]
pub struct MovementTunables {
    pub acceleration: i64,
    pub max_speed: i64,
    pub damping: i64,
}

impl MovementTunables {
    /// Whether the top speed is one that a velocity can keep to: not
    /// negative.
    pub open spec fn well_formed(self) -> bool {
        self.max_speed >= 0
    }
}

/// The velocity of an entity, in units per second.
#[derive(Clone, Copy, Debug, PartialEq, Eq, Structural)]
pub struct Movable {
    pub velocity: Vec2,
}

/// The velocity after accelerating for `delta_seconds` along `direction`,
/// which is normalized first.
pub open spec fn accelerated(
    velocity: Vec2,
    direction: Vec2,
    acceleration: i64,
    delta_seconds: i64,
) -> Vec2 {
    velocity.spec_plus(
        direction.spec_normalize_or_zero().spec_scaled(acceleration).spec_scaled(delta_seconds),
    )
}

/// The factor by which an idle axis decays: `1 - damping * delta_seconds`,
/// but never below zero.
pub open spec fn damping_factor(damping: i64, delta_seconds: i64) -> i64 {
    let factor = saturate(ONE - product(damping as int, delta_seconds as int));
    if factor < 0 {
        0
    } else {
        factor as i64
    }
}

/// One component after decay by `factor`: below one unit per second it
/// comes to rest.
pub open spec fn damped_component(component: i64, factor: i64) -> i64 {
    let decayed = product(component as int, factor as int);
    if -ONE < decayed < ONE {
        0
    } else {
        decayed as i64
    }
}

/// The velocity after damping: an axis decays exactly if `direction` has no
/// component along it.
pub open spec fn damped(velocity: Vec2, direction: Vec2, damping: i64, delta_seconds: i64) -> Vec2 {
    let factor = damping_factor(damping, delta_seconds);
    Vec2 {
        x: if direction.x == 0 {
            damped_component(velocity.x, factor)
        } else {
            velocity.x
        },
        y: if direction.y == 0 {
            damped_component(velocity.y, factor)
        } else {
            velocity.y
        },
    }
}

/// How a component damped by `factor` relates to what it was. With a factor
/// of at most one it gets no faster, keeps its sense, and rests if it was
/// below one unit per second; with a factor below one it gets strictly
/// slower unless it was at rest.
pub open spec fn slowed(before: i64, after: i64, factor: i64) -> bool {
    &&& 0 <= factor <= ONE ==> {
        &&& magnitude(after as int) <= magnitude(before as int)
        &&& -ONE < before < ONE ==> after == 0
        &&& before >= 0 ==> after >= 0
        &&& before <= 0 ==> after <= 0
    }
    &&& 0 <= factor < ONE && before != 0 ==> magnitude(after as int) < magnitude(before as int)
}

/// The velocity capped at `max_speed`: a faster one is brought to that
/// length, any other is kept.
pub open spec fn clamped(velocity: Vec2, max_speed: i64) -> Vec2 {
    if velocity.spec_length_squared() > max_speed * max_speed {
        velocity.spec_with_length(max_speed as nat)
    } else {
        velocity
    }
}

/// Whether `after` is `before` with its speed capped: it points where
/// `before` does, and no component is larger than it was.
pub open spec fn same_heading(before: Vec2, after: Vec2) -> bool {
    &&& before.spec_points_along(after)
    &&& magnitude(after.x as int) <= magnitude(before.x as int)
    &&& magnitude(after.y as int) <= magnitude(before.y as int)
}

/// The position after moving at `velocity` for `delta_seconds`.
pub open spec fn displaced(position: Vec2, velocity: Vec2, delta_seconds: i64) -> Vec2 {
    position.spec_plus(velocity.spec_scaled(delta_seconds))
}

/// The time that a tick lasts: a negative step counts as none.
pub open spec fn elapsed(delta_seconds: i64) -> i64 {
    if delta_seconds < 0 {
        0
    } else {
        delta_seconds
    }
}

/// The velocity after one tick: accelerated, then damped, then capped.
pub open spec fn tick_velocity(
    velocity: Vec2,
    direction: Vec2,
    tunables: MovementTunables,
    delta_seconds: i64,
) -> Vec2 {
    clamped(
        damped(
            accelerated(velocity, direction, tunables.acceleration, elapsed(delta_seconds)),
            direction,
            tunables.damping,
            elapsed(delta_seconds),
        ),
        tunables.max_speed,
    )
}

/// The velocity after a run of ticks, each given by its direction and its
/// time step.
pub open spec fn velocity_after(
    velocity: Vec2,
    ticks: Seq<(Vec2, i64)>,
    tunables: MovementTunables,
) -> Vec2
    decreases ticks.len(),
{
    if ticks.len() == 0 {
        velocity
    } else {
        tick_velocity(
            velocity_after(velocity, ticks.drop_last(), tunables),
            ticks.last().0,
            tunables,
            ticks.last().1,
        )
    }
}

/// One component after `ticks` rounds of decay by `factor`.
pub open spec fn decayed(component: i64, factor: i64, ticks: nat) -> i64
    decreases ticks,
{
    if ticks == 0 {
        component
    } else {
        damped_component(decayed(component, factor, (ticks - 1) as nat), factor)
    }
}

/// The decay factor of an idle axis. It is never negative, and at most one
/// when neither the damping nor the time step is negative.
pub fn damping_factor_of(damping: i64, delta_seconds: i64) -> (factor: i64)
    ensures
        factor == damping_factor(damping, delta_seconds),
        factor >= 0,
        damping >= 0 && delta_seconds >= 0 ==> factor <= ONE,
{
    proof {
        lemma_damping_factor(damping, delta_seconds);
    }
    let factor: i64 = saturating_difference(ONE, scaled_product(damping, delta_seconds));
    if factor < 0 {
        0
    } else {
        factor
    }
}

/// One component after decay by `factor`.
pub fn damp_component(component: i64, factor: i64) -> (after: i64)
    ensures
        after == damped_component(component, factor),
        slowed(component, after, factor),
{
    let decayed: i64 = scaled_product(component, factor);
    proof {
        lemma_decay_slows(component, factor);
    }
    if -ONE < decayed && decayed < ONE {
        0
    } else {
        decayed
    }
}

impl Movable {
    /// A state at rest.
    pub fn new() -> (movable: Movable)
        ensures
            movable.velocity == Vec2::spec_zero(),
    {
        Movable { velocity: Vec2::zero() }
    }

    /// Adds `acceleration * delta_seconds` along the normalized `direction`
    /// to the velocity. The zero direction stands for "no input" and changes
    /// nothing.
    pub fn apply_acceleration(&mut self, direction: Vec2, acceleration: i64, delta_seconds: i64)
        ensures
            final(self).velocity == accelerated(
                old(self).velocity,
                direction,
                acceleration,
                delta_seconds,
            ),
            direction == Vec2::spec_zero() ==> final(self).velocity == old(self).velocity,
    {
        let accel_world: Vec2 = direction.normalize_or_zero().scaled(acceleration);
        proof {
            lemma_product_of_zero(acceleration as int);
            lemma_product_of_zero(delta_seconds as int);
        }
        self.velocity = self.velocity.plus(accel_world.scaled(delta_seconds));
    }

    /// Lets each axis without input decay by the factor
    /// `max(0, 1 - damping * delta_seconds)` and brings it to rest once it is
    /// slower than one unit per second. An axis with input is left alone.
    ///
    /// With a factor of at most one, which any time step that is not
    /// negative gives, a damped axis gets no faster, keeps its sense and
    /// rests once it is below one unit per second; with a factor below one,
    /// a damped axis that moves gets strictly slower.
    pub fn apply_axis_damping(&mut self, input_direction: Vec2, damping: i64, delta_seconds: i64)
        ensures
            final(self).velocity == damped(
                old(self).velocity,
                input_direction,
                damping,
                delta_seconds,
            ),
            input_direction.x != 0 ==> final(self).velocity.x == old(self).velocity.x,
            input_direction.y != 0 ==> final(self).velocity.y == old(self).velocity.y,
            input_direction.x == 0 ==> slowed(
                old(self).velocity.x,
                final(self).velocity.x,
                damping_factor(damping, delta_seconds),
            ),
            input_direction.y == 0 ==> slowed(
                old(self).velocity.y,
                final(self).velocity.y,
                damping_factor(damping, delta_seconds),
            ),
    {
        let factor: i64 = damping_factor_of(damping, delta_seconds);
        if input_direction.x == 0 {
            self.velocity.x = damp_component(self.velocity.x, factor);
        }
        if input_direction.y == 0 {
            self.velocity.y = damp_component(self.velocity.y, factor);
        }
    }

    /// Caps the speed: a velocity longer than `max_speed` is brought to that
    /// length, in the same direction; any other is kept.
    ///
    /// The result is never longer than `max_speed`, no component grows or
    /// changes sign, and the result lies on the ray of the old velocity up to
    /// rounding. A velocity that was longer than `max_speed` ends with that
    /// length up to rounding, and so is not brought to rest by a cap of
    /// three raw steps or more.
    pub fn clamp_max_speed(&mut self, max_speed: i64)
        requires
            max_speed >= 0,
        ensures
            final(self).velocity == clamped(old(self).velocity, max_speed),
            final(self).velocity.spec_length_squared() <= max_speed * max_speed,
            same_heading(old(self).velocity, final(self).velocity),
            old(self).velocity.spec_length_squared() > max_speed * max_speed ==> {
                &&& final(self).velocity.spec_has_length(max_speed as nat)
                &&& max_speed >= 3 ==> final(self).velocity != Vec2::spec_zero()
            },
    {
        let speed_squared: u128 = self.velocity.length_squared();
        let cap: u64 = max_speed as u64;
        proof {
            lemma_square_monotonic(cap as nat, 0x7fff_ffff_ffff_ffff);
            lemma_clamped(self.velocity, max_speed);
        }
        if speed_squared > (cap as u128) * (cap as u128) {
            self.velocity = self.velocity.with_length(cap);
        }
    }

    /// Moves `position` by the velocity times `delta_seconds`. The arena's
    /// bounds are not its concern.
    pub fn integrate_position(&self, position: &mut Vec2, delta_seconds: i64)
        ensures
            *final(position) == displaced(*old(position), self.velocity, delta_seconds),
    {
        let step: Vec2 = self.velocity.scaled(delta_seconds);
        *position = position.plus(step);
    }

    /// One tick: accelerate along `direction`, damp the axes on which
    /// `direction` has no component, cap the speed, then move `position` at
    /// the resulting velocity. A negative `delta_seconds` counts as no time.
    ///
    /// The velocity ends within `max_speed`; an entity at rest with no
    /// direction stays where it is, at rest.
    pub fn step(
        &mut self,
        position: &mut Vec2,
        direction: Vec2,
        tunables: MovementTunables,
        delta_seconds: i64,
    )
        requires
            tunables.well_formed(),
        ensures
            final(self).velocity == tick_velocity(
                old(self).velocity,
                direction,
                tunables,
                delta_seconds,
            ),
            *final(position) == displaced(
                *old(position),
                final(self).velocity,
                elapsed(delta_seconds),
            ),
            final(self).velocity.spec_length_squared() <= tunables.max_speed * tunables.max_speed,
            old(self).velocity == Vec2::spec_zero() && direction == Vec2::spec_zero() ==> {
                &&& final(self).velocity == Vec2::spec_zero()
                &&& *final(position) == *old(position)
            },
    {
        let dt: i64 = if delta_seconds < 0 {
            0
        } else {
            delta_seconds
        };
        proof {
            lemma_tick_at_rest(tunables, delta_seconds);
            lemma_product_of_zero(dt as int);
        }
        self.apply_acceleration(direction, tunables.acceleration, dt);
        self.apply_axis_damping(direction, tunables.damping, dt);
        self.clamp_max_speed(tunables.max_speed);
        self.integrate_position(position, dt);
    }
}

impl Default for Movable {
    /// A state at rest.
    fn default() -> (movable: Movable)
        ensures
            movable.velocity == Vec2::spec_zero(),
    {
        Movable { velocity: Vec2::zero() }
    }
}

/// The decay factor is never negative, and at most one when neither the
/// damping nor the time step is negative.
pub proof fn lemma_damping_factor(damping: i64, delta_seconds: i64)
    ensures
        damping_factor(damping, delta_seconds) >= 0,
        damping >= 0 && delta_seconds >= 0 ==> damping_factor(damping, delta_seconds) <= ONE,
{
    if damping >= 0 && delta_seconds >= 0 {
        lemma_div_toward_zero_by_magnitude(damping as int, delta_seconds as nat, ONE as nat);
        lemma_quotient_brackets(
            magnitude(damping as int) * (delta_seconds as nat),
            ONE as nat,
        );
    }
}

/// Decay slows a component down, as far as the factor allows.
pub proof fn lemma_decay_slows(component: i64, factor: i64)
    ensures
        slowed(component, damped_component(component, factor), factor),
{
    if 0 <= factor < ONE {
        lemma_product_with_fraction(component, factor);
    } else if factor == ONE {
        lemma_product_with_one(component);
    }
}

/// With a factor below one, a round of decay either brings a component to
/// rest or takes at least `ONE - factor` raw steps off its magnitude.
pub proof fn lemma_decay_takes_a_step(component: i64, factor: i64)
    requires
        0 <= factor < ONE,
    ensures
        damped_component(component, factor) == 0 || magnitude(
            damped_component(component, factor) as int,
        ) + (ONE - factor) <= magnitude(component as int),
{
    let m = magnitude(component as int);
    let q = magnitude(product(component as int, factor as int));
    lemma_product_with_fraction(component, factor);
    lemma_div_toward_zero_by_magnitude(component as int, factor as nat, ONE as nat);
    lemma_quotient_brackets(m * (factor as nat), ONE as nat);
    if q >= ONE {
        assert(q + (ONE - factor) <= m) by (nonlinear_arith)
            requires
                q * ONE <= m * factor,
                0 <= factor < ONE,
                ONE <= q <= m,
        ;
    }
}

/// After `ticks` rounds of decay a component is at rest or has lost
/// `ONE - factor` raw steps of magnitude in each.
proof fn lemma_decay_progress(component: i64, factor: i64, ticks: nat)
    requires
        0 <= factor < ONE,
    ensures
        decayed(component, factor, ticks) == 0 || magnitude(
            decayed(component, factor, ticks) as int,
        ) + ticks * (ONE - factor) <= magnitude(component as int),
    decreases ticks,
{
    if ticks > 0 {
        let before = decayed(component, factor, (ticks - 1) as nat);
        lemma_decay_progress(component, factor, (ticks - 1) as nat);
        lemma_decay_takes_a_step(before, factor);
        lemma_product_of_zero(factor as int);
        assert(ticks * (ONE - factor) == (ticks - 1) * (ONE - factor) + (ONE - factor))
            by (nonlinear_arith);
        assert((ticks - 1) * (ONE - factor) >= 0) by (nonlinear_arith)
            requires
                ticks >= 1,
                factor < ONE,
        ;
    } else {
        assert(ticks * (ONE - factor) == 0) by (nonlinear_arith)
            requires
                ticks == 0,
        ;
    }
}

/// An idle axis comes to rest in finite time: with a factor below one, a
/// component is at rest after any number of ticks that, at `ONE - factor`
/// raw steps each, cover its magnitude.
pub proof fn lemma_decay_comes_to_rest(component: i64, factor: i64, ticks: nat)
    requires
        0 <= factor < ONE,
        ticks * (ONE - factor) >= magnitude(component as int),
    ensures
        decayed(component, factor, ticks) == 0,
{
    lemma_decay_progress(component, factor, ticks);
}

/// The acceleration step adds the acceleration times the time step along
/// a vector that points along `direction` and, unless `direction` is zero,
/// is one unit long up to rounding, however long or short `direction` is.
pub proof fn lemma_accelerated(
    velocity: Vec2,
    direction: Vec2,
    acceleration: i64,
    delta_seconds: i64,
)
    ensures
        accelerated(velocity, direction, acceleration, delta_seconds) == velocity.spec_plus(
            direction.spec_normalize_or_zero().spec_scaled(acceleration).spec_scaled(
                delta_seconds,
            ),
        ),
        direction.spec_points_along(direction.spec_normalize_or_zero()),
        direction != Vec2::spec_zero() ==> direction.spec_normalize_or_zero().spec_has_length(
            ONE as nat,
        ),
        direction == Vec2::spec_zero() ==> accelerated(
            velocity,
            direction,
            acceleration,
            delta_seconds,
        ) == velocity,
{
    if direction != Vec2::spec_zero() {
        direction.lemma_with_length(ONE as nat);
    } else {
        lemma_product_of_zero(acceleration as int);
        lemma_product_of_zero(delta_seconds as int);
    }
}

/// The acceleration step does not depend on the scale of the direction:
/// a direction short of `AMPLE` and its double give the same velocity.
pub proof fn lemma_accelerated_of_double(
    velocity: Vec2,
    direction: Vec2,
    acceleration: i64,
    delta_seconds: i64,
)
    requires
        direction.spec_larger_magnitude() < AMPLE,
    ensures
        accelerated(
            velocity,
            Vec2 { x: (2 * direction.x) as i64, y: (2 * direction.y) as i64 },
            acceleration,
            delta_seconds,
        ) == accelerated(velocity, direction, acceleration, delta_seconds),
{
    direction.lemma_with_length_of_double(ONE as nat);
}

/// A capped velocity is within the cap and keeps its heading; one that was
/// beyond the cap has the cap's length up to rounding.
pub proof fn lemma_clamped(velocity: Vec2, max_speed: i64)
    requires
        max_speed >= 0,
    ensures
        clamped(velocity, max_speed).spec_length_squared() <= max_speed * max_speed,
        same_heading(velocity, clamped(velocity, max_speed)),
        velocity.spec_length_squared() > max_speed * max_speed ==> clamped(
            velocity,
            max_speed,
        ).spec_has_length(max_speed as nat),
        velocity.spec_length_squared() > max_speed * max_speed && max_speed >= 3 ==> clamped(
            velocity,
            max_speed,
        ) != Vec2::spec_zero(),
{
    assert(max_speed * max_speed >= 0) by (nonlinear_arith);
    if velocity.spec_length_squared() > max_speed * max_speed {
        velocity.lemma_with_length(max_speed as nat);
        if max_speed >= 3 {
            assert(max_speed * max_speed >= 9) by (nonlinear_arith)
                requires
                    max_speed >= 3,
            ;
            let two = magnitude(0) + 2;
            assert(two * two == 4) by (nonlinear_arith)
                requires
                    two == 2,
            ;
        }
    } else if velocity != Vec2::spec_zero() {
        velocity.lemma_length_bounds();
        assert(velocity.x * velocity.y - velocity.y * velocity.x == 0) by (nonlinear_arith);
    }
}

/// A tick without direction leaves an entity at rest at rest.
pub proof fn lemma_tick_at_rest(tunables: MovementTunables, delta_seconds: i64)
    ensures
        tick_velocity(Vec2::spec_zero(), Vec2::spec_zero(), tunables, delta_seconds)
            == Vec2::spec_zero(),
{
    lemma_product_of_zero(tunables.acceleration as int);
    lemma_product_of_zero(elapsed(delta_seconds) as int);
    lemma_product_of_zero(damping_factor(tunables.damping, elapsed(delta_seconds)) as int);
    assert(tunables.max_speed * tunables.max_speed >= 0) by (nonlinear_arith);
}

/// Rest is kept: from velocity zero, any run of ticks without direction
/// ends at velocity zero.
pub proof fn lemma_rest_is_kept(ticks: Seq<(Vec2, i64)>, tunables: MovementTunables)
    requires
        forall|i: int| 0 <= i < ticks.len() ==> (#[trigger] ticks[i]).0 == Vec2::spec_zero(),
    ensures
        velocity_after(Vec2::spec_zero(), ticks, tunables) == Vec2::spec_zero(),
    decreases ticks.len(),
{
    if ticks.len() > 0 {
        lemma_rest_is_kept(ticks.drop_last(), tunables);
        lemma_tick_at_rest(tunables, ticks.last().1);
    }
}

/// After every tick the speed is within the cap, whatever the velocity was
/// at the start and whatever the directions and time steps were.
pub proof fn lemma_speed_is_capped(
    velocity: Vec2,
    ticks: Seq<(Vec2, i64)>,
    tunables: MovementTunables,
)
    requires
        tunables.well_formed(),
        ticks.len() > 0,
    ensures
        velocity_after(velocity, ticks, tunables).spec_length_squared() <= tunables.max_speed
            * tunables.max_speed,
{
    let before = velocity_after(velocity, ticks.drop_last(), tunables);
    let dt = elapsed(ticks.last().1);
    lemma_clamped(
        damped(
            accelerated(before, ticks.last().0, tunables.acceleration, dt),
            ticks.last().0,
            tunables.damping,
            dt,
        ),
        tunables.max_speed,
    );
}

} // verus!
