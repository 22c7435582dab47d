use arena_kinematics::fixed::ONE;
use arena_kinematics::movable::{damp_component, damping_factor_of, Movable, MovementTunables};
use arena_kinematics::vec2::Vec2;

fn player_like() -> MovementTunables {
    MovementTunables { acceleration: 600 * ONE, max_speed: 400 * ONE, damping: 2 * ONE }
}

fn length_squared(v: Vec2) -> i128 {
    (v.x as i128) * (v.x as i128) + (v.y as i128) * (v.y as i128)
}

#[test]
fn new_movable_is_at_rest() {
    assert_eq!(Movable::new().velocity, Vec2::new(0, 0));
    assert_eq!(Movable::default(), Movable::new());
    assert_eq!(Vec2::default(), Vec2::zero());
}

#[test]
fn full_second_of_acceleration_is_capped_before_moving() {
    let t = player_like();
    let mut m = Movable::new();
    let mut position = Vec2::new(0, 0);
    let direction = Vec2::new(ONE, 0);

    m.apply_acceleration(direction, t.acceleration, ONE);
    assert_eq!(m.velocity, Vec2::new(600 * ONE, 0));
    m.apply_axis_damping(direction, t.damping, ONE);
    assert_eq!(m.velocity, Vec2::new(600 * ONE, 0));
    m.clamp_max_speed(t.max_speed);
    assert_eq!(m.velocity, Vec2::new(400 * ONE, 0));
    m.integrate_position(&mut position, ONE);
    assert_eq!(position, Vec2::new(400 * ONE, 0));
}

#[test]
fn step_runs_the_four_operations_in_order() {
    let mut m = Movable::new();
    let mut position = Vec2::new(0, 0);
    m.step(&mut position, Vec2::new(ONE, 0), player_like(), ONE);
    assert_eq!(m.velocity, Vec2::new(400 * ONE, 0));
    assert_eq!(position, Vec2::new(400 * ONE, 0));
}

#[test]
fn idle_axis_decays_while_active_axis_accelerates() {
    let t = player_like();
    let mut m = Movable { velocity: Vec2::new(100 * ONE, 50 * ONE) };
    let direction = Vec2::new(ONE, 0);
    let dt = ONE / 10;

    m.apply_acceleration(direction, t.acceleration, dt);
    assert_eq!(m.velocity, Vec2::new(160 * ONE, 50 * ONE));
    m.apply_axis_damping(direction, t.damping, dt);
    assert_eq!(m.velocity, Vec2::new(160 * ONE, 40 * ONE));
}

#[test]
fn acceleration_does_not_depend_on_the_distance_to_the_target() {
    let mut near = Movable::new();
    near.apply_acceleration(Vec2::new(3 * ONE, 4 * ONE), 400 * ONE, ONE);
    assert_eq!(near.velocity, Vec2::new(240 * ONE, 320 * ONE));
    assert_eq!(length_squared(near.velocity), (400 * ONE as i128) * (400 * ONE as i128));

    let mut far = Movable::new();
    far.apply_acceleration(Vec2::new(300 * ONE, 400 * ONE), 400 * ONE, ONE);
    assert_eq!(far.velocity, near.velocity);
}

#[test]
fn acceleration_is_full_for_the_shortest_directions() {
    let mut unit = Movable::new();
    unit.apply_acceleration(Vec2::new(ONE, ONE), 400 * ONE, ONE);
    assert_eq!(unit.velocity, Vec2::new(282_842_400, 282_842_400));

    for direction in [Vec2::new(1, 1), Vec2::new(1000, 1000), Vec2::new(1 << 50, 1 << 50)] {
        let mut m = Movable::new();
        m.apply_acceleration(direction, 400 * ONE, ONE);
        assert_eq!(m.velocity, unit.velocity);
    }

    let mut skew = Movable { velocity: Vec2::new(ONE, -ONE) };
    skew.apply_acceleration(Vec2::new(-2, 1), 400 * ONE, ONE / 2);
    assert_eq!(skew.velocity, Vec2::new(ONE - 178_885_400, -ONE + 89_442_600));
}

#[test]
fn zero_direction_accelerates_nothing() {
    let mut m = Movable { velocity: Vec2::new(-7 * ONE, 13 * ONE + 1) };
    m.apply_acceleration(Vec2::new(0, 0), 600 * ONE, ONE);
    assert_eq!(m.velocity, Vec2::new(-7 * ONE, 13 * ONE + 1));
}

#[test]
fn zero_time_accelerates_nothing() {
    let mut m = Movable { velocity: Vec2::new(5 * ONE, 0) };
    m.apply_acceleration(Vec2::new(ONE, ONE), 600 * ONE, 0);
    assert_eq!(m.velocity, Vec2::new(5 * ONE, 0));
}

#[test]
fn damping_factor_follows_its_formula() {
    assert_eq!(damping_factor_of(2 * ONE, ONE / 10), 800_000);
    assert_eq!(damping_factor_of(2 * ONE, 0), ONE);
    assert_eq!(damping_factor_of(2 * ONE, ONE / 2), 0);
    assert_eq!(damping_factor_of(2 * ONE, ONE), 0);
    assert_eq!(damping_factor_of(2 * ONE, -ONE), 3 * ONE);
    assert_eq!(damping_factor_of(i64::MIN, i64::MAX), i64::MAX);
}

#[test]
fn damped_component_comes_to_rest_below_one_unit() {
    assert_eq!(damp_component(50 * ONE, 800_000), 40 * ONE);
    assert_eq!(damp_component(-50 * ONE, 800_000), -40 * ONE);
    // 1.25 * 0.8 is exactly one: still moving.
    assert_eq!(damp_component(1_250_000, 800_000), ONE);
    assert_eq!(damp_component(-1_250_000, 800_000), -ONE);
    // Just below: at rest.
    assert_eq!(damp_component(1_249_999, 800_000), 0);
    assert_eq!(damp_component(-1_249_999, 800_000), 0);
    assert_eq!(damp_component(ONE - 1, ONE), 0);
    assert_eq!(damp_component(0, 800_000), 0);
    assert_eq!(damp_component(400 * ONE, 0), 0);
}

#[test]
fn damping_touches_only_the_axes_without_input() {
    let mut m = Movable { velocity: Vec2::new(100 * ONE, 50 * ONE) };
    m.apply_axis_damping(Vec2::new(0, -ONE), 2 * ONE, ONE / 10);
    assert_eq!(m.velocity, Vec2::new(80 * ONE, 50 * ONE));

    let mut both = Movable { velocity: Vec2::new(100 * ONE, -50 * ONE) };
    both.apply_axis_damping(Vec2::new(0, 0), 2 * ONE, ONE / 10);
    assert_eq!(both.velocity, Vec2::new(80 * ONE, -40 * ONE));

    let mut neither = Movable { velocity: Vec2::new(100 * ONE, -50 * ONE) };
    neither.apply_axis_damping(Vec2::new(1, -1), 2 * ONE, ONE / 10);
    assert_eq!(neither.velocity, Vec2::new(100 * ONE, -50 * ONE));
}

#[test]
fn damped_axis_gets_strictly_slower_until_it_rests() {
    let mut m = Movable { velocity: Vec2::new(300 * ONE, 0) };
    let mut ticks = 0;
    while m.velocity.x != 0 {
        let before = m.velocity.x;
        m.apply_axis_damping(Vec2::new(0, 0), 2 * ONE, ONE / 64);
        assert!(m.velocity.x.abs() < before.abs());
        assert!(m.velocity.x == 0 || m.velocity.x >= ONE);
        ticks += 1;
        assert!(ticks < 1000);
    }
    assert!(ticks > 1);
}

#[test]
fn damping_without_elapsed_time_keeps_a_moving_axis() {
    let mut m = Movable { velocity: Vec2::new(5 * ONE, 0) };
    m.apply_axis_damping(Vec2::new(0, 0), 2 * ONE, 0);
    assert_eq!(m.velocity, Vec2::new(5 * ONE, 0));
}

#[test]
fn slow_axis_rests_even_without_elapsed_time() {
    let mut m = Movable { velocity: Vec2::new(ONE - 1, -ONE) };
    m.apply_axis_damping(Vec2::new(0, 0), 2 * ONE, 0);
    assert_eq!(m.velocity, Vec2::new(0, -ONE));
}

#[test]
fn negative_time_makes_the_factor_grow_an_idle_axis() {
    let mut m = Movable { velocity: Vec2::new(5 * ONE, ONE / 2) };
    m.apply_axis_damping(Vec2::new(0, 0), 2 * ONE, -ONE);
    assert_eq!(m.velocity, Vec2::new(15 * ONE, 1_500_000));
}

#[test]
fn damped_axis_rests_within_the_steps_that_cover_its_speed() {
    let factor = damping_factor_of(2 * ONE, ONE / 64);
    assert_eq!(factor, 968_750);
    let start = 400 * ONE;
    let bound = (start + (ONE - factor) - 1) / (ONE - factor);
    let mut v = start;
    let mut ticks = 0;
    while v != 0 {
        v = damp_component(v, factor);
        ticks += 1;
    }
    assert!(ticks <= bound);
    assert_eq!(ticks, 189);
}

#[test]
fn clamp_keeps_a_velocity_within_the_cap() {
    let mut m = Movable { velocity: Vec2::new(300 * ONE, -400 * ONE) };
    m.clamp_max_speed(500 * ONE);
    assert_eq!(m.velocity, Vec2::new(300 * ONE, -400 * ONE));
    m.clamp_max_speed(i64::MAX);
    assert_eq!(m.velocity, Vec2::new(300 * ONE, -400 * ONE));
}

#[test]
fn clamp_rescales_a_faster_velocity_along_its_direction() {
    let mut m = Movable { velocity: Vec2::new(300 * ONE, -400 * ONE) };
    m.clamp_max_speed(250 * ONE);
    assert_eq!(m.velocity, Vec2::new(150 * ONE, -200 * ONE));

    let mut still = Movable { velocity: Vec2::new(-3, 4) };
    still.clamp_max_speed(0);
    assert_eq!(still.velocity, Vec2::new(0, 0));
}

#[test]
fn clamp_never_exceeds_the_cap_and_keeps_the_heading() {
    let cap: i64 = 400 * ONE;
    let samples = [
        Vec2::new(600 * ONE, 1),
        Vec2::new(-123_456_789, 987_654_321_123),
        Vec2::new(i64::MAX, i64::MIN),
        Vec2::new(i64::MIN, i64::MIN),
        Vec2::new(400 * ONE, 400 * ONE),
        Vec2::new(1, -(400 * ONE) - 1),
    ];
    for v in samples {
        let mut m = Movable { velocity: v };
        m.clamp_max_speed(cap);
        let w = m.velocity;
        assert!(length_squared(w) <= (cap as i128) * (cap as i128));
        // Rounding loses less than one raw step per component.
        let reach = ((cap - 2) as i128) * ((cap - 2) as i128);
        assert!(length_squared(w) >= reach);
        assert!(w.x.signum() == v.x.signum() || w.x == 0);
        assert!(w.y.signum() == v.y.signum() || w.y == 0);
        let cross = (v.x as i128) * (w.y as i128) - (v.y as i128) * (w.x as i128);
        let larger = (v.x as i128).abs().max((v.y as i128).abs());
        assert!(cross.abs() < larger);
    }
}

#[test]
fn integration_moves_by_velocity_times_time() {
    let m = Movable { velocity: Vec2::new(-120 * ONE, 64 * ONE) };
    let mut position = Vec2::new(10 * ONE, -10 * ONE);
    m.integrate_position(&mut position, ONE / 64);
    assert_eq!(position, Vec2::new(8_125_000, -9 * ONE));
    m.integrate_position(&mut position, 0);
    assert_eq!(position, Vec2::new(8_125_000, -9 * ONE));
}

#[test]
fn rest_without_direction_stays_rest() {
    let mut m = Movable::new();
    let mut position = Vec2::new(12 * ONE, -7 * ONE);
    for _ in 0..200 {
        m.step(&mut position, Vec2::new(0, 0), player_like(), ONE / 64);
        assert_eq!(m.velocity, Vec2::new(0, 0));
        assert_eq!(position, Vec2::new(12 * ONE, -7 * ONE));
    }
}

#[test]
fn speed_stays_within_the_cap_over_many_ticks() {
    let t = player_like();
    let mut m = Movable::new();
    let mut position = Vec2::new(0, 0);
    let directions = [
        Vec2::new(ONE, ONE),
        Vec2::new(-ONE, ONE),
        Vec2::new(0, -ONE),
        Vec2::new(0, 0),
        Vec2::new(3, -4),
    ];
    for i in 0..500 {
        m.step(&mut position, directions[i % directions.len()], t, ONE / 64);
        assert!(length_squared(m.velocity) <= (t.max_speed as i128) * (t.max_speed as i128));
    }
}

#[test]
fn negative_time_step_counts_as_none() {
    let mut m = Movable { velocity: Vec2::new(100 * ONE, 50 * ONE) };
    let mut position = Vec2::new(ONE, ONE);
    m.step(&mut position, Vec2::new(ONE, 0), player_like(), -ONE);
    assert_eq!(m.velocity, Vec2::new(100 * ONE, 50 * ONE));
    assert_eq!(position, Vec2::new(ONE, ONE));
}

#[test]
fn released_axis_stops_in_finite_time_while_held_axis_keeps_speed() {
    let t = player_like();
    let mut m = Movable { velocity: Vec2::new(200 * ONE, 200 * ONE) };
    let mut position = Vec2::new(0, 0);
    for _ in 0..64 * 20 {
        m.step(&mut position, Vec2::new(ONE, 0), t, ONE / 64);
    }
    assert_eq!(m.velocity, Vec2::new(400 * ONE, 0));
}
