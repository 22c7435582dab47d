use arena_kinematics::enemy::{
    enemy_movement, enemy_tunables, fraction_of, spawn_enemies, spawn_position, Enemy,
    ENEMIES_TO_SPAWN, ENEMY_ACCELERATION, ENEMY_DAMPING, ENEMY_DIAMETER, ENEMY_MAX_SPEED,
};
use arena_kinematics::fixed::ONE;
use arena_kinematics::movable::Movable;
use arena_kinematics::sightline::{cursor_to_world, sightline, SIGHTLINE_LENGTH};
use arena_kinematics::vec2::Vec2;

#[test]
fn enemy_configuration() {
    assert_eq!(ENEMY_DIAMETER, 40 * ONE);
    assert_eq!(ENEMIES_TO_SPAWN, 5);
    assert_eq!(ENEMY_ACCELERATION, 400 * ONE);
    assert_eq!(ENEMY_MAX_SPEED, 300 * ONE);
    assert_eq!(ENEMY_DAMPING, 2 * ONE);
    let t = enemy_tunables();
    assert_eq!((t.acceleration, t.max_speed, t.damping), (400 * ONE, 300 * ONE, 2 * ONE));
}

#[test]
fn enemy_chases_along_the_unnormalized_vector_to_the_player() {
    let mut e = Enemy::new(Vec2::new(0, 0));
    e.chase(Vec2::new(3 * ONE, 4 * ONE), ONE / 10);
    assert_eq!(e.movable.velocity, Vec2::new(24 * ONE, 32 * ONE));
    assert_eq!(e.position, Vec2::new(2_400_000, 3_200_000));

    let mut far = Enemy::new(Vec2::new(0, 0));
    far.chase(Vec2::new(300 * ONE, 400 * ONE), ONE / 10);
    assert_eq!(far.movable.velocity, e.movable.velocity);
}

#[test]
fn enemy_next_to_the_player_is_pulled_as_hard_as_one_far_away() {
    let target = Vec2::new(50 * ONE, -20 * ONE);
    let mut near = Enemy::new(Vec2::new(50 * ONE - 2, -20 * ONE - 1));
    near.chase(target, ONE / 10);
    let mut far = Enemy::new(Vec2::new(50 * ONE - 200 * ONE, -20 * ONE - 100 * ONE));
    far.chase(target, ONE / 10);
    assert_eq!(near.movable.velocity, far.movable.velocity);
    assert_eq!(near.movable.velocity, Vec2::new(35_777_080, 17_888_520));
}

#[test]
fn moved_enemies_are_within_their_top_speed() {
    let cap = (ENEMY_MAX_SPEED as i128) * (ENEMY_MAX_SPEED as i128);
    let mut enemies = vec![
        Enemy { position: Vec2::new(0, 0), movable: Movable { velocity: Vec2::new(900 * ONE, 0) } },
        Enemy { position: Vec2::new(1, 1), movable: Movable { velocity: Vec2::new(-299 * ONE, 299 * ONE) } },
        Enemy::new(Vec2::new(-400 * ONE, 250 * ONE)),
    ];
    for _ in 0..200 {
        enemy_movement(&mut enemies, Some(Vec2::new(3, -4)), ONE / 64);
        for e in &enemies {
            let v = e.movable.velocity;
            assert!((v.x as i128) * (v.x as i128) + (v.y as i128) * (v.y as i128) <= cap);
        }
    }
}

#[test]
fn enemy_speed_is_capped() {
    let mut e = Enemy::new(Vec2::new(0, 0));
    e.chase(Vec2::new(3 * ONE, 4 * ONE), ONE);
    assert_eq!(e.movable.velocity, Vec2::new(180 * ONE, 240 * ONE));
    assert_eq!(e.position, Vec2::new(180 * ONE, 240 * ONE));
}

#[test]
fn enemy_level_with_the_player_loses_its_drift() {
    let mut e = Enemy {
        position: Vec2::new(0, 5 * ONE),
        movable: Movable { velocity: Vec2::new(0, 50 * ONE) },
    };
    e.chase(Vec2::new(100 * ONE, 5 * ONE), ONE / 10);
    assert_eq!(e.movable.velocity, Vec2::new(40 * ONE, 40 * ONE));
}

#[test]
fn enemy_on_the_player_does_not_accelerate() {
    let mut e = Enemy::new(Vec2::new(7 * ONE, 7 * ONE));
    e.chase(Vec2::new(7 * ONE, 7 * ONE), ONE / 10);
    assert_eq!(e, Enemy::new(Vec2::new(7 * ONE, 7 * ONE)));
}

#[test]
fn enemies_are_not_held_by_the_walls() {
    let mut e = Enemy::new(Vec2::new(440 * ONE, 0));
    for _ in 0..64 * 5 {
        e.chase(Vec2::new(2000 * ONE, 0), ONE / 64);
    }
    assert!(e.position.x > 450 * ONE);
}

#[test]
fn without_a_player_no_enemy_moves() {
    let start = vec![
        Enemy { position: Vec2::new(ONE, 2 * ONE), movable: Movable { velocity: Vec2::new(5 * ONE, 0) } },
        Enemy::new(Vec2::new(-ONE, 0)),
    ];
    let mut enemies = start.clone();
    enemy_movement(&mut enemies, None, ONE / 64);
    assert_eq!(enemies, start);
}

#[test]
fn every_enemy_moves_toward_the_player() {
    let target = Vec2::new(30 * ONE, -40 * ONE);
    let start = vec![
        Enemy::new(Vec2::new(0, 0)),
        Enemy::new(Vec2::new(60 * ONE, -80 * ONE)),
        Enemy::new(target),
    ];
    let mut enemies = start.clone();
    enemy_movement(&mut enemies, Some(target), ONE / 10);
    assert_eq!(enemies.len(), 3);
    for (moved, before) in enemies.iter().zip(start.iter()) {
        let mut alone = *before;
        alone.chase(target, ONE / 10);
        assert_eq!(*moved, alone);
    }
    assert_eq!(enemies[0].movable.velocity, Vec2::new(24 * ONE, -32 * ONE));
    assert_eq!(enemies[1].movable.velocity, Vec2::new(-24 * ONE, 32 * ONE));
    assert_eq!(enemies[2].movable.velocity, Vec2::new(0, 0));

    let mut none: Vec<Enemy> = Vec::new();
    enemy_movement(&mut none, Some(target), ONE / 10);
    assert!(none.is_empty());
}

#[test]
fn random_word_stands_for_a_fraction_below_one() {
    assert_eq!(fraction_of(0), 0);
    assert_eq!(fraction_of(255), 0);
    assert_eq!(fraction_of(256), 0);
    assert_eq!(fraction_of(1 << 31), ONE / 2);
    assert_eq!(fraction_of(1 << 30), ONE / 4);
    assert_eq!(fraction_of(u32::MAX), 999_999);
}

#[test]
fn spawn_position_spans_the_spawn_area() {
    assert_eq!(spawn_position(0, 0), Vec2::new(-430 * ONE, -280 * ONE));
    assert_eq!(spawn_position(1 << 31, 1 << 31), Vec2::new(0, 0));
    assert_eq!(spawn_position(1 << 30, 3 << 30), Vec2::new(-215 * ONE, 140 * ONE));
    assert_eq!(spawn_position(u32::MAX, u32::MAX), Vec2::new(429_999_140, 279_999_440));
}

#[test]
fn spawned_enemies_rest_inside_the_spawn_area() {
    let mut seen = Vec::new();
    for _ in 0..20 {
        let enemies = spawn_enemies();
        assert_eq!(enemies.len(), 5);
        for e in enemies {
            assert_eq!(e.movable.velocity, Vec2::new(0, 0));
            assert!(-430 * ONE <= e.position.x && e.position.x < 430 * ONE);
            assert!(-280 * ONE <= e.position.y && e.position.y < 280 * ONE);
            seen.push(e.position);
        }
    }
    let first = seen[0];
    assert!(seen.iter().any(|p| *p != first));
}

#[test]
fn cursor_position_maps_to_the_world() {
    let window = Vec2::new(1280 * ONE, 720 * ONE);
    assert_eq!(cursor_to_world(Vec2::new(0, 0), window), Vec2::new(-640 * ONE, 360 * ONE));
    assert_eq!(cursor_to_world(Vec2::new(640 * ONE, 360 * ONE), window), Vec2::new(0, 0));
    assert_eq!(
        cursor_to_world(Vec2::new(1280 * ONE, 720 * ONE), window),
        Vec2::new(640 * ONE, -360 * ONE)
    );
}

#[test]
fn sightline_reaches_the_cursor_up_to_its_full_length() {
    let near = sightline(Vec2::new(10 * ONE, 10 * ONE), Vec2::new(40 * ONE, 50 * ONE));
    assert_eq!(near.aim, Vec2::new(30 * ONE, 40 * ONE));
    assert_eq!(near.length, 50 * ONE);
    assert_eq!(near.midpoint, 25 * ONE);

    let far = sightline(Vec2::new(0, 0), Vec2::new(-300 * ONE, 400 * ONE));
    assert_eq!(far.aim, Vec2::new(-300 * ONE, 400 * ONE));
    assert_eq!(far.length, SIGHTLINE_LENGTH);
    assert_eq!(far.length, 200 * ONE);
    assert_eq!(far.midpoint, 100 * ONE);

    let on = sightline(Vec2::new(ONE, ONE), Vec2::new(ONE, ONE));
    assert_eq!((on.length, on.midpoint), (0, 0));
}
