//! Enemies: each one chases the player at full acceleration, whatever the
//! distance, and is not held back by the walls.

use crate::arena::Bounds;
use crate::fixed::{lemma_product_with_fraction, product, scaled_product, ONE};
use crate::movable::{displaced, elapsed, tick_velocity, Movable, MovementTunables};
use crate::vec2::Vec2;
use rand::Rng;
use vstd::prelude::*;

verus! {

/// The diameter of an enemy's disc.
pub const ENEMY_DIAMETER: i64 = 40 * ONE;

/// How many enemies a round starts with.
pub const ENEMIES_TO_SPAWN: usize = 5;

/// An enemy's acceleration toward the player.
pub const ENEMY_ACCELERATION: i64 = 400 * ONE;

/// An enemy's top speed, in units per second.
pub const ENEMY_MAX_SPEED: i64 = 300 * ONE;

/// The decay rate of an axis along which the player is dead ahead.
pub const ENEMY_DAMPING: i64 = 2 * ONE;

/// The width of the region in which enemies appear.
pub const SPAWN_WIDTH: i64 = 900 * ONE;

/// The height of the region in which enemies appear.
pub const SPAWN_HEIGHT: i64 = 600 * ONE;

/// What an enemy moves with.
pub open spec fn spec_enemy_tunables() -> MovementTunables {
    MovementTunables {
        acceleration: ENEMY_ACCELERATION,
        max_speed: ENEMY_MAX_SPEED,
        damping: ENEMY_DAMPING,
    }
}

/// What an enemy moves with.
#[verifier::when_used_as_spec(spec_enemy_tunables)]
pub fn enemy_tunables() -> (tunables: MovementTunables)
    ensures
        tunables == spec_enemy_tunables(),
{
    MovementTunables {
        acceleration: ENEMY_ACCELERATION,
        max_speed: ENEMY_MAX_SPEED,
        damping: ENEMY_DAMPING,
    }
}

/// An enemy: where it is and how it moves.
#[derive(Clone, Copy, Debug, PartialEq, Eq, Structural)]
pub struct Enemy {
    pub position: Vec2,
    pub movable: Movable,
}

/// The enemy after one tick of chasing `target`. The direction is the
/// vector from the enemy to the target as it is, of any length: the
/// acceleration step normalizes it, so the pull does not weaken as the
/// enemy closes in.
pub open spec fn enemy_after(enemy: Enemy, target: Vec2, delta_seconds: i64) -> Enemy {
    let velocity = tick_velocity(
        enemy.movable.velocity,
        target.spec_minus(enemy.position),
        spec_enemy_tunables(),
        delta_seconds,
    );
    Enemy {
        position: displaced(enemy.position, velocity, elapsed(delta_seconds)),
        movable: Movable { velocity },
    }
}

/// Whether the enemy is no faster than the enemies' top speed.
pub open spec fn within_top_speed(enemy: Enemy) -> bool {
    enemy.movable.velocity.spec_length_squared() <= ENEMY_MAX_SPEED * ENEMY_MAX_SPEED
}

impl Enemy {
    /// An enemy at rest at `position`.
    pub fn new(position: Vec2) -> (enemy: Enemy)
        ensures
            enemy.position == position,
            enemy.movable.velocity == Vec2::spec_zero(),
    {
        Enemy { position, movable: Movable::new() }
    }

    /// Moves the enemy by one tick toward `target`.
    pub fn chase(&mut self, target: Vec2, delta_seconds: i64)
        ensures
            *final(self) == enemy_after(*old(self), target, delta_seconds),
            within_top_speed(*final(self)),
    {
        let accel_dir: Vec2 = target.minus(self.position);
        let mut movable: Movable = self.movable;
        let mut position: Vec2 = self.position;
        movable.step(&mut position, accel_dir, enemy_tunables(), delta_seconds);
        self.position = position;
        self.movable = movable;
    }
}

/// Moves every enemy by one tick toward the player's position, which
/// leaves each within the enemies' top speed. Without a player nothing
/// moves.
pub fn enemy_movement(enemies: &mut Vec<Enemy>, player: Option<Vec2>, delta_seconds: i64)
    ensures
        final(enemies)@.len() == old(enemies)@.len(),
        player is None ==> final(enemies)@ == old(enemies)@,
        player is Some ==> forall|i: int|
            0 <= i < old(enemies)@.len() ==> #[trigger] final(enemies)@[i] == enemy_after(
                old(enemies)@[i],
                player->0,
                delta_seconds,
            ),
        player is Some ==> forall|i: int|
            0 <= i < final(enemies)@.len() ==> within_top_speed(#[trigger] final(enemies)@[i]),
{
    let target: Vec2 = match player {
        Some(position) => position,
        None => {
            return ;
        },
    };
    let count: usize = enemies.len();
    let mut i: usize = 0;
    while i < count
        invariant
            i <= count,
            enemies@.len() == count,
            old(enemies)@.len() == count,
            forall|j: int|
                0 <= j < i ==> #[trigger] enemies@[j] == enemy_after(
                    old(enemies)@[j],
                    target,
                    delta_seconds,
                ),
            forall|j: int| 0 <= j < i ==> within_top_speed(#[trigger] enemies@[j]),
            forall|j: int| i <= j < count ==> #[trigger] enemies@[j] == old(enemies)@[j],
        decreases count - i,
    {
        let mut enemy: Enemy = enemies[i];
        enemy.chase(target, delta_seconds);
        enemies.set(i, enemy);
        i = i + 1;
    }
}

/// The region in which enemies appear: the spawn rectangle around the
/// origin, drawn in by an enemy's radius.
pub open spec fn spec_spawn_area() -> Bounds {
    Bounds {
        left: (-(SPAWN_WIDTH / 2) + ENEMY_DIAMETER / 2) as i64,
        right: (SPAWN_WIDTH / 2 - ENEMY_DIAMETER / 2) as i64,
        bottom: (-(SPAWN_HEIGHT / 2) + ENEMY_DIAMETER / 2) as i64,
        top: (SPAWN_HEIGHT / 2 - ENEMY_DIAMETER / 2) as i64,
    }
}

/// The fraction in `[0, 1)` that a random word stands for: its upper 24
/// bits, as a count of steps of `2^-24`.
pub open spec fn fraction(word: u32) -> i64 {
    ((word / 256) * ONE / 0x100_0000) as i64
}

/// The position that two random words pick in the spawn area: each
/// coordinate lies the word's fraction of the way from the low edge to the
/// high edge.
pub open spec fn spec_spawn_position(word_x: u32, word_y: u32) -> Vec2 {
    let area = spec_spawn_area();
    Vec2 {
        x: (area.left + product(fraction(word_x) as int, area.right - area.left)) as i64,
        y: (area.bottom + product(fraction(word_y) as int, area.top - area.bottom)) as i64,
    }
}

/// The fraction in `[0, 1)` that a random word stands for.
pub fn fraction_of(word: u32) -> (f: i64)
    ensures
        f == fraction(word),
        0 <= f < ONE,
{
    let steps: u64 = (word / 256) as u64;
    assert(steps * ONE <= 0xff_ffff * ONE) by (nonlinear_arith)
        requires
            steps <= 0xff_ffff,
    ;
    (steps * (ONE as u64) / 0x100_0000) as i64
}

/// The position that two random words pick in the spawn area.
pub fn spawn_position(word_x: u32, word_y: u32) -> (p: Vec2)
    ensures
        p == spec_spawn_position(word_x, word_y),
        spec_spawn_area().contains(p),
        p.x < spec_spawn_area().right,
        p.y < spec_spawn_area().top,
{
    let radius: i64 = ENEMY_DIAMETER / 2;
    let min_x: i64 = -(SPAWN_WIDTH / 2) + radius;
    let max_x: i64 = SPAWN_WIDTH / 2 - radius;
    let min_y: i64 = -(SPAWN_HEIGHT / 2) + radius;
    let max_y: i64 = SPAWN_HEIGHT / 2 - radius;
    let fx: i64 = fraction_of(word_x);
    let fy: i64 = fraction_of(word_y);
    proof {
        lemma_product_with_fraction((max_x - min_x) as i64, fx);
        lemma_product_with_fraction((max_y - min_y) as i64, fy);
        assert(fx * (max_x - min_x) == (max_x - min_x) * fx) by (nonlinear_arith);
        assert(fy * (max_y - min_y) == (max_y - min_y) * fy) by (nonlinear_arith);
    }
    let x: i64 = min_x + scaled_product(fx, max_x - min_x);
    let y: i64 = min_y + scaled_product(fy, max_y - min_y);
    Vec2 { x, y }
}

/// A word from the thread's random number generator: `rand::rng()` and
/// `Rng::random::<u32>`. Nothing is claimed of its value.
#[verifier::external_body]
fn random_word() -> (word: u32) {
    rand::rng().random::<u32>()
}

/// Whether `enemy` is one that a round can start with: at rest, at a
/// position that two random words pick.
pub open spec fn freshly_spawned(enemy: Enemy) -> bool {
    &&& enemy.movable.velocity == Vec2::spec_zero()
    &&& exists|word_x: u32, word_y: u32|
        enemy.position == #[trigger] spec_spawn_position(word_x, word_y)
}

/// The enemies of a new round: each at rest at a random position in the
/// spawn area.
pub fn spawn_enemies() -> (enemies: Vec<Enemy>)
    ensures
        enemies@.len() == ENEMIES_TO_SPAWN,
        forall|i: int|
            0 <= i < enemies@.len() ==> {
                &&& freshly_spawned(#[trigger] enemies@[i])
                &&& spec_spawn_area().contains(enemies@[i].position)
            },
{
    let mut enemies: Vec<Enemy> = Vec::new();
    let mut i: usize = 0;
    while i < ENEMIES_TO_SPAWN
        invariant
            i <= ENEMIES_TO_SPAWN,
            enemies@.len() == i,
            forall|j: int|
                0 <= j < i ==> {
                    &&& freshly_spawned(#[trigger] enemies@[j])
                    &&& spec_spawn_area().contains(enemies@[j].position)
                },
        decreases ENEMIES_TO_SPAWN - i,
    {
        let word_x: u32 = random_word();
        let word_y: u32 = random_word();
        let enemy: Enemy = Enemy::new(spawn_position(word_x, word_y));
        assert(freshly_spawned(enemy));
        enemies.push(enemy);
        i = i + 1;
    }
    enemies
}

} // verus!
