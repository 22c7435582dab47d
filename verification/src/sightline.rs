//! Aiming: where the cursor is in the world, and the line that the player
//! draws toward it.

use crate::fixed::{div_toward_zero, half, saturate, saturating_difference, ONE};
use crate::vec2::Vec2;
use vstd::prelude::*;

verus! {

/// How far the sightline reaches at most.
pub const SIGHTLINE_LENGTH: i64 = 200 * ONE;

/// The sightline of one tick.
#[derive(Clone, Copy, Debug, PartialEq, Eq, Structural)]
pub struct Sightline {
    /// The vector from the player to the cursor; the line points along it.
    pub aim: Vec2,
    /// The length of the line: the distance to the cursor, but at most
    /// `SIGHTLINE_LENGTH`.
    pub length: i64,
    /// How far along the line its midpoint lies.
    pub midpoint: i64,
}

/// The world position of a cursor position in a window of the given size.
/// The window counts from its top left corner with y downward, the world
/// from the window's centre with y upward.
pub open spec fn spec_cursor_to_world(cursor: Vec2, window_size: Vec2) -> Vec2 {
    Vec2 {
        x: saturate(cursor.x - div_toward_zero(window_size.x as int, 2)) as i64,
        y: saturate(div_toward_zero(window_size.y as int, 2) - cursor.y) as i64,
    }
}

/// The sightline from `player` toward `cursor`, both in world coordinates.
pub open spec fn spec_sightline(player: Vec2, cursor: Vec2) -> Sightline {
    let aim = cursor.spec_minus(player);
    let length = if aim.spec_length() > SIGHTLINE_LENGTH {
        SIGHTLINE_LENGTH
    } else {
        aim.spec_length() as i64
    };
    Sightline { aim, length, midpoint: (length / 2) as i64 }
}

/// The world position of a cursor position in a window of the given size.
pub fn cursor_to_world(cursor: Vec2, window_size: Vec2) -> (p: Vec2)
    ensures
        p == spec_cursor_to_world(cursor, window_size),
{
    Vec2 {
        x: saturating_difference(cursor.x, half(window_size.x)),
        y: saturating_difference(half(window_size.y), cursor.y),
    }
}

/// The sightline from `player` toward `cursor`, both in world coordinates.
pub fn sightline(player: Vec2, cursor: Vec2) -> (line: Sightline)
    ensures
        line == spec_sightline(player, cursor),
        0 <= line.length <= SIGHTLINE_LENGTH,
{
    let aim: Vec2 = cursor.minus(player);
    let distance: u64 = aim.length();
    let length: i64 = if distance > SIGHTLINE_LENGTH as u64 {
        SIGHTLINE_LENGTH
    } else {
        distance as i64
    };
    Sightline { aim, length, midpoint: length / 2 }
}

} // verus!
