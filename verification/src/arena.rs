//! The arena: four walls around a rectangle, and the region inside them
//! that an entity of a given size can occupy.

use crate::fixed::{div_toward_zero, half, ONE};
use crate::vec2::Vec2;
use vstd::prelude::*;

verus! {

/// How thick each wall is.
pub const WALL_THICKNESS: i64 = 10 * ONE;

/// The x coordinate of the centre line of the left wall.
pub const LEFT_WALL: i64 = -450 * ONE;

/// The x coordinate of the centre line of the right wall.
pub const RIGHT_WALL: i64 = 450 * ONE;

/// The y coordinate of the centre line of the bottom wall.
pub const BOTTOM_WALL: i64 = -300 * ONE;

/// The y coordinate of the centre line of the top wall.
pub const TOP_WALL: i64 = 300 * ONE;

/// Which side of the arena a wall stands on.
#[derive(Clone, Copy, Debug, PartialEq, Eq, Structural)]
pub enum WallLocation {
    Left,
    Right,
    Bottom,
    Top,
}

impl WallLocation {
    /// The centre of the wall.
    pub open spec fn spec_position(self) -> Vec2 {
        match self {
            WallLocation::Left => Vec2 { x: LEFT_WALL, y: 0 },
            WallLocation::Right => Vec2 { x: RIGHT_WALL, y: 0 },
            WallLocation::Bottom => Vec2 { x: 0, y: BOTTOM_WALL },
            WallLocation::Top => Vec2 { x: 0, y: TOP_WALL },
        }
    }

    /// The width and height of the wall: the side walls span the arena's
    /// height, the others its width, each with one thickness added so that
    /// the corners close.
    pub open spec fn spec_size(self) -> Vec2 {
        match self {
            WallLocation::Left | WallLocation::Right => Vec2 {
                x: WALL_THICKNESS,
                y: (TOP_WALL - BOTTOM_WALL + WALL_THICKNESS) as i64,
            },
            WallLocation::Bottom | WallLocation::Top => Vec2 {
                x: (RIGHT_WALL - LEFT_WALL + WALL_THICKNESS) as i64,
                y: WALL_THICKNESS,
            },
        }
    }

    /// The centre of the wall.
    pub fn position(&self) -> (p: Vec2)
        ensures
            p == self.spec_position(),
    {
        match self {
            WallLocation::Left => Vec2::new(LEFT_WALL, 0),
            WallLocation::Right => Vec2::new(RIGHT_WALL, 0),
            WallLocation::Bottom => Vec2::new(0, BOTTOM_WALL),
            WallLocation::Top => Vec2::new(0, TOP_WALL),
        }
    }

    /// The width and height of the wall.
    pub fn size(&self) -> (s: Vec2)
        ensures
            s == self.spec_size(),
            s.x > 0,
            s.y > 0,
    {
        let arena_height: i64 = TOP_WALL - BOTTOM_WALL;
        let arena_width: i64 = RIGHT_WALL - LEFT_WALL;
        assert(arena_height > 0);
        assert(arena_width > 0);
        match self {
            WallLocation::Left | WallLocation::Right => {
                Vec2::new(WALL_THICKNESS, arena_height + WALL_THICKNESS)
            },
            WallLocation::Bottom | WallLocation::Top => {
                Vec2::new(arena_width + WALL_THICKNESS, WALL_THICKNESS)
            },
        }
    }
}

/// A rectangle of positions, its edges included.
#[derive(Clone, Copy, Debug, PartialEq, Eq, Structural)]
pub struct Bounds {
    pub left: i64,
    pub right: i64,
    pub bottom: i64,
    pub top: i64,
}

/// The nearest value to `v` between `low` and `high`.
pub open spec fn clamp_between(v: i64, low: i64, high: i64) -> i64 {
    if v < low {
        low
    } else if v > high {
        high
    } else {
        v
    }
}

impl Bounds {
    /// Whether the rectangle holds at least one position.
    pub open spec fn well_formed(self) -> bool {
        self.left <= self.right && self.bottom <= self.top
    }

    /// Whether `p` lies in the rectangle.
    pub open spec fn contains(self, p: Vec2) -> bool {
        self.left <= p.x <= self.right && self.bottom <= p.y <= self.top
    }

    /// The nearest position to `p` in the rectangle, axis by axis.
    pub open spec fn spec_clamp(self, p: Vec2) -> Vec2 {
        Vec2 {
            x: clamp_between(p.x, self.left, self.right),
            y: clamp_between(p.y, self.bottom, self.top),
        }
    }

    /// The region between the walls that the centre of an entity of the
    /// given diameter can occupy: half a wall and half the entity away from
    /// each wall's centre line.
    pub open spec fn spec_inside_walls(diameter: i64) -> Bounds {
        Bounds {
            left: (LEFT_WALL + WALL_THICKNESS / 2 + div_toward_zero(diameter as int, 2)) as i64,
            right: (RIGHT_WALL - WALL_THICKNESS / 2 - div_toward_zero(diameter as int, 2)) as i64,
            bottom: (BOTTOM_WALL + WALL_THICKNESS / 2 + div_toward_zero(diameter as int, 2)) as i64,
            top: (TOP_WALL - WALL_THICKNESS / 2 - div_toward_zero(diameter as int, 2)) as i64,
        }
    }

    /// The region between the walls for an entity of the given diameter. It
    /// holds a position as long as the entity fits between the top and
    /// bottom walls.
    pub fn inside_walls(diameter: i64) -> (b: Bounds)
        ensures
            b == Bounds::spec_inside_walls(diameter),
            diameter <= TOP_WALL - BOTTOM_WALL - WALL_THICKNESS ==> b.well_formed(),
    {
        let margin: i64 = half(diameter);
        let half_wall: i64 = half(WALL_THICKNESS);
        Bounds {
            left: LEFT_WALL + half_wall + margin,
            right: RIGHT_WALL - half_wall - margin,
            bottom: BOTTOM_WALL + half_wall + margin,
            top: TOP_WALL - half_wall - margin,
        }
    }

    /// Pulls `p` back into the rectangle: each coordinate that lies outside
    /// moves to the edge it crossed, the other stays.
    pub fn clamp(&self, p: Vec2) -> (q: Vec2)
        requires
            self.well_formed(),
        ensures
            q == self.spec_clamp(p),
            self.contains(q),
            self.contains(p) ==> q == p,
    {
        let x: i64 = if p.x < self.left {
            self.left
        } else if p.x > self.right {
            self.right
        } else {
            p.x
        };
        let y: i64 = if p.y < self.bottom {
            self.bottom
        } else if p.y > self.top {
            self.top
        } else {
            p.y
        };
        Vec2 { x, y }
    }
}

} // verus!
