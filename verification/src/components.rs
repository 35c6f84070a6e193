//! The records an entity may carry.

use vstd::prelude::*;
use crate::clock::Timer;
use crate::space::Vec3;
use crate::space::Velocity;
use crate::units::DIRECTION_ONE;

verus! {

/// Where an entity is. The z coordinate is a draw layer and plays no part in the
/// simulation. Rotation and scale are matters of presentation and stay with the
/// renderer.
#[derive(Clone, Copy, Debug, PartialEq, Eq, Structural)]
pub struct Transform {
    pub translation: Vec3,
}

/// A heading in the plane. Each component counts [`DIRECTION_ONE`]ths and lies
/// between `-1.0` and `1.0`, as the components of a vector of length one do.
#[derive(Clone, Copy, Debug, PartialEq, Eq, Structural)]
pub struct Direction {
    pub x: i32,
    pub y: i32,
}

/// An enemy ship and the heading it travels along.
#[derive(Clone, Copy, Debug, PartialEq, Eq, Structural)]
pub struct Enemy {
    pub direction: Direction,
}

/// The timer that keeps two shots apart.
#[derive(Clone, Copy, Debug, PartialEq, Eq, Structural)]
pub struct Cooldown {
    pub timer: Timer,
}

/// First and last frame of an animation on a sprite sheet.
#[derive(Clone, Copy, Debug, PartialEq, Eq, Structural)]
pub struct AnimationIndices {
    pub first: usize,
    pub last: usize,
}

/// The timer that paces an animation.
#[derive(Clone, Copy, Debug, PartialEq, Eq, Structural)]
pub struct AnimationTimer {
    pub timer: Timer,
}

/// The frame of the sprite sheet that an entity shows.
#[derive(Clone, Copy, Debug, PartialEq, Eq, Structural)]
pub struct SpriteFrame {
    pub index: usize,
}

/// One simulation object: the set of records it carries. A record that is absent
/// is `None`; the two markers are flags.
#[derive(Clone, Copy, Debug, PartialEq, Eq, Structural)]
pub struct Entity {
    pub transform: Option<Transform>,
    /// Marks the ship that the player steers.
    pub player: bool,
    pub enemy: Option<Enemy>,
    /// Marks a fired bullet.
    pub projectile: bool,
    pub velocity: Option<Velocity>,
    pub cooldown: Option<Cooldown>,
    pub animation_indices: Option<AnimationIndices>,
    pub animation_timer: Option<AnimationTimer>,
    pub sprite: Option<SpriteFrame>,
}

impl Direction {
    /// Both components lie between `-1.0` and `1.0`.
    pub open spec fn wf(self) -> bool {
        &&& -DIRECTION_ONE <= self.x <= DIRECTION_ONE
        &&& -DIRECTION_ONE <= self.y <= DIRECTION_ONE
    }

    /// The heading mirrored at a vertical wall.
    pub open spec fn bounced(self) -> Direction {
        Direction { x: (-self.x) as i32, y: self.y }
    }

    /// A heading from its two components, if both lie between `-1.0` and `1.0`.
    pub fn new(x: i32, y: i32) -> (made: Option<Direction>)
        ensures
            made == if (Direction { x, y }).wf() {
                Some(Direction { x, y })
            } else {
                None
            },
    {
        if -DIRECTION_ONE <= x && x <= DIRECTION_ONE && -DIRECTION_ONE <= y && y <= DIRECTION_ONE {
            Some(Direction { x, y })
        } else {
            None
        }
    }

    /// Tells whether both components lie between `-1.0` and `1.0`.
    pub fn is_wf(&self) -> (ok: bool)
        ensures
            ok == self.wf(),
    {
        -DIRECTION_ONE <= self.x && self.x <= DIRECTION_ONE && -DIRECTION_ONE <= self.y
            && self.y <= DIRECTION_ONE
    }

    /// Mirrors the heading at a vertical wall: the horizontal component changes
    /// sign, the vertical one stays.
    pub fn bounce(&self) -> (mirrored: Direction)
        requires
            self.wf(),
        ensures
            mirrored == self.bounced(),
            mirrored.x == -self.x,
            mirrored.y == self.y,
            mirrored.wf(),
    {
        Direction { x: -self.x, y: self.y }
    }
}

impl Entity {
    /// The heading of an enemy, if the entity is one, lies within bounds.
    pub open spec fn wf(self) -> bool {
        self.enemy matches Some(enemy) ==> enemy.direction.wf()
    }

    /// The entity that carries nothing.
    pub open spec fn spec_empty() -> Entity {
        Entity {
            transform: None,
            player: false,
            enemy: None,
            projectile: false,
            velocity: None,
            cooldown: None,
            animation_indices: None,
            animation_timer: None,
            sprite: None,
        }
    }

    /// An entity that carries nothing.
    pub fn empty() -> (entity: Entity)
        ensures
            entity == Entity::spec_empty(),
    {
        Entity {
            transform: None,
            player: false,
            enemy: None,
            projectile: false,
            velocity: None,
            cooldown: None,
            animation_indices: None,
            animation_timer: None,
            sprite: None,
        }
    }

    /// Tells whether the heading of an enemy, if the entity is one, lies within
    /// bounds.
    pub fn is_wf(&self) -> (ok: bool)
        ensures
            ok == self.wf(),
    {
        match self.enemy {
            Some(enemy) => enemy.direction.is_wf(),
            None => true,
        }
    }
}

} // verus!
