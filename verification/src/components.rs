//! The component kinds a slot can carry, and the tags that say which of them
//! are meaningful.

use vstd::prelude::*;
use crate::vector::Vector2;

verus! {

/// Sprite animation state: the current frame and the ticks spent on it.
#[derive(Clone, Copy, Debug, PartialEq, Eq, Structural)]
pub struct Animator {
    pub frame: u16,
    pub count: u16,
}

/// Position, velocity and half-extent of a body.
#[derive(Clone, Copy, Debug, PartialEq, Eq, Structural)]
pub struct Body {
    pub position: Vector2,
    pub velocity: Vector2,
    pub size: Vector2,
}

/// A player ship: the input slot that steers it, its fire cooldown and damage.
#[derive(Clone, Copy, Debug, PartialEq, Eq, Structural)]
pub struct Player {
    pub slot: i8,
    pub delayFire: u16,
    pub damage: u16,
}

/// An enemy: its facing direction, patrol counter and fire cooldown.
#[derive(Clone, Copy, Debug, PartialEq, Eq, Structural)]
pub struct Enemy {
    pub direction: i8,
    pub counter: u8,
    pub delayFire: u16,
}

/// The kind of object a slot holds.
#[derive(Clone, Copy, Debug, PartialEq, Eq, Structural)]
pub struct ObjType {
    pub value: u8,
}

impl ObjType {
    pub const Null: u8 = 0;
    pub const Player: u8 = 1;
    pub const Enemy: u8 = 2;
    pub const Bullet: u8 = 3;
    pub const BadBullet: u8 = 4;
    pub const Boom: u8 = 5;
    pub const PlayerBoom: u8 = 6;
    pub const ShotCleaner: u8 = 7;
    pub const Count: u8 = 8;
    pub const USizeCount: usize = 8;

    /// The kind with the given tag.
    pub fn from(value: u8) -> (t: ObjType)
        ensures
            t == (ObjType { value }),
    {
        Self { value }
    }
}

/// The archetype mask of a slot: one bit per component kind, and one for
/// being active.
#[derive(Clone, Copy, Debug, PartialEq, Eq, Structural)]
pub struct Cf {
    pub value: u8,
}

impl Cf {
    pub const Empty: u8 = 0;
    pub const Component: u8 = 1;
    pub const ObjectId: u8 = 2;
    pub const Body: u8 = 4;
    pub const Player: u8 = 8;
    pub const Enemy: u8 = 16;
    pub const Animator: u8 = 32;
    pub const Active: u8 = 64;

    /// Whether every bit of `mask` is set.
    pub open spec fn spec_test(&self, mask: u8) -> bool {
        self.value & mask == mask
    }

    /// Whether no bit is set.
    pub open spec fn spec_none(&self) -> bool {
        self.value == 0
    }

    /// The mask with the given bits.
    pub fn from(value: u8) -> (c: Cf)
        ensures
            c == (Cf { value }),
    {
        Cf { value }
    }

    /// Whether every bit of `mask` is set. The test is containment, not
    /// equality, so a mask asks for capabilities and other bits do not matter.
    #[verifier::when_used_as_spec(spec_test)]
    pub fn test(&self, mask: u8) -> (b: bool)
        ensures
            b == self.spec_test(mask),
    {
        self.value & mask == mask
    }

    /// Whether no bit is set.
    #[verifier::when_used_as_spec(spec_none)]
    pub fn none(&self) -> (b: bool)
        ensures
            b == self.spec_none(),
    {
        self.value == Cf::Empty
    }
}

impl Default for Animator {
    fn default() -> (a: Self)
        ensures
            a == (Animator { frame: 0, count: 0 }),
    {
        Self { frame: 0, count: 0 }
    }
}

impl Default for Body {
    fn default() -> (b: Self)
        ensures
            b == Body::spec_default(),
    {
        Self { position: Vector2::new(), velocity: Vector2::new(), size: Vector2::new() }
    }
}

impl Body {
    /// The body at rest at the origin with no extent.
    pub open spec fn spec_default() -> Body {
        Body {
            position: Vector2 { x: 0, y: 0 },
            velocity: Vector2 { x: 0, y: 0 },
            size: Vector2 { x: 0, y: 0 },
        }
    }
}

impl Default for Player {
    fn default() -> (p: Self)
        ensures
            p == (Player { slot: 0, delayFire: 0, damage: 0 }),
    {
        Self { slot: 0, delayFire: 0, damage: 0 }
    }
}

impl Default for Enemy {
    fn default() -> (e: Self)
        ensures
            e == (Enemy { direction: 0, counter: 0, delayFire: 0 }),
    {
        Self { direction: 0, counter: 0, delayFire: 0 }
    }
}

impl Default for ObjType {
    fn default() -> (t: Self)
        ensures
            t == (ObjType { value: 0 }),
    {
        Self { value: 0 }
    }
}

impl Default for Cf {
    fn default() -> (c: Self)
        ensures
            c == (Cf { value: 0 }),
    {
        Self { value: 0 }
    }
}

} // verus!
