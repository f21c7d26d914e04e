//! Deferred commands: what the systems ask for during a tick and the
//! resolver carries out at its end.

use vstd::prelude::*;
use crate::components::ObjType;
use crate::entity::Entity;
use crate::vector::Vector2;

verus! {

/// A deferred command. `id` says what is asked for; the other fields are
/// read as far as that kind of command uses them.
#[derive(Clone, Copy, Debug, PartialEq, Eq, Structural)]
pub struct Event {
    pub id: u8,
    pub a: Entity,
    pub b: Entity,
    pub key: u16,
    pub otype: u8,
    pub v: Vector2,
}

impl Event {
    pub const Null: u8 = 0;
    pub const DestroyEntity: u8 = 1;
    pub const CreateEntity: u8 = 2;
    pub const Contact: u8 = 3;
    pub const Shoot: u8 = 4;
    pub const Count: u8 = 5;

    /// The command to destroy `a`.
    pub open spec fn destroy_of(a: Entity) -> Event {
        Event {
            id: Event::DestroyEntity,
            a,
            b: Entity { index: 0, generation: 0 },
            key: 0,
            otype: ObjType::Null,
            v: Vector2 { x: 0, y: 0 },
        }
    }

    /// The command to resolve a contact between `a` and `b` under `key`.
    pub open spec fn contact_of(key: u16, a: Entity, b: Entity) -> Event {
        Event { id: Event::Contact, a, b, key, otype: ObjType::Null, v: Vector2 { x: 0, y: 0 } }
    }

    /// The command to create an object of kind `otype` at `v`.
    pub open spec fn create_of(otype: u8, v: Vector2) -> Event {
        Event {
            id: Event::CreateEntity,
            a: Entity { index: 0, generation: 0 },
            b: Entity { index: 0, generation: 0 },
            key: 0,
            otype,
            v,
        }
    }

    /// The command to create the player of input slot `key` at `v`.
    pub open spec fn player_of(key: u16, v: Vector2) -> Event {
        Event {
            id: Event::CreateEntity,
            a: Entity { index: 0, generation: 0 },
            b: Entity { index: 0, generation: 0 },
            key,
            otype: ObjType::Player,
            v,
        }
    }

    /// The command to destroy `a`.
    pub fn from_destroy(a: Entity) -> (e: Self)
        ensures
            e == Event::destroy_of(a),
    {
        Self {
            id: Event::DestroyEntity,
            a,
            b: Entity::new(),
            key: 0,
            otype: ObjType::Null,
            v: Vector2::new(),
        }
    }

    /// The command to resolve a contact between `a` and `b` under `key`.
    pub fn from_contact(key: u16, a: Entity, b: Entity) -> (e: Self)
        ensures
            e == Event::contact_of(key, a, b),
    {
        Self { id: Event::Contact, a, b, key, otype: ObjType::Null, v: Vector2::new() }
    }

    /// The command to create an object of kind `otype` at `v`.
    pub fn from_entity(otype: u8, v: Vector2) -> (e: Self)
        ensures
            e == Event::create_of(otype, v),
    {
        Self {
            id: Event::CreateEntity,
            a: Entity::new(),
            b: Entity::new(),
            key: 0,
            otype,
            v,
        }
    }

    /// The command to create the player of input slot `key` at `v`.
    pub fn from_player(key: u16, v: Vector2) -> (e: Self)
        ensures
            e == Event::player_of(key, v),
    {
        Self {
            id: Event::CreateEntity,
            a: Entity::new(),
            b: Entity::new(),
            key,
            otype: ObjType::Player,
            v,
        }
    }
}

impl Default for Event {
    fn default() -> (e: Self)
        ensures
            e == (Event {
                id: 0,
                a: Entity { index: 0, generation: 0 },
                b: Entity { index: 0, generation: 0 },
                key: 0,
                otype: 0,
                v: Vector2 { x: 0, y: 0 },
            }),
    {
        Self {
            id: 0,
            a: Entity::new(),
            b: Entity::new(),
            key: 0,
            otype: 0,
            v: Vector2::new(),
        }
    }
}

} // verus!
