//! Fixed game data: sprite frame ids, the prefab catalogue and the
//! animation table.

use vstd::prelude::*;
use crate::components::{Animator, Body, Cf, Enemy, ObjType, Player};
use crate::store::CpPrefab;
use crate::vector::Vector2;

verus! {

/// The prefab of each object kind.
pub struct Data {
    pub prefabs: [CpPrefab; 8],
}

/// The prefab for objects of kind `kind`.
pub open spec fn catalogue(kind: u8) -> CpPrefab {
    if kind == ObjType::Player {
        CpPrefab {
            comp: Cf { value: 111 },
            objectId: ObjType { value: ObjType::Player },
            body: Body { size: Vector2 { x: 16, y: 10 }, ..Body::spec_default() },
            player: Player { slot: (-1i8), delayFire: 0, damage: 0 },
            animator: Animator { frame: Data::player_ship_0, count: 0 },
            ..CpPrefab::blank()
        }
    } else if kind == ObjType::Enemy {
        CpPrefab {
            comp: Cf { value: 119 },
            objectId: ObjType { value: ObjType::Enemy },
            body: Body { size: Vector2 { x: 16, y: 10 }, ..Body::spec_default() },
            enemy: Enemy { direction: 1, counter: 0, delayFire: 0 },
            animator: Animator { frame: Data::player_ship_0, count: 0 },
            ..CpPrefab::blank()
        }
    } else if kind == ObjType::Bullet {
        CpPrefab {
            comp: Cf { value: 103 },
            objectId: ObjType { value: ObjType::Bullet },
            body: Body {
                velocity: Vector2 { x: 0, y: 16 },
                size: Vector2 { x: 12, y: 20 },
                ..Body::spec_default()
            },
            animator: Animator { frame: Data::player_shot, count: 0 },
            ..CpPrefab::blank()
        }
    } else if kind == ObjType::BadBullet {
        CpPrefab {
            comp: Cf { value: 103 },
            objectId: ObjType { value: ObjType::BadBullet },
            body: Body {
                velocity: Vector2 { x: 0, y: (-8i32) },
                size: Vector2 { x: 7, y: 7 },
                ..Body::spec_default()
            },
            animator: Animator { frame: Data::enemy_shot, count: 0 },
            ..CpPrefab::blank()
        }
    } else if kind == ObjType::Boom {
        CpPrefab {
            comp: Cf { value: 103 },
            objectId: ObjType { value: ObjType::Boom },
            body: Body { size: Vector2 { x: 14, y: 14 }, ..Body::spec_default() },
            animator: Animator { frame: Data::enemy_boom_0, count: 0 },
            ..CpPrefab::blank()
        }
    } else if kind == ObjType::PlayerBoom {
        CpPrefab {
            comp: Cf { value: 103 },
            objectId: ObjType { value: ObjType::PlayerBoom },
            body: Body { size: Vector2 { x: 22, y: 21 }, ..Body::spec_default() },
            animator: Animator { frame: Data::player_boom_0, count: 0 },
            ..CpPrefab::blank()
        }
    } else if kind == ObjType::ShotCleaner {
        CpPrefab {
            comp: Cf { value: 71 },
            objectId: ObjType { value: ObjType::ShotCleaner },
            body: Body { size: Vector2 { x: 960, y: 540 }, ..Body::spec_default() },
            ..CpPrefab::blank()
        }
    } else {
        CpPrefab {
            comp: Cf { value: 1 },
            objectId: ObjType { value: ObjType::Null },
            ..CpPrefab::blank()
        }
    }
}

/// The archetype masks of the catalogue, bit by bit.
pub proof fn lemma_catalogue_masks()
    by (bit_vector)
    ensures
        1u8 == 1u8 | 0u8,
        0u8 & 8u8 != 8u8,
        64u8 | 1u8 | 4u8 | 2u8 | 8u8 | 32u8 == 111u8,
        64u8 | 1u8 | 4u8 | 2u8 | 16u8 | 32u8 == 119u8,
        64u8 | 1u8 | 4u8 | 2u8 | 32u8 == 103u8,
        64u8 | 1u8 | 4u8 | 2u8 == 71u8,
        111u8 & 4u8 == 4u8 && 111u8 & 8u8 == 8u8 && 111u8 & 16u8 != 16u8 && 111u8 & 1u8 == 1u8
            && 111u8 & 2u8 == 2u8 && 111u8 & 32u8 == 32u8,
        119u8 & 4u8 == 4u8 && 119u8 & 8u8 != 8u8 && 119u8 & 16u8 == 16u8 && 119u8 & 1u8 == 1u8
            && 119u8 & 2u8 == 2u8 && 119u8 & 32u8 == 32u8,
        103u8 & 4u8 == 4u8 && 103u8 & 8u8 != 8u8 && 103u8 & 16u8 != 16u8 && 103u8 & 1u8 == 1u8
            && 103u8 & 2u8 == 2u8 && 103u8 & 32u8 == 32u8,
        71u8 & 4u8 == 4u8 && 71u8 & 8u8 != 8u8 && 71u8 & 16u8 != 16u8 && 71u8 & 1u8 == 1u8 && 71u8
            & 2u8 == 2u8 && 71u8 & 32u8 != 32u8,
        1u8 & 4u8 != 4u8 && 1u8 & 8u8 != 8u8 && 1u8 & 16u8 != 16u8 && 1u8 & 1u8 == 1u8 && 1u8 & 2u8
            != 2u8 && 1u8 & 32u8 != 32u8,
{
}

impl Data {
    pub const text_animate_counter: i32 = 8333333;
    pub const enemy_type_count: u16 = 11;

    pub const _null: u16 = 0;
    pub const _null_persist: u16 = 1;
    pub const enemy_00_a: u16 = 2;
    pub const enemy_01_a: u16 = 3;
    pub const enemy_02_a: u16 = 4;
    pub const enemy_03_a: u16 = 5;
    pub const enemy_04_a: u16 = 6;
    pub const enemy_05_a: u16 = 7;
    pub const enemy_06_a: u16 = 8;
    pub const enemy_07_a: u16 = 9;
    pub const enemy_08_a: u16 = 10;
    pub const enemy_09_a: u16 = 11;
    pub const enemy_10_a: u16 = 12;
    pub const enemy_00_b: u16 = 13;
    pub const enemy_01_b: u16 = 14;
    pub const enemy_02_b: u16 = 15;
    pub const enemy_03_b: u16 = 16;
    pub const enemy_04_b: u16 = 17;
    pub const enemy_05_b: u16 = 18;
    pub const enemy_06_b: u16 = 19;
    pub const enemy_07_b: u16 = 20;
    pub const enemy_08_b: u16 = 21;
    pub const enemy_09_b: u16 = 22;
    pub const enemy_10_b: u16 = 23;
    pub const player_ship_0: u16 = 24;
    pub const player_ship_1: u16 = 25;
    pub const player_shot: u16 = 26;
    pub const enemy_shot: u16 = 27;
    pub const easy_0: u16 = 28;
    pub const easy_1: u16 = 29;
    pub const player_boom_0: u16 = 30;
    pub const player_boom_1: u16 = 31;
    pub const player_boom_2: u16 = 32;
    pub const player_boom_3: u16 = 33;
    pub const player_boom_4: u16 = 34;
    pub const player_boom_5: u16 = 35;
    pub const player_boom_6: u16 = 36;
    pub const enemy_boom_0: u16 = 37;
    pub const enemy_boom_1: u16 = 38;
    pub const enemy_boom_2: u16 = 39;
    pub const enemy_boom_3: u16 = 40;
    pub const enemy_boom_4: u16 = 41;
    pub const enemy_boom_5: u16 = 42;
    pub const enemy_boom_6: u16 = 43;
    pub const local_player_0: u16 = 44;
    pub const local_player_1: u16 = 45;
    pub const text_ready: u16 = 46;
    pub const text_no: u16 = 47;
    pub const text_great: u16 = 48;
    pub const target: u16 = 49;
    pub const image_count: u16 = 50;
    pub const _end_list: u16 = 51;

    /// Every entry is the catalogue's prefab for its kind.
    pub open spec fn wf(&self) -> bool {
        forall|k: int| 0 <= k < 8 ==> #[trigger] self.prefabs@[k] == catalogue(k as u8)
    }

    /// The prefab for objects of kind `index`.
    pub fn prefab(&self, index: u8) -> (p: CpPrefab)
        requires
            index < 8,
        ensures
            p == self.prefabs@[index as int],
    {
        self.prefabs[index as usize]
    }

    /// The catalogue: one prefab for each of the eight object kinds.
    pub fn new() -> (d: Self)
        ensures
            d.wf(),
    {
        proof {
            lemma_catalogue_masks();
        }
        let d = Self {
            prefabs: [
                // null object
                CpPrefab {
                    comp: Cf::from(Cf::Component),
                    objectId: ObjType::from(ObjType::Null),
                    ..CpPrefab::default()
                },
                // player
                CpPrefab {
                    comp: Cf::from(
                        Cf::Active | Cf::Component | Cf::Body | Cf::ObjectId | Cf::Player
                            | Cf::Animator,
                    ),
                    objectId: ObjType::from(ObjType::Player),
                    body: Body { size: Vector2::from(16, 10), ..Body::default() },
                    player: Player { slot: -1, delayFire: 0, damage: 0 },
                    animator: Animator { frame: Data::player_ship_0, count: 0 },
                    ..CpPrefab::default()
                },
                // enemy
                CpPrefab {
                    comp: Cf::from(
                        Cf::Active | Cf::Component | Cf::Body | Cf::ObjectId | Cf::Enemy
                            | Cf::Animator,
                    ),
                    objectId: ObjType::from(ObjType::Enemy),
                    body: Body { size: Vector2::from(16, 10), ..Body::default() },
                    enemy: Enemy { direction: 1, counter: 0, delayFire: 0 },
                    animator: Animator { frame: Data::player_ship_0, count: 0 },
                    ..CpPrefab::default()
                },
                // bullet
                CpPrefab {
                    comp: Cf::from(
                        Cf::Active | Cf::Component | Cf::Body | Cf::ObjectId | Cf::Animator,
                    ),
                    objectId: ObjType::from(ObjType::Bullet),
                    body: Body {
                        velocity: Vector2::from(0, 16),
                        size: Vector2::from(12, 20),
                        ..Body::default()
                    },
                    animator: Animator { frame: Data::player_shot, count: 0 },
                    ..CpPrefab::default()
                },
                // bad bullet
                CpPrefab {
                    comp: Cf::from(
                        Cf::Active | Cf::Component | Cf::Body | Cf::ObjectId | Cf::Animator,
                    ),
                    objectId: ObjType::from(ObjType::BadBullet),
                    body: Body {
                        velocity: Vector2::from(0, -8),
                        size: Vector2::from(7, 7),
                        ..Body::default()
                    },
                    animator: Animator { frame: Data::enemy_shot, count: 0 },
                    ..CpPrefab::default()
                },
                // boom
                CpPrefab {
                    comp: Cf::from(
                        Cf::Active | Cf::Component | Cf::Body | Cf::ObjectId | Cf::Animator,
                    ),
                    objectId: ObjType::from(ObjType::Boom),
                    body: Body { size: Vector2::from(14, 14), ..Body::default() },
                    animator: Animator { frame: Data::enemy_boom_0, count: 0 },
                    ..CpPrefab::default()
                },
                // player boom
                CpPrefab {
                    comp: Cf::from(
                        Cf::Active | Cf::Component | Cf::Body | Cf::ObjectId | Cf::Animator,
                    ),
                    objectId: ObjType::from(ObjType::PlayerBoom),
                    body: Body { size: Vector2::from(22, 21), ..Body::default() },
                    animator: Animator { frame: Data::player_boom_0, count: 0 },
                    ..CpPrefab::default()
                },
                // shot cleaner
                CpPrefab {
                    comp: Cf::from(Cf::Active | Cf::Component | Cf::Body | Cf::ObjectId),
                    objectId: ObjType::from(ObjType::ShotCleaner),
                    body: Body { size: Vector2::from(960, 540), ..Body::default() },
                    ..CpPrefab::default()
                },
            ],
        };
        assert(d.prefabs@[0] == catalogue(0));
        assert(d.prefabs@[1] == catalogue(1));
        assert(d.prefabs@[2] == catalogue(2));
        assert(d.prefabs@[3] == catalogue(3));
        assert(d.prefabs@[4] == catalogue(4));
        assert(d.prefabs@[5] == catalogue(5));
        assert(d.prefabs@[6] == catalogue(6));
        assert(d.prefabs@[7] == catalogue(7));
        d
    }
}

} // verus!
