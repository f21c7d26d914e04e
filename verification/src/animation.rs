//! The animation table: for each frame of an animation, the frame that
//! follows it.

use vstd::prelude::*;
use std::collections::HashMap;
use crate::data::Data;
use crate::game::Game;
use crate::world::{animation_map, next_frame};

verus! {

/// Whether `list` holds frames up to position `n` and the end marker there.
pub open spec fn ends_at(list: Seq<u16>, n: int) -> bool {
    &&& 1 <= n < list.len()
    &&& list[n] == Data::_end_list
    &&& forall|j: int| 0 <= j < n ==> list[j] != Data::_end_list
}

/// Whether `list` is an animation: at least one frame, then the end marker.
pub open spec fn is_animation(list: Seq<u16>) -> bool {
    exists|n: int| ends_at(list, n)
}

/// The number of frames of an animation.
pub open spec fn frame_count(list: Seq<u16>) -> int {
    choose|n: int| ends_at(list, n)
}

/// `m` with each of the first `n` entries of `list`, the null frame
/// excepted, mapped to the entry after it.
pub open spec fn linked(m: Map<u16, u16>, list: Seq<u16>, n: int) -> Map<u16, u16>
    decreases n,
{
    if n <= 0 {
        m
    } else if list[n - 1] != Data::_null {
        linked(m, list, n - 1).insert(list[n - 1], list[n])
    } else {
        linked(m, list, n - 1)
    }
}

/// `m` with the animation `list` registered: every frame leads to the next,
/// and the last frame leads back to the first. The null frame leads
/// nowhere, so an animation that ends in it stops there.
pub open spec fn registered(m: Map<u16, u16>, list: Seq<u16>) -> Map<u16, u16> {
    let n = frame_count(list);
    let chained = linked(m, list, n);
    if list[n - 1] != Data::_null {
        chained.insert(list[n - 1], list[0])
    } else {
        chained
    }
}

/// An animation has one frame count only.
pub proof fn lemma_frame_count(list: Seq<u16>, n: int)
    requires
        ends_at(list, n),
    ensures
        frame_count(list) == n,
{
    let m = frame_count(list);
    assert(ends_at(list, m));
    if m < n {
        assert(list[m] != Data::_end_list);
    }
    if n < m {
        assert(list[n] != Data::_end_list);
    }
}

impl Game {
    /// Registers the animation `list` in `hash`.
    pub fn registerAnimation(hash: &mut HashMap<u16, u16>, list: &[u16])
        requires
            is_animation(list@),
        ensures
            final(hash)@ == registered(old(hash)@, list@),
    {
        let ghost n = frame_count(list@);
        assert(ends_at(list@, n));
        let mut i: usize = 0;
        while list[i] != Data::_end_list
            invariant
                ends_at(list@, n),
                0 <= i <= n,
                hash@ == linked(old(hash)@, list@, i as int),
            decreases n - i,
        {
            if list[i] != Data::_null {
                hash.insert(list[i], list[i + 1]);
            }
            i += 1;
        }
        assert(i == n) by {
            if i < n {
                assert(list@[i as int] != Data::_end_list);
            }
        }
        let last = list[i - 1];
        if last != Data::_null {
            hash.insert(last, list[0]);
        }
    }

    /// The animation table of the game: the two explosions, which end in the
    /// null frame, and the loops of the player ship, the local player's ship
    /// and each of the eleven enemy types.
    pub fn setupAnimationTable() -> (table: HashMap<u16, u16>)
        ensures
            table@ == animation_map(),
    {
        let mut hash: HashMap<u16, u16> = HashMap::new();

        let player_boom: [u16; 9] = [
            Data::player_boom_0,
            Data::player_boom_1,
            Data::player_boom_2,
            Data::player_boom_3,
            Data::player_boom_4,
            Data::player_boom_5,
            Data::player_boom_6,
            Data::_null,
            Data::_end_list,
        ];
        proof {
            assert(ends_at(player_boom@, 8));
            lemma_frame_count(player_boom@, 8);
            reveal_with_fuel(linked, 10);
        }
        Game::registerAnimation(&mut hash, &player_boom);
        let ghost m1 = hash@;
        assert(m1 =~= Map::<u16, u16>::empty().insert(30, 31).insert(31, 32).insert(32, 33).insert(
            33,
            34,
        ).insert(34, 35).insert(35, 36).insert(36, 0));

        let enemy_boom: [u16; 9] = [
            Data::enemy_boom_0,
            Data::enemy_boom_1,
            Data::enemy_boom_2,
            Data::enemy_boom_3,
            Data::enemy_boom_4,
            Data::enemy_boom_5,
            Data::enemy_boom_6,
            Data::_null,
            Data::_end_list,
        ];
        proof {
            assert(ends_at(enemy_boom@, 8));
            lemma_frame_count(enemy_boom@, 8);
        }
        Game::registerAnimation(&mut hash, &enemy_boom);
        let ghost m2 = hash@;
        assert(m2 =~= m1.insert(37, 38).insert(38, 39).insert(39, 40).insert(40, 41).insert(
            41,
            42,
        ).insert(42, 43).insert(43, 0));

        let player: [u16; 3] = [Data::player_ship_0, Data::player_ship_1, Data::_end_list];
        proof {
            assert(ends_at(player@, 2));
            lemma_frame_count(player@, 2);
        }
        Game::registerAnimation(&mut hash, &player);
        let ghost m3 = hash@;
        assert(m3 =~= m2.insert(24, 25).insert(25, 24));

        let local_player: [u16; 3] = [Data::local_player_0, Data::local_player_1, Data::_end_list];
        proof {
            assert(ends_at(local_player@, 2));
            lemma_frame_count(local_player@, 2);
        }
        Game::registerAnimation(&mut hash, &local_player);
        let ghost m4 = hash@;
        assert(m4 =~= m3.insert(44, 45).insert(45, 44));

        assert forall|f: u16| m4.contains_key(f) implies (f == 24 || f == 25 || 30 <= f <= 45)
            && next_frame(f) == Some(m4[f]) by {}
        assert forall|f: u16| (f == 24 || f == 25 || 30 <= f <= 45) implies m4.contains_key(f) by {}

        let mut enemy: [u16; 3] = [Data::_null, Data::_null, Data::_end_list];
        let mut i: u16 = 0;
        while i < Data::enemy_type_count
            invariant
                0 <= i <= 11,
                enemy@[2] == Data::_end_list,
                forall|f: u16|
                    hash@.contains_key(f) <==> (m4.contains_key(f) || 2 <= f < 2 + i || 13 <= f < 13
                        + i),
                forall|f: u16| m4.contains_key(f) ==> hash@[f] == m4[f],
                forall|f: u16| 2 <= f < 2 + i ==> #[trigger] hash@[f] == f + 11,
                forall|f: u16| 13 <= f < 13 + i ==> #[trigger] hash@[f] == f - 11,
                forall|f: u16| m4.contains_key(f) <==> (f == 24 || f == 25 || 30 <= f <= 45),
                forall|f: u16| m4.contains_key(f) ==> next_frame(f) == Some(m4[f]),
            decreases 11 - i,
        {
            enemy[0] = i + 2;
            enemy[1] = i + 2 + Data::enemy_type_count;
            proof {
                assert(ends_at(enemy@, 2));
                lemma_frame_count(enemy@, 2);
                reveal_with_fuel(linked, 4);
            }
            let ghost prev = hash@;
            Game::registerAnimation(&mut hash, &enemy);
            assert(hash@ =~= prev.insert((i + 2) as u16, (i + 13) as u16).insert(
                (i + 13) as u16,
                (i + 2) as u16,
            ));
            i += 1;
        }
        assert forall|f: u16| hash@.contains_key(f) implies next_frame(f) == Some(hash@[f]) by {
            if m4.contains_key(f) {
                assert(hash@[f] == m4[f]);
            }
        }
        assert forall|f: u16| next_frame(f).is_some() implies hash@.contains_key(f) by {}
        assert(hash@ =~= animation_map());
        hash
    }
}

} // verus!
