//! The stages of a tick, each working on the parts of the world it needs.

use vstd::prelude::*;
use std::collections::HashMap;
use crate::bounds::Bounds;
use crate::components::{Animator, Body, Cf, Enemy, ObjType, Player};
use crate::data::Data;
use crate::event::Event;
use crate::input::Slot;
use crate::store::{CpPack, CpRow};
use crate::world::{
    anim_emit, anim_emitter, anim_row, animation_map, any_alive, collected, contacts, contacts_of,
    cooled, count_selected, emitted, enemy_emit, enemy_emitter, enemy_row, lemma_count_bound,
    lemma_count_skip, lemma_emitted_skip, moved_row, pilots_seated, player_alive, player_emit,
    player_emitter, player_row, repaired_row, rout_emit, rout_emitter, ANIMATED, BODIES, ENEMIES,
    PILOTS, PLAYERS,
};

verus! {

/// The filters of the stages, bit by bit.
pub proof fn lemma_stage_masks()
    by (bit_vector)
    ensures
        64u8 | 32u8 == 96u8,
        64u8 | 4u8 | 8u8 == 76u8,
        64u8 | 4u8 | 16u8 == 84u8,
        64u8 | 4u8 == 68u8,
        64u8 | 8u8 == 72u8,
{
}

/// A row that passes a player filter has the player bit.
pub proof fn lemma_player_bit(v: u8)
    by (bit_vector)
    ensures
        v & 76u8 == 76u8 ==> v & 8u8 == 8u8,
        v & 72u8 == 72u8 ==> v & 8u8 == 8u8,
{
}

/// The animation stage: every active animator counts one tick and moves to
/// its next frame on every fourth; one that shows the null frame asks for
/// the destruction of its entity.
pub fn animate_rows(pack: &mut CpPack, events: &mut Vec<Event>, table: &HashMap<u16, u16>)
    requires
        old(pack).wf(),
        table@ == animation_map(),
    ensures
        final(pack).wf(),
        final(pack)@ == Seq::new(old(pack)@.len(), |i: int| anim_row(old(pack)@[i])),
        final(events)@ == old(events)@ + emitted(
            old(pack)@,
            old(pack)@.len() as int,
            anim_emitter(),
        ),
{
    let ghost rows0 = pack@;
    let ghost events0 = events@;
    let ghost n = pack@.len() as int;
    proof {
        lemma_stage_masks();
    }
    let mut it = pack.filter(Cf::Active | Cf::Animator);
    loop
        invariant
            it.mask == ANIMATED,
            it.pack.wf(),
            it.pack@.len() == n,
            rows0.len() == n,
            0 <= it.cursor <= n,
            table@ == animation_map(),
            *final(it.pack) == after_borrow(*pack),
            forall|j: int| 0 <= j < it.cursor ==> it.pack@[j] == anim_row(rows0[j]),
            forall|j: int| it.cursor <= j < n ==> it.pack@[j] == rows0[j],
            events@ == events0 + emitted(rows0, it.cursor as int, anim_emitter()),
        ensures
            it.pack.wf(),
            it.pack@.len() == n,
            *final(it.pack) == after_borrow(*pack),
            forall|j: int| 0 <= j < n ==> it.pack@[j] == anim_row(rows0[j]),
            events@ == events0 + emitted(rows0, n, anim_emitter()),
        decreases n - it.cursor,
    {
        let ghost c0 = it.cursor as int;
        let ghost before = it.pack@;
        match it.next() {
            None => {
                proof {
                    assert forall|j: int| c0 <= j < n implies #[trigger] anim_emitter()(
                        j,
                        rows0[j],
                    ) == Seq::<Event>::empty() by {
                        assert(!before[j].has(ANIMATED));
                    }
                    lemma_emitted_skip(rows0, c0, n, anim_emitter());
                    assert forall|j: int| 0 <= j < n implies it.pack@[j] == anim_row(rows0[j]) by {
                        if j >= c0 {
                            assert(!before[j].has(ANIMATED));
                        }
                    }
                }
                break ;
            },
            Some(r) => {
                let ghost k = r.entity.index as int;
                proof {
                    assert forall|j: int| c0 <= j < k implies #[trigger] anim_emitter()(
                        j,
                        rows0[j],
                    ) == Seq::<Event>::empty() by {
                        assert(!before[j].has(ANIMATED));
                    }
                    lemma_emitted_skip(rows0, c0, k, anim_emitter());
                }
                r.animator.count = r.animator.count.wrapping_add(1);
                if r.animator.count > 3 {
                    r.animator.count = 0;
                    let find_it = table.get(&r.animator.frame);
                    if find_it.is_some() {
                        r.animator.frame = *(find_it.unwrap());
                    }
                }
                if r.animator.frame == Data::_null {
                    events.push(Event::from_destroy(r.entity));
                }
                proof {
                    assert(r.row() == anim_row(rows0[k]));
                    assert(anim_emitter()(k, rows0[k]) == anim_emit(k, rows0[k]));
                    assert(events@ =~= events0 + emitted(rows0, k + 1, anim_emitter()));
                }
            },
        }
    }
    assert(pack@ =~= Seq::new(rows0.len(), |i: int| anim_row(rows0[i])));
}

/// The player stage for the rows: every active player body cools its gun
/// down, and, unless it is damaged, is destroyed if its slot is gone, kept
/// inside the play field, steered and fired as its input says. The result
/// says whether any player is alive.
pub fn steer_players(pack: &mut CpPack, events: &mut Vec<Event>, slots: &Vec<Slot>) -> (live: bool)
    requires
        old(pack).wf(),
        pilots_seated(old(pack)@, slots@),
    ensures
        final(pack).wf(),
        final(pack)@ == Seq::new(old(pack)@.len(), |i: int| player_row(old(pack)@[i], slots@)),
        final(events)@ == old(events)@ + emitted(
            old(pack)@,
            old(pack)@.len() as int,
            player_emitter(slots@),
        ),
        live == any_alive(old(pack)@, old(pack)@.len() as int, slots@),
{
    let ghost rows0 = pack@;
    let ghost events0 = events@;
    let ghost n = pack@.len() as int;
    proof {
        lemma_stage_masks();
    }
    let mut livePlayer = false;
    let mut it = pack.filter(Cf::Active | Cf::Body | Cf::Player);
    loop
        invariant
            it.mask == PLAYERS,
            it.pack.wf(),
            it.pack@.len() == n,
            rows0.len() == n,
            0 <= it.cursor <= n,
            pilots_seated(rows0, slots@),
            *final(it.pack) == after_borrow(*pack),
            forall|j: int| 0 <= j < it.cursor ==> it.pack@[j] == player_row(rows0[j], slots@),
            forall|j: int| it.cursor <= j < n ==> it.pack@[j] == rows0[j],
            events@ == events0 + emitted(rows0, it.cursor as int, player_emitter(slots@)),
            livePlayer == any_alive(rows0, it.cursor as int, slots@),
        ensures
            it.pack.wf(),
            it.pack@.len() == n,
            *final(it.pack) == after_borrow(*pack),
            forall|j: int| 0 <= j < n ==> it.pack@[j] == player_row(rows0[j], slots@),
            events@ == events0 + emitted(rows0, n, player_emitter(slots@)),
            livePlayer == any_alive(rows0, n, slots@),
        decreases n - it.cursor,
    {
        let ghost c0 = it.cursor as int;
        let ghost before = it.pack@;
        match it.next() {
            None => {
                proof {
                    assert forall|j: int| c0 <= j < n implies #[trigger] player_emitter(slots@)(
                        j,
                        rows0[j],
                    ) == Seq::<Event>::empty() by {
                        assert(!before[j].has(PLAYERS));
                    }
                    lemma_emitted_skip(rows0, c0, n, player_emitter(slots@));
                    assert forall|j: int| 0 <= j < n implies it.pack@[j] == player_row(
                        rows0[j],
                        slots@,
                    ) by {
                        if j >= c0 {
                            assert(!before[j].has(PLAYERS));
                        }
                    }
                    assert forall|j: int| c0 <= j < n implies !player_alive(
                        #[trigger] rows0[j],
                        slots@,
                    ) by {
                        assert(!before[j].has(PLAYERS));
                    }
                }
                break ;
            },
            Some(r) => {
                let ghost k = r.entity.index as int;
                proof {
                    assert forall|j: int| c0 <= j < k implies #[trigger] player_emitter(slots@)(
                        j,
                        rows0[j],
                    ) == Seq::<Event>::empty() by {
                        assert(!before[j].has(PLAYERS));
                    }
                    lemma_emitted_skip(rows0, c0, k, player_emitter(slots@));
                    assert forall|j: int| c0 <= j < k implies !player_alive(
                        #[trigger] rows0[j],
                        slots@,
                    ) by {
                        assert(!before[j].has(PLAYERS));
                    }
                    lemma_player_bit(rows0[k].comp.value);
                    assert(rows0[k].has(Cf::Player));
                }
                let ghost mid = events@;
                let slot = slots[r.player.slot as usize];

                r.body.velocity.x = 0;
                if r.player.delayFire > 0 {
                    r.player.delayFire -= 1;
                }
                if r.player.damage > 0 {
                    // a damaged ship does nothing
                } else {
                    if slot.connected {
                        livePlayer = true;
                    } else {
                        // the player is gone: the ship goes with it
                        r.player.damage = 100;
                        r.animator.frame = Data::_null_persist;
                        events.push(Event::from_entity(ObjType::PlayerBoom, r.body.position));
                    }
                    if r.body.position.x < -960 {
                        r.body.position.x = -960;
                    }
                    if r.body.position.x > 960 {
                        r.body.position.x = 960;
                    }
                    if slot.input.left {
                        r.body.velocity.x = -5;
                    }
                    if slot.input.right {
                        r.body.velocity.x = 5;
                    }
                    if slot.input.primary && r.player.delayFire == 0 {
                        r.player.delayFire = 24;
                        events.push(Event::from_entity(ObjType::Bullet, r.body.position));
                    }
                }
                proof {
                    assert(r.row() == player_row(rows0[k], slots@));
                    assert(player_emitter(slots@)(k, rows0[k]) == player_emit(k, rows0[k], slots@));
                    assert(events@ =~= mid + player_emit(k, rows0[k], slots@));
                    assert(events@ =~= events0 + emitted(rows0, k + 1, player_emitter(slots@)));
                    assert(livePlayer == any_alive(rows0, k + 1, slots@)) by {
                        if any_alive(rows0, k + 1, slots@) {
                            let i = choose|i: int|
                                0 <= i < k + 1 && player_alive(#[trigger] rows0[i], slots@);
                            if i < c0 {
                                assert(any_alive(rows0, c0, slots@));
                            }
                        }
                        if any_alive(rows0, c0, slots@) {
                            let i = choose|i: int|
                                0 <= i < c0 && player_alive(#[trigger] rows0[i], slots@);
                            assert(0 <= i < k + 1);
                        }
                        if player_alive(rows0[k], slots@) {
                            assert(any_alive(rows0, k + 1, slots@));
                        }
                    }
                }
            },
        }
    }
    assert(pack@ =~= Seq::new(rows0.len(), |i: int| player_row(rows0[i], slots@)));
    livePlayer
}

/// Asks for the destruction of every active enemy body. The rows stay as
/// they are.
pub fn rout_enemies(pack: &mut CpPack, events: &mut Vec<Event>)
    requires
        old(pack).wf(),
    ensures
        final(pack).wf(),
        final(pack)@ == old(pack)@,
        final(events)@ == old(events)@ + emitted(
            old(pack)@,
            old(pack)@.len() as int,
            rout_emitter(),
        ),
{
    let ghost rows0 = pack@;
    let ghost events0 = events@;
    let ghost n = pack@.len() as int;
    proof {
        lemma_stage_masks();
    }
    let mut it = pack.filter(Cf::Active | Cf::Body | Cf::Enemy);
    loop
        invariant
            it.mask == ENEMIES,
            it.pack.wf(),
            it.pack@.len() == n,
            rows0.len() == n,
            0 <= it.cursor <= n,
            *final(it.pack) == after_borrow(*pack),
            it.pack@ == rows0,
            events@ == events0 + emitted(rows0, it.cursor as int, rout_emitter()),
        ensures
            it.pack.wf(),
            *final(it.pack) == after_borrow(*pack),
            it.pack@ == rows0,
            events@ == events0 + emitted(rows0, n, rout_emitter()),
        decreases n - it.cursor,
    {
        let ghost c0 = it.cursor as int;
        match it.next() {
            None => {
                proof {
                    assert forall|j: int| c0 <= j < n implies #[trigger] rout_emitter()(
                        j,
                        rows0[j],
                    ) == Seq::<Event>::empty() by {
                        assert(!rows0[j].has(ENEMIES));
                    }
                    lemma_emitted_skip(rows0, c0, n, rout_emitter());
                }
                break ;
            },
            Some(r) => {
                let ghost k = r.entity.index as int;
                proof {
                    assert forall|j: int| c0 <= j < k implies #[trigger] rout_emitter()(
                        j,
                        rows0[j],
                    ) == Seq::<Event>::empty() by {
                        assert(!rows0[j].has(ENEMIES));
                    }
                    lemma_emitted_skip(rows0, c0, k, rout_emitter());
                }
                events.push(Event::from_destroy(r.entity));
                proof {
                    assert(rout_emitter()(k, rows0[k]) == rout_emit(k, rows0[k]));
                    assert(events@ =~= events0 + emitted(rows0, k + 1, rout_emitter()));
                    assert(rows0.update(k, r.row()) =~= rows0);
                }
            },
        }
    }
}

/// The enemy stage for the rows: every active enemy body patrols, turning
/// round when its counter starts over, moves at `speed` the way it faces,
/// and fires when its gun has cooled down. The result is the number of
/// enemies.
pub fn drive_enemies(pack: &mut CpPack, events: &mut Vec<Event>, speed: i32) -> (count: i32)
    requires
        old(pack).wf(),
    ensures
        final(pack).wf(),
        final(pack)@ == Seq::new(old(pack)@.len(), |i: int| enemy_row(old(pack)@[i], speed)),
        final(events)@ == old(events)@ + emitted(
            old(pack)@,
            old(pack)@.len() as int,
            enemy_emitter(),
        ),
        count == count_selected(old(pack)@, old(pack)@.len() as int, ENEMIES),
{
    let ghost rows0 = pack@;
    let ghost events0 = events@;
    let ghost n = pack@.len() as int;
    proof {
        lemma_stage_masks();
    }
    let mut count: i32 = 0;
    let mut it = pack.filter(Cf::Active | Cf::Body | Cf::Enemy);
    loop
        invariant
            it.mask == ENEMIES,
            it.pack.wf(),
            it.pack@.len() == n,
            rows0.len() == n,
            n <= 0x10000,
            0 <= it.cursor <= n,
            *final(it.pack) == after_borrow(*pack),
            forall|j: int| 0 <= j < it.cursor ==> it.pack@[j] == enemy_row(rows0[j], speed),
            forall|j: int| it.cursor <= j < n ==> it.pack@[j] == rows0[j],
            events@ == events0 + emitted(rows0, it.cursor as int, enemy_emitter()),
            count == count_selected(rows0, it.cursor as int, ENEMIES),
        ensures
            it.pack.wf(),
            it.pack@.len() == n,
            *final(it.pack) == after_borrow(*pack),
            forall|j: int| 0 <= j < n ==> it.pack@[j] == enemy_row(rows0[j], speed),
            events@ == events0 + emitted(rows0, n, enemy_emitter()),
            count == count_selected(rows0, n, ENEMIES),
        decreases n - it.cursor,
    {
        let ghost c0 = it.cursor as int;
        let ghost before = it.pack@;
        match it.next() {
            None => {
                proof {
                    assert forall|j: int| c0 <= j < n implies #[trigger] enemy_emitter()(
                        j,
                        rows0[j],
                    ) == Seq::<Event>::empty() by {
                        assert(!before[j].has(ENEMIES));
                    }
                    lemma_emitted_skip(rows0, c0, n, enemy_emitter());
                    assert forall|j: int| c0 <= j < n implies !(#[trigger] rows0[j]).has(
                        ENEMIES,
                    ) by {
                        assert(!before[j].has(ENEMIES));
                    }
                    lemma_count_skip(rows0, c0, n, ENEMIES);
                    assert forall|j: int| 0 <= j < n implies it.pack@[j] == enemy_row(
                        rows0[j],
                        speed,
                    ) by {
                        if j >= c0 {
                            assert(!before[j].has(ENEMIES));
                        }
                    }
                }
                break ;
            },
            Some(r) => {
                let ghost k = r.entity.index as int;
                proof {
                    assert forall|j: int| c0 <= j < k implies #[trigger] enemy_emitter()(
                        j,
                        rows0[j],
                    ) == Seq::<Event>::empty() by {
                        assert(!before[j].has(ENEMIES));
                    }
                    lemma_emitted_skip(rows0, c0, k, enemy_emitter());
                    assert forall|j: int| c0 <= j < k implies !(#[trigger] rows0[j]).has(
                        ENEMIES,
                    ) by {
                        assert(!before[j].has(ENEMIES));
                    }
                    lemma_count_skip(rows0, c0, k, ENEMIES);
                    lemma_count_bound(rows0, k, ENEMIES);
                }
                r.enemy.counter = r.enemy.counter.wrapping_add(1);
                if r.enemy.counter > 150 {
                    r.enemy.counter = 0;
                    r.enemy.direction = 0i8.wrapping_sub(r.enemy.direction);
                }
                r.body.velocity.x = (r.enemy.direction as i32).wrapping_mul(speed);

                if r.enemy.delayFire > 0 {
                    r.enemy.delayFire -= 1;
                }
                if r.enemy.delayFire == 0 {
                    r.enemy.delayFire = 2000;
                    events.push(Event::from_entity(ObjType::BadBullet, r.body.position));
                }
                count += 1;
                proof {
                    assert(r.row() == enemy_row(rows0[k], speed));
                    assert(enemy_emitter()(k, rows0[k]) == enemy_emit(k, rows0[k]));
                    assert(events@ =~= events0 + emitted(rows0, k + 1, enemy_emitter()));
                }
            },
        }
    }
    assert(pack@ =~= Seq::new(rows0.len(), |i: int| enemy_row(rows0[i], speed)));
    count
}

/// Integration: every active body moves by its velocity.
pub fn integrate_rows(pack: &mut CpPack)
    requires
        old(pack).wf(),
    ensures
        final(pack).wf(),
        final(pack)@ == Seq::new(old(pack)@.len(), |i: int| moved_row(old(pack)@[i])),
{
    let ghost rows0 = pack@;
    let ghost n = pack@.len() as int;
    proof {
        lemma_stage_masks();
    }
    let mut it = pack.filter(Cf::Active | Cf::Body);
    loop
        invariant
            it.mask == BODIES,
            it.pack.wf(),
            it.pack@.len() == n,
            rows0.len() == n,
            0 <= it.cursor <= n,
            *final(it.pack) == after_borrow(*pack),
            forall|j: int| 0 <= j < it.cursor ==> it.pack@[j] == moved_row(rows0[j]),
            forall|j: int| it.cursor <= j < n ==> it.pack@[j] == rows0[j],
        ensures
            it.pack.wf(),
            it.pack@.len() == n,
            *final(it.pack) == after_borrow(*pack),
            forall|j: int| 0 <= j < n ==> it.pack@[j] == moved_row(rows0[j]),
        decreases n - it.cursor,
    {
        let ghost c0 = it.cursor as int;
        let ghost before = it.pack@;
        match it.next() {
            None => {
                proof {
                    assert forall|j: int| 0 <= j < n implies it.pack@[j] == moved_row(rows0[j]) by {
                        if j >= c0 {
                            assert(!before[j].has(BODIES));
                        }
                    }
                }
                break ;
            },
            Some(r) => {
                let ghost k = r.entity.index as int;
                proof {
                    assert forall|j: int| c0 <= j < k implies moved_row(rows0[j]) == rows0[j] by {
                        assert(!before[j].has(BODIES));
                    }
                }
                let velocity = r.body.velocity;
                r.body.position.add_assign(velocity);
                proof {
                    assert(r.row() == moved_row(rows0[k]));
                }
            },
        }
    }
    assert(pack@ =~= Seq::new(rows0.len(), |i: int| moved_row(rows0[i])));
}

/// The start of a round for the rows: every active player whose slot is
/// connected is repaired.
pub fn repair_players(pack: &mut CpPack, slots: &Vec<Slot>)
    requires
        old(pack).wf(),
        pilots_seated(old(pack)@, slots@),
    ensures
        final(pack).wf(),
        final(pack)@ == Seq::new(old(pack)@.len(), |i: int| repaired_row(old(pack)@[i], slots@)),
{
    let ghost rows0 = pack@;
    let ghost n = pack@.len() as int;
    proof {
        lemma_stage_masks();
    }
    let mut it = pack.filter(Cf::Active | Cf::Player);
    loop
        invariant
            it.mask == PILOTS,
            it.pack.wf(),
            it.pack@.len() == n,
            rows0.len() == n,
            0 <= it.cursor <= n,
            pilots_seated(rows0, slots@),
            *final(it.pack) == after_borrow(*pack),
            forall|j: int| 0 <= j < it.cursor ==> it.pack@[j] == repaired_row(rows0[j], slots@),
            forall|j: int| it.cursor <= j < n ==> it.pack@[j] == rows0[j],
        ensures
            it.pack.wf(),
            it.pack@.len() == n,
            *final(it.pack) == after_borrow(*pack),
            forall|j: int| 0 <= j < n ==> it.pack@[j] == repaired_row(rows0[j], slots@),
        decreases n - it.cursor,
    {
        let ghost c0 = it.cursor as int;
        let ghost before = it.pack@;
        match it.next() {
            None => {
                proof {
                    assert forall|j: int| 0 <= j < n implies it.pack@[j] == repaired_row(
                        rows0[j],
                        slots@,
                    ) by {
                        if j >= c0 {
                            assert(!before[j].has(PILOTS));
                        }
                    }
                }
                break ;
            },
            Some(r) => {
                let ghost k = r.entity.index as int;
                proof {
                    assert forall|j: int| c0 <= j < k implies repaired_row(rows0[j], slots@)
                        == rows0[j] by {
                        assert(!before[j].has(PILOTS));
                    }
                    lemma_player_bit(rows0[k].comp.value);
                    assert(rows0[k].has(Cf::Player));
                }
                if slots[r.player.slot as usize].connected {
                    r.player.damage = 0;
                    r.animator.frame = Data::player_ship_0;
                }
                proof {
                    assert(r.row() == repaired_row(rows0[k], slots@));
                }
            },
        }
    }
    assert(pack@ =~= Seq::new(rows0.len(), |i: int| repaired_row(rows0[i], slots@)));
}

/// Fills `list` with the boxes of the active bodies, in row order. The rows
/// stay as they are.
pub fn collect_bounds(pack: &mut CpPack, list: &mut Vec<Bounds>)
    requires
        old(pack).wf(),
    ensures
        final(pack).wf(),
        final(pack)@ == old(pack)@,
        final(list)@ == collected(old(pack)@, old(pack)@.len() as int),
{
    let ghost rows0 = pack@;
    let ghost n = pack@.len() as int;
    proof {
        lemma_stage_masks();
    }
    list.clear();
    let mut it = pack.filter(Cf::Active | Cf::Body);
    loop
        invariant
            it.mask == BODIES,
            it.pack.wf(),
            it.pack@.len() == n,
            rows0.len() == n,
            0 <= it.cursor <= n,
            *final(it.pack) == after_borrow(*pack),
            it.pack@ == rows0,
            list@ == collected(rows0, it.cursor as int),
        ensures
            it.pack.wf(),
            *final(it.pack) == after_borrow(*pack),
            it.pack@ == rows0,
            list@ == collected(rows0, n),
        decreases n - it.cursor,
    {
        let ghost c0 = it.cursor as int;
        match it.next() {
            None => {
                proof {
                    lemma_collected_skip(rows0, c0, n);
                }
                break ;
            },
            Some(r) => {
                let ghost k = r.entity.index as int;
                proof {
                    lemma_collected_skip(rows0, c0, k);
                }
                list.push(
                    Bounds::from(
                        r.entity,
                        r.objectId.value,
                        r.body.position,
                        r.body.velocity,
                        r.body.size,
                    ),
                );
                proof {
                    assert(rows0.update(k, r.row()) =~= rows0);
                }
            },
        }
    }
}

/// Rows that are not active bodies have no box.
pub proof fn lemma_collected_skip(rows: Seq<CpRow>, a: int, b: int)
    requires
        0 <= a <= b,
        forall|j: int| a <= j < b ==> !(#[trigger] rows[j]).has(BODIES),
    ensures
        collected(rows, b) == collected(rows, a),
    decreases b - a,
{
    if a < b {
        lemma_collected_skip(rows, a, b - 1);
        assert(!rows[b - 1].has(BODIES));
    }
}

/// Two kind tags side by side in 16 bits.
pub proof fn lemma_pair_key(high: u8, low: u8)
    by (bit_vector)
    ensures
        ((high as u16) << 8) | (low as u16) == high * 256 + low,
{
}

/// The pair scan: every box is tested against every box after it, and each
/// pair that overlaps gives one contact.
pub fn scan_contacts(list: &Vec<Bounds>, events: &mut Vec<Event>)
    ensures
        final(events)@ == old(events)@ + contacts(list@, list@.len() as int),
{
    let ghost events0 = events@;
    let len = list.len();
    let mut i: usize = 0;
    while i < len
        invariant
            i <= len,
            len == list@.len(),
            events@ == events0 + contacts(list@, i as int),
        decreases len - i,
    {
        let iter = &list[i];
        let ghost row0 = events@;
        let mut j: usize = i + 1;
        while j < len
            invariant
                i < len,
                i + 1 <= j <= len,
                len == list@.len(),
                *iter == list@[i as int],
                events@ == row0 + contacts_of(list@, i as int, j as int),
            decreases len - j,
        {
            let nextIter = &list[j];
            if iter.overlap(nextIter) {
                let it = iter.btype as u16;
                let nxit = nextIter.btype as u16;
                proof {
                    lemma_pair_key(iter.btype, nextIter.btype);
                    lemma_pair_key(nextIter.btype, iter.btype);
                }
                if iter.btype > nextIter.btype {
                    events.push(Event::from_contact((it << 8) | nxit, iter.entity, nextIter.entity));
                } else {
                    events.push(Event::from_contact((nxit << 8) | it, nextIter.entity, iter.entity));
                }
            }
            j += 1;
            assert(events@ =~= row0 + contacts_of(list@, i as int, j as int));
        }
        i += 1;
        assert(events@ =~= events0 + contacts(list@, i as int));
    }
}

} // verus!
