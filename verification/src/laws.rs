//! What holds of the library as a whole, proved from the contracts of its
//! parts.

use vstd::prelude::*;
use vstd::wrapping::u16_specs;
use crate::bounds::Bounds;
use crate::components::{Animator, ObjType, Player};
use crate::entity::Entity;
use crate::event::Event;
use crate::index_table::{lemma_free_sound, TableView};
use crate::input::Slot;
use crate::store::{lemma_create_sound, lemma_destroy_sound, CpRow, CpView};
use crate::world::{
    event_fault, event_step, collision_stage, contact_event, contacts, contacts_of, drain,
    fast_forward, pair_key, resolution_stage, tick, world_bounds, GameView, KEY_BULLET_ENEMY,
};

verus! {

/// The slot that `create` hands out is not in use by any entity, and the
/// handle it returns is valid and live. No other slot changes hands, and no
/// generation changes.
pub proof fn lemma_created_slot_is_fresh(c: CpView)
    requires
        c.sound(),
        c.table.has_room(),
    ensures
        c.after_create().sound(),
        !c.table.is_live(c.created().index),
        c.after_create().live(c.created()),
        forall|j: u16|
            j != c.created().index ==> c.after_create().table.is_live(j) == c.table.is_live(j),
        forall|j: int|
            0 <= j < c.rows.len() ==> (#[trigger] c.after_create().rows[j]).generation
                == c.rows[j].generation,
{
    lemma_create_sound(c);
}

/// A destroyed handle is not valid. When its slot is handed out again, the
/// new handle carries the next generation, so the old handle stays invalid;
/// unless the 16-bit generation wrapped around, the new one is greater.
pub proof fn lemma_destroyed_handle_stays_invalid(c: CpView, e: Entity)
    requires
        c.sound(),
        c.live(e),
    ensures
        !c.after_destroy(e).valid(e),
        c.after_destroy(e).sound(),
        c.after_destroy(e).table.has_room(),
        c.after_destroy(e).created().index == e.index,
        c.after_destroy(e).created().generation == u16_specs::wrapping_add(e.generation, 1),
        c.after_destroy(e).created() != e,
        !c.after_destroy(e).after_create().valid(e),
        e.generation < u16::MAX ==> c.after_destroy(e).created().generation > e.generation,
{
    lemma_destroy_sound(c, e);
    lemma_free_sound(c.table, e.index);
    let d = c.after_destroy(e);
    assert(c.table.list[e.index as int] == e.index);
    assert(d.table.head == e.index);
    lemma_create_sound(d);
}

/// Giving an index back twice is the same as giving it back once: the
/// second time changes nothing, wherever on the free list the index is.
pub proof fn lemma_free_is_idempotent(t: TableView, value: u16)
    requires
        t.sound(),
        value < t.list.len(),
    ensures
        t.after_free(value).after_free(value) == t.after_free(value),
        t.after_free(value).sound(),
{
    lemma_free_sound(t, value);
    lemma_free_sound(t.after_free(value), value);
    let u = t.after_free(value);
    if value != 0 && !t.free_seq().contains(value) {
        assert(u.free_seq()[0] == value);
        assert(u.free_seq().contains(value));
    }
}

/// A slot that is destroyed twice is handed out once: whatever handle the
/// second destroy is given, the creates that follow never return one slot
/// twice.
pub proof fn lemma_destroy_twice_creates_apart(c: CpView, e: Entity, again: Entity)
    requires
        c.sound(),
        c.live(e),
        again.index == e.index,
        c.after_destroy(e).after_destroy(again).table.list.len() <= u16::MAX,
    ensures
        c.after_destroy(e).after_destroy(again).sound(),
        c.after_destroy(e).after_destroy(again).table == c.after_destroy(e).table,
        c.after_destroy(e).after_destroy(again).created().index == e.index,
        c.after_destroy(e).after_destroy(again).after_create().created().index != e.index,
{
    lemma_destroy_sound(c, e);
    lemma_free_sound(c.table, e.index);
    let d = c.after_destroy(e);
    assert(c.table.list[e.index as int] == e.index);
    assert(d.table.head == e.index);
    lemma_destroy_sound(d, again);
    let d2 = d.after_destroy(again);
    assert(d2.table == d.table);
    lemma_create_sound(d2);
    let d3 = d2.after_create();
    lemma_create_sound(d3);
}

/// Destroying a valid handle makes it invalid, whatever else holds of the
/// store.
pub proof fn lemma_destroy_invalidates(c: CpView, e: Entity)
    requires
        c.valid(e),
    ensures
        !c.after_destroy(e).valid(e),
{
}

/// Destroying a handle that is not valid changes nothing.
pub proof fn lemma_destroy_of_invalid_is_noop(c: CpView, e: Entity)
    requires
        !c.valid(e),
    ensures
        c.after_destroy(e) == c,
{
}

/// A mask is tested by containment, so filters compose: a row passes the
/// union of two filters exactly if it passes both, and every row passes the
/// empty filter.
pub proof fn lemma_filters_compose(v: u8, m1: u8, m2: u8)
    by (bit_vector)
    ensures
        (v & (m1 | m2) == (m1 | m2)) == (v & m1 == m1 && v & m2 == m2),
        v & 0u8 == 0u8,
{
}

/// Two views of different slots are independent: what is written through
/// one lands in its own slot and nowhere else, in whichever order the two
/// are given up.
pub proof fn lemma_pair_views_independent(
    rows: Seq<CpRow>,
    ia: int,
    ib: int,
    ra: CpRow,
    rb: CpRow,
)
    requires
        0 <= ia < rows.len(),
        0 <= ib < rows.len(),
        ia != ib,
    ensures
        rows.update(ia, ra).update(ib, rb)[ia] == ra,
        rows.update(ia, ra).update(ib, rb)[ib] == rb,
        rows.update(ia, ra).update(ib, rb) == rows.update(ib, rb).update(ia, ra),
        forall|j: int|
            0 <= j < rows.len() && j != ia && j != ib ==> rows.update(ia, ra).update(ib, rb)[j]
                == rows[j],
{
    assert(rows.update(ia, ra).update(ib, rb) =~= rows.update(ib, rb).update(ia, ra));
}

/// The world after `n` full ticks, tick `k` being run on the slots
/// `inputs[k]`. A tick that cannot be completed leaves the world where it
/// stopped, and the ticks after it go on from there.
pub open spec fn replay(w: GameView, inputs: Seq<Seq<Slot>>, n: nat) -> GameView
    decreases n,
{
    if n == 0 {
        w
    } else {
        let before = replay(w, inputs, (n - 1) as nat);
        tick(GameView { slots: inputs[n - 1], ..before }).world
    }
}

/// A world and its snapshot stay equal for as long as they see the same
/// inputs: a tick is a function of the world it starts from and of nothing
/// else.
pub proof fn lemma_snapshot_replays(w: GameView, copy: GameView, inputs: Seq<Seq<Slot>>, n: nat)
    requires
        copy == w,
    ensures
        replay(copy, inputs, n) == replay(w, inputs, n),
        replay(copy, inputs, n).components.rows == replay(w, inputs, n).components.rows,
        replay(copy, inputs, n).global == replay(w, inputs, n).global,
{
}

/// Whether boxes `i` and `k` of `s` overlap.
pub open spec fn touching(s: Seq<Bounds>, i: int, k: int) -> bool {
    s[i].spec_overlap(&s[k])
}

/// Whether `c` is the contact of boxes `i` and `k` of `s`, which overlap.
pub open spec fn stems_from(s: Seq<Bounds>, i: int, k: int, c: Event) -> bool {
    &&& 0 <= i < k < s.len()
    &&& s[i].spec_overlap(&s[k])
    &&& c == contact_event(s[i], s[k])
}

/// The contacts of one box with those after it: each stems from a pair
/// that overlaps.
pub proof fn lemma_contacts_of_sound(s: Seq<Bounds>, i: int, j: int, c: Event)
    requires
        0 <= i,
        j <= s.len(),
        contacts_of(s, i, j).contains(c),
    ensures
        exists|k: int| k < j && #[trigger] stems_from(s, i, k, c),
    decreases j - i,
{
    if j <= i + 1 {
        assert(contacts_of(s, i, j) =~= Seq::<Event>::empty());
    } else {
        let rest = contacts_of(s, i, j - 1);
        if rest.contains(c) {
            lemma_contacts_of_sound(s, i, j - 1, c);
            let k = choose|k: int| k < j - 1 && #[trigger] stems_from(s, i, k, c);
            assert(k < j && stems_from(s, i, k, c));
        } else {
            let all = contacts_of(s, i, j);
            let p = choose|p: int| 0 <= p < all.len() && all[p] == c;
            if s[i].spec_overlap(&s[j - 1]) {
                if p < rest.len() {
                    assert(rest[p] == c);
                }
                assert(j - 1 < j && stems_from(s, i, j - 1, c));
            }
        }
    }
}

/// Two bodies whose boxes are apart on the x or on the y axis never give a
/// contact: every contact of the pass stems from a pair of boxes that
/// overlap.
pub proof fn lemma_contacts_sound(s: Seq<Bounds>, n: int, c: Event)
    requires
        0 <= n <= s.len(),
        contacts(s, n).contains(c),
    ensures
        exists|i: int, k: int| #[trigger] stems_from(s, i, k, c),
    decreases n,
{
    if n <= 0 {
        assert(contacts(s, n) =~= Seq::<Event>::empty());
    } else {
        let before = contacts(s, n - 1);
        let row = contacts_of(s, n - 1, s.len() as int);
        let all = contacts(s, n);
        let p = choose|p: int| 0 <= p < all.len() && all[p] == c;
        if p < before.len() {
            assert(before[p] == c);
            lemma_contacts_sound(s, n - 1, c);
        } else {
            assert(row[p - before.len()] == c);
            lemma_contacts_of_sound(s, n - 1, s.len() as int, c);
            let k = choose|k: int| k < s.len() && #[trigger] stems_from(s, n - 1, k, c);
            assert(stems_from(s, n - 1, k, c));
        }
    }
}

/// Every pair of boxes that overlap gives its contact.
pub proof fn lemma_contacts_complete(s: Seq<Bounds>, i: int, k: int)
    requires
        0 <= i < k < s.len(),
        s[i].spec_overlap(&s[k]),
    ensures
        contacts(s, s.len() as int).contains(contact_event(s[i], s[k])),
{
    let c = contact_event(s[i], s[k]);
    lemma_contacts_of_has(s, i, k, s.len() as int);
    lemma_contacts_has(s, i, s.len() as int, c);
}

/// The contacts of box `i` up to `j` hold the one with box `k`, if the two
/// overlap.
proof fn lemma_contacts_of_has(s: Seq<Bounds>, i: int, k: int, j: int)
    requires
        0 <= i < k < j <= s.len(),
        s[i].spec_overlap(&s[k]),
    ensures
        contacts_of(s, i, j).contains(contact_event(s[i], s[k])),
    decreases j - k,
{
    let c = contact_event(s[i], s[k]);
    let rest = contacts_of(s, i, j - 1);
    let all = contacts_of(s, i, j);
    if k == j - 1 {
        assert(all == rest.push(c));
        assert(all[rest.len() as int] == c);
    } else {
        lemma_contacts_of_has(s, i, k, j - 1);
        let p = choose|p: int| 0 <= p < rest.len() && rest[p] == c;
        assert(all[p] == c);
    }
}

/// What box `i` contributes is part of the contacts of the first `n`
/// boxes, for every `n` beyond `i`.
proof fn lemma_contacts_has(s: Seq<Bounds>, i: int, n: int, c: Event)
    requires
        0 <= i < n <= s.len(),
        contacts_of(s, i, s.len() as int).contains(c),
    ensures
        contacts(s, n).contains(c),
    decreases n - i,
{
    let before = contacts(s, n - 1);
    let row = contacts_of(s, n - 1, s.len() as int);
    let all = contacts(s, n);
    if i == n - 1 {
        let p = choose|p: int| 0 <= p < row.len() && row[p] == c;
        assert(all[before.len() + p] == c);
    } else {
        lemma_contacts_has(s, i, n - 1, c);
        let p = choose|p: int| 0 <= p < before.len() && before[p] == c;
        assert(all[p] == c);
    }
}

/// Where no two boxes overlap, the pass gives no contact.
pub proof fn lemma_apart_no_contacts(s: Seq<Bounds>)
    requires
        forall|i: int, k: int| 0 <= i < k < s.len() ==> !#[trigger] touching(s, i, k),
    ensures
        contacts(s, s.len() as int) == Seq::<Event>::empty(),
{
    let all = contacts(s, s.len() as int);
    if all.len() > 0 {
        assert(all.contains(all[0]));
        lemma_contacts_sound(s, s.len() as int, all[0]);
        let (i, k) = choose|i: int, k: int| #[trigger] stems_from(s, i, k, all[0]);
        assert(touching(s, i, k));
    }
    assert(all =~= Seq::<Event>::empty());
}

/// Two boxes give one contact if they overlap and none if they do not.
pub proof fn lemma_two_boxes(a: Bounds, b: Bounds)
    ensures
        contacts(seq![a, b], 2) == (if a.spec_overlap(&b) {
            seq![contact_event(a, b)]
        } else {
            Seq::<Event>::empty()
        }),
{
    let s = seq![a, b];
    reveal_with_fuel(contacts, 3);
    reveal_with_fuel(contacts_of, 3);
    assert(contacts_of(s, 1, 2) =~= Seq::<Event>::empty());
    assert(contacts_of(s, 0, 1) =~= Seq::<Event>::empty());
    assert(contacts(s, 2) =~= contacts_of(s, 0, 2) + contacts_of(s, 1, 2));
    assert(contacts(s, 2) =~= (if a.spec_overlap(&b) {
        seq![contact_event(a, b)]
    } else {
        Seq::<Event>::empty()
    }));
}

/// Overlapping is mutual.
pub proof fn lemma_overlap_symmetric(a: Bounds, b: Bounds)
    ensures
        a.spec_overlap(&b) == b.spec_overlap(&a),
{
}

/// A bullet and an enemy that meet give the contact keyed bullet over
/// enemy, with the bullet as the first entity, in whichever order their
/// boxes come.
pub proof fn lemma_bullet_enemy_contact(bullet: Bounds, enemy: Bounds)
    requires
        bullet.btype == ObjType::Bullet,
        enemy.btype == ObjType::Enemy,
    ensures
        contact_event(bullet, enemy) == Event::contact_of(
            KEY_BULLET_ENEMY,
            bullet.entity,
            enemy.entity,
        ),
        contact_event(enemy, bullet) == contact_event(bullet, enemy),
        KEY_BULLET_ENEMY == pair_key(ObjType::Bullet, ObjType::Enemy),
{
}

/// A full tick is the fast-forward of the same world followed by the
/// collision pass and event resolution.
pub proof fn lemma_tick_extends_fast_forward(w: GameView)
    ensures
        tick(w) == resolution_stage(collision_stage(fast_forward(w))),
{
}

/// A tick in which nothing is asked for and no two boxes overlap leaves the
/// world exactly as its fast-forward does.
pub proof fn lemma_quiet_tick(w: GameView)
    requires
        fast_forward(w).events.len() == 0,
        forall|i: int, k: int|
            0 <= i < k < world_bounds(fast_forward(w)).len() ==> !#[trigger] touching(
                world_bounds(fast_forward(w)),
                i,
                k,
            ),
    ensures
        tick(w).fault.is_none(),
        tick(w).world == fast_forward(w),
{
    let f = fast_forward(w);
    lemma_apart_no_contacts(world_bounds(f));
    assert(collision_stage(f).events =~= Seq::<Event>::empty());
    assert(collision_stage(f) =~= f);
    assert(drain(f, 0).world =~= f);
}

/// Whether row `b` is row `a` but for the frame of its animation and the
/// damage of its player.
pub open spec fn touched_only(a: CpRow, b: CpRow) -> bool {
    b == (CpRow {
        animator: Animator { frame: b.animator.frame, ..a.animator },
        player: Player { damage: b.player.damage, ..a.player },
        ..a
    })
}

/// Whether the events from `from` on are contacts and the creates of
/// explosions that contacts ask for.
pub open spec fn contacts_only(events: Seq<Event>, from: int) -> bool {
    forall|k: int|
        from <= k < events.len() ==> (#[trigger] events[k]).id == Event::Contact || (events[k].id
            == Event::CreateEntity && (events[k].otype == ObjType::Boom || events[k].otype
            == ObjType::PlayerBoom))
}

/// Whether slot `i` of the store has a row and is handed out.
pub open spec fn holds(c: CpView, i: int) -> bool {
    0 <= i < c.rows.len() && c.table.is_live(i as u16)
}

/// Whether world `v` is world `f` but for what contact responses write:
/// every slot that holds an entity in `f` holds it in `v`, with no more
/// than the frame of its animation and the damage of its player changed;
/// slots that were free in `f` may hold an explosion. The input slots, the
/// round state, the generator and the game-over flag are the same.
pub open spec fn response_of(f: GameView, v: GameView) -> bool {
    &&& v.slots == f.slots
    &&& v.global == f.global
    &&& v.gameOver == f.gameOver
    &&& v.rand == f.rand
    &&& v.components.sound()
    &&& f.components.rows.len() <= v.components.rows.len()
    &&& forall|i: int| #[trigger]
        holds(f.components, i) ==> holds(v.components, i) && touched_only(
            f.components.rows[i],
            v.components.rows[i],
        )
}

/// Resolving a contact, or the create of an explosion, changes no more
/// than contact responses write, and leaves a queue of such events.
proof fn lemma_step_response(f: GameView, v: GameView, k: int)
    requires
        response_of(f, v),
        0 <= k < v.events.len(),
        contacts_only(v.events, k),
        event_fault(v, v.events[k]).is_none(),
    ensures
        response_of(f, event_step(v, v.events[k])),
        contacts_only(event_step(v, v.events[k]).events, k + 1),
{
    let e = v.events[k];
    let u = event_step(v, e);
    let c = v.components;
    let d = u.components;
    if e.id == Event::Contact {
        assert(d.table == c.table);
        assert(d.rows.len() == c.rows.len());
        assert forall|i: int| #[trigger] holds(f.components, i) implies holds(d, i)
            && touched_only(f.components.rows[i], d.rows[i]) by {
            assert(holds(c, i));
            assert(touched_only(f.components.rows[i], c.rows[i]));
            assert(touched_only(c.rows[i], d.rows[i]));
        }
        assert forall|k2: int| k + 1 <= k2 < u.events.len() implies (#[trigger] u.events[k2]).id
            == Event::Contact || (u.events[k2].id == Event::CreateEntity && (u.events[k2].otype
            == ObjType::Boom || u.events[k2].otype == ObjType::PlayerBoom)) by {
            if k2 < v.events.len() {
                assert(u.events[k2] == v.events[k2]);
            }
        }
    } else {
        crate::data::lemma_catalogue_masks();
        lemma_create_sound(c);
        let j = c.created().index;
        assert(d.table == c.after_create().table);
        assert(d.rows.len() == c.after_create().rows.len());
        assert(d.sound());
        assert forall|i: int| #[trigger] holds(f.components, i) implies holds(d, i)
            && touched_only(f.components.rows[i], d.rows[i]) by {
            assert(holds(c, i));
            assert(i != j);
            assert(touched_only(f.components.rows[i], c.rows[i]));
            assert(d.rows[i] == c.rows[i]);
        }
        assert(u.events == v.events);
    }
}

/// A drain of contacts changes no more than contact responses write,
/// whether or not it is stopped.
proof fn lemma_drain_response(f: GameView, v: GameView, k: int)
    requires
        response_of(f, v),
        0 <= k,
        contacts_only(v.events, k),
    ensures
        response_of(f, drain(v, k).world),
    decreases crate::world::weight(v.events, k),
{
    if k >= v.events.len() {
        let end = drain(v, k).world;
        assert(end.components == v.components);
        assert forall|i: int| #[trigger] holds(f.components, i) implies holds(end.components, i)
            && touched_only(f.components.rows[i], end.components.rows[i]) by {
            assert(holds(v.components, i));
        }
    } else if event_fault(v, v.events[k]).is_some() {
    } else {
        lemma_step_response(f, v, k);
        crate::world::lemma_drain_decreases(v, k);
        lemma_drain_response(f, event_step(v, v.events[k]), k + 1);
    }
}

/// Where the fast-forward of a world leaves nothing in the queue, a full
/// tick of the same world differs from it by no more than the contact
/// responses write: in the slots that hold an entity, the frame of its
/// animation and the damage of its player, and in slots that were free,
/// the explosions that the responses created. The input slots, the round
/// state and the generator come out the same.
pub proof fn lemma_tick_differs_by_responses(w: GameView)
    requires
        fast_forward(w).events.len() == 0,
        fast_forward(w).components.sound(),
    ensures
        response_of(fast_forward(w), tick(w).world),
{
    let f = fast_forward(w);
    let c = collision_stage(f);
    let s = world_bounds(f);
    assert forall|k: int| 0 <= k < c.events.len() implies (#[trigger] c.events[k]).id
        == Event::Contact by {
        let e = c.events[k];
        let added = contacts(s, s.len() as int);
        assert(added[k] == e);
        assert(added.contains(e));
        lemma_contacts_sound(s, s.len() as int, e);
        let (i, j) = choose|i: int, j: int| #[trigger] stems_from(s, i, j, e);
    }
    assert(response_of(f, c));
    lemma_drain_response(f, c, 0);
}

} // verus!
