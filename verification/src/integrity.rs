//! Why the store of a world never comes apart: the free list stays a proper
//! list whatever the events of a tick name, and only slots that are handed
//! out hold anything.

use vstd::prelude::*;
use crate::event::Event;
use crate::store::{lemma_create_sound, lemma_destroy_sound, CpView};
use crate::world::{
    animation_stage, collision_stage, drain, enemy_stage, event_fault, event_step, fast_forward,
    input_stage, integration_stage, lemma_drain_decreases, opening, player_stage, resolution_stage,
    round_stage, tick, weight, GameView,
};

verus! {

/// Whether every row with a mask that is not empty belongs to a slot that
/// is handed out.
pub open spec fn rows_live(c: CpView) -> bool {
    forall|i: int|
        0 <= i < c.rows.len() && (#[trigger] c.rows[i]).comp.value != 0 ==> c.table.is_live(
            i as u16,
        )
}

/// Whether two stores have the same table and, row by row, the same
/// generations and masks.
pub open spec fn same_frame(c: CpView, d: CpView) -> bool {
    &&& d.table == c.table
    &&& d.rows.len() == c.rows.len()
    &&& forall|i: int|
        0 <= i < c.rows.len() ==> (#[trigger] d.rows[i]).generation == c.rows[i].generation
            && d.rows[i].comp == c.rows[i].comp
}

impl GameView {
    /// The store is sound and only slots that are handed out hold
    /// anything.
    pub open spec fn intact(self) -> bool {
        self.components.sound() && rows_live(self.components)
    }
}

/// A stage that keeps the table, the generations and the masks keeps the
/// world intact.
pub proof fn lemma_frame_intact(w: GameView, v: GameView)
    requires
        w.intact(),
        same_frame(w.components, v.components),
    ensures
        v.intact(),
{
    assert forall|i: int|
        0 <= i < v.components.rows.len() && (#[trigger] v.components.rows[i]).comp.value
            != 0 implies v.components.table.is_live(i as u16) by {
        assert(w.components.rows[i].comp.value != 0);
    }
}

/// A fast-forward keeps an intact world intact: its stages write
/// components and queue events, and leave the allocator, the generations
/// and the masks alone.
pub proof fn lemma_fast_forward_intact(w: GameView)
    requires
        w.intact(),
    ensures
        input_stage(w).intact(),
        animation_stage(w).intact(),
        player_stage(w).intact(),
        enemy_stage(w).intact(),
        integration_stage(w).intact(),
        round_stage(w).intact(),
        fast_forward(w).intact(),
{
    lemma_frame_intact(w, input_stage(w));
    lemma_frame_intact(w, animation_stage(w));
    lemma_frame_intact(w, player_stage(w));
    lemma_frame_intact(w, enemy_stage(w));
    lemma_frame_intact(w, integration_stage(w));
    lemma_frame_intact(w, round_stage(w));
    let a = input_stage(w);
    let b = animation_stage(a);
    lemma_frame_intact(a, b);
    let c = player_stage(b);
    lemma_frame_intact(b, c);
    let d = enemy_stage(c);
    lemma_frame_intact(c, d);
    let e = integration_stage(d);
    lemma_frame_intact(d, e);
    lemma_frame_intact(e, round_stage(e));
}

/// The collision pass keeps an intact world intact.
pub proof fn lemma_collision_intact(w: GameView)
    requires
        w.intact(),
    ensures
        collision_stage(w).intact(),
{
    lemma_frame_intact(w, collision_stage(w));
}

/// Resolving one event keeps an intact world intact, whatever the event
/// names: a contact writes components only, a destroy gives a slot back
/// once at most and empties its row, and a create fills a slot that was
/// free.
pub proof fn lemma_step_intact(w: GameView, e: Event)
    requires
        w.intact(),
        event_fault(w, e).is_none(),
    ensures
        event_step(w, e).intact(),
{
    let c = w.components;
    let v = event_step(w, e);
    let d = v.components;
    if e.id == Event::Contact {
        lemma_frame_intact(w, v);
    } else if e.id == Event::DestroyEntity {
        lemma_destroy_sound(c, e.a);
        assert forall|i: int|
            0 <= i < d.rows.len() && (#[trigger] d.rows[i]).comp.value != 0 implies d.table.is_live(
            i as u16,
        ) by {
            if c.valid(e.a) && i == e.a.index {
                assert(d.rows[i].comp.value == 0);
            } else {
                assert(c.rows[i].comp.value != 0);
                assert(c.table.is_live(i as u16));
            }
        }
    } else if e.id == Event::CreateEntity {
        lemma_create_sound(c);
        let j = c.created().index;
        let c1 = c.after_create();
        assert(d.table == c1.table);
        assert(d.rows.len() == c1.rows.len());
        assert forall|i: int|
            0 <= i < d.rows.len() && (#[trigger] d.rows[i]).comp.value != 0 implies d.table.is_live(
            i as u16,
        ) by {
            if i != j {
                assert(d.rows[i].comp == c1.rows[i].comp);
                if i < c.rows.len() {
                    assert(c.rows[i].comp.value != 0);
                    assert(c.table.is_live(i as u16));
                }
            }
        }
    } else {
        assert(v == w);
    }
}

/// A drain leaves an intact world intact, whether or not it is stopped.
pub proof fn lemma_drain_intact(w: GameView, k: int)
    requires
        0 <= k,
        w.intact(),
    ensures
        drain(w, k).world.intact(),
    decreases weight(w.events, k),
{
    if k >= w.events.len() {
    } else if event_fault(w, w.events[k]).is_some() {
    } else {
        lemma_step_intact(w, w.events[k]);
        lemma_drain_decreases(w, k);
        lemma_drain_intact(event_step(w, w.events[k]), k + 1);
    }
}

/// Event resolution leaves an intact world intact.
pub proof fn lemma_resolution_intact(w: GameView)
    requires
        w.intact(),
    ensures
        resolution_stage(w).world.intact(),
{
    lemma_drain_intact(w, 0);
}

/// A full tick leaves an intact world intact, whether or not it is
/// stopped.
pub proof fn lemma_tick_intact(w: GameView)
    requires
        w.intact(),
    ensures
        tick(w).world.intact(),
{
    lemma_fast_forward_intact(w);
    lemma_collision_intact(fast_forward(w));
    lemma_resolution_intact(collision_stage(fast_forward(w)));
}

/// The opening of a round is intact, whatever the world was.
pub proof fn lemma_opening_intact(w: GameView, seed: u32)
    ensures
        opening(w, seed).intact(),
{
    crate::index_table::lemma_empty_sound();
}

} // verus!
