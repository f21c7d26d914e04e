//! The orchestrator: it owns the whole world and steps it tick by tick.

use vstd::prelude::*;
use std::collections::HashMap;
use crate::bounds::{sort_by_lower_x, Bounds};
use crate::components::{Body, Cf, Enemy, ObjType, Player};
use crate::data::{lemma_catalogue_masks, Data};
use crate::event::Event;
use crate::input::{bit_run, BitMask, GlobalState, Slot};
use crate::integrity::{
    lemma_collision_intact, lemma_fast_forward_intact, lemma_opening_intact,
    lemma_resolution_intact, lemma_tick_intact,
};
use crate::rng::{MersenneTwister, RngState};
use crate::store::{copy_column, Cp, CpView};
use crate::systems::{
    animate_rows, collect_bounds, drive_enemies, integrate_rows, lemma_pair_key, repair_players,
    rout_enemies, scan_contacts, steer_players,
};
use crate::vector::Vector2;
use crate::world::{
    animation_map, animation_stage, bit, collide, collision_stage, create_step, decoded, drain,
    enemy_grid, enemy_stage, event_step, fast_forward, filled_row, grid_event, input_stage,
    integration_stage, lemma_count_bound, lemma_drain_decreases, lemma_opening_resolves, opening,
    pair_key, pilots_seated, player_stage, resolution_stage, roster, round_stage, tick, weight,
    world_bounds, Fatal, GameView, ENEMIES, SLOT_COUNT,
};

verus! {

/// A world: the input slots, the round state, the generator, the component
/// store and the event queue, with the fixed data beside them.
pub struct Game {
    pub animation_table: HashMap<u16, u16>,
    pub data: Data,
    pub slots: Vec<Slot>,
    pub global: GlobalState,
    pub rand: MersenneTwister,
    pub components: Cp,
    pub boundList: Vec<Bounds>,
    pub eventList: Vec<Event>,
    pub gameOver: bool,
}

impl View for Game {
    type V = GameView;

    open spec fn view(&self) -> GameView {
        GameView {
            slots: self.slots@,
            global: self.global,
            rand: self.rand@,
            components: self.components@,
            events: self.eventList@,
            gameOver: self.gameOver,
        }
    }
}

/// The masks of the input word, bit by bit.
proof fn lemma_input_bits(raw: i64, left: i64, right: i64, primary: i64)
    by (bit_vector)
    requires
        left == 0i64 | (1i64 << 16usize),
        right == 0i64 | (1i64 << 17usize),
        primary == 0i64 | (1i64 << 18usize),
    ensures
        ((raw & left) >> 16usize == 1) == ((raw >> 16usize) & 1 == 1),
        ((raw & right) >> 17usize == 1) == ((raw >> 17usize) & 1 == 1),
        ((raw & primary) >> 18usize == 1) == ((raw >> 18usize) & 1 == 1),
{
}

/// A run of one bit.
proof fn lemma_single_bit(k: int)
    requires
        0 <= k,
    ensures
        bit_run(k, k + 1) == 0i64 | (1i64 << (k as usize)),
{
    assert(bit_run(k, k) == 0);
}

/// Asks for a player for every slot that is connected and was so at the
/// start of the round, each at its own place along the bottom of the field.
fn queue_roster(slots: &Vec<Slot>, events: &mut Vec<Event>)
    requires
        slots@.len() == SLOT_COUNT,
        old(events)@.len() == 0,
    ensures
        final(events)@ == roster(slots@, slots@.len() as int),
{
    let n = slots.len();
    let mut usize_j: usize = 0;
    assert(events@ =~= roster(slots@, 0));
    while usize_j < n
        invariant
            usize_j <= n,
            n == 64,
            slots@.len() == n,
            events@ == roster(slots@, usize_j as int),
        decreases n - usize_j,
    {
        // if the slot is connected
        if slots[usize_j].connected && slots[usize_j].connectedAtStart {
            let j = usize_j as i32;
            let j16 = usize_j as u16;
            events.push(Event::from_player(j16, Vector2::from((j + 1) * 60 - 960 + 32, -500)));
        }
        usize_j += 1;
    }
}

/// Asks for the enemy grid: 24 columns of 20 enemies, column by column.
fn queue_enemy_grid(events: &mut Vec<Event>)
    ensures
        final(events)@ == old(events)@ + enemy_grid(),
{
    let ghost events0 = events@;
    let mut j: i32 = 0;
    assert(events@ =~= events0 + enemy_grid().take(0));
    while j < 24
        invariant
            0 <= j <= 24,
            events@ == events0 + enemy_grid().take(j * 20),
        decreases 24 - j,
    {
        let mut i: i32 = 0;
        while i < 20
            invariant
                0 <= j < 24,
                0 <= i <= 20,
                events@ == events0 + enemy_grid().take(j * 20 + i),
            decreases 20 - i,
        {
            events.push(
                Event::from_entity(ObjType::Enemy, Vector2::from(j * 60 - 960 + 32, i * 32 - 100)),
            );
            proof {
                let k = j * 20 + i;
                assert(k / 20 == j && k % 20 == i);
                assert(enemy_grid()[k] == grid_event(k));
                assert(enemy_grid().take(k + 1) =~= enemy_grid().take(k).push(enemy_grid()[k]));
                assert(events@ =~= events0 + enemy_grid().take(k + 1));
            }
            i += 1;
        }
        j += 1;
    }
    assert(enemy_grid().take(480) =~= enemy_grid());
}

impl Game {
    pub const shotCleanerVsBulletKey: u16 = 1795;
    pub const shotCleanerVsBadBulletKey: u16 = 1796;
    pub const bulletVsEnemyKey: u16 = 770;
    pub const badBulletVsPlayerKey: u16 = 1025;

    /// The fixed data is what it should be, there are 64 input slots, the
    /// store holds together, and every player row names a slot that exists.
    pub open spec fn wf(&self) -> bool {
        &&& self.animation_table@ == animation_map()
        &&& self.data.wf()
        &&& self.slots@.len() == SLOT_COUNT
        &&& self.rand.wf()
        &&& self.components.wf()
        &&& pilots_seated(self.components@.rows, self.slots@)
    }

    /// The bit of the input word that says the slot is in sync.
    pub fn SyncedMask() -> (m: BitMask)
        ensures
            m.mask == bit_run(55, 56),
            m.shift == 55,
    {
        BitMask::const_from(55, 56)
    }

    /// The bits of the input word that hold the analog axis.
    pub fn XMask() -> (m: BitMask)
        ensures
            m.mask == bit_run(0, 16),
            m.shift == 0,
    {
        BitMask::const_from(0, 16)
    }

    /// The bit of the input word for steering left.
    pub fn LeftMask() -> (m: BitMask)
        ensures
            m.mask == bit_run(16, 17),
            m.shift == 16,
    {
        BitMask::const_from(16, 17)
    }

    /// The bit of the input word for steering right.
    pub fn RightMask() -> (m: BitMask)
        ensures
            m.mask == bit_run(17, 18),
            m.shift == 17,
    {
        BitMask::const_from(17, 18)
    }

    /// The bit of the input word for primary fire.
    pub fn PrimaryMask() -> (m: BitMask)
        ensures
            m.mask == bit_run(18, 19),
            m.shift == 18,
    {
        BitMask::const_from(18, 19)
    }

    /// A world before its first `init`: 64 unconnected slots, an empty
    /// store, an empty queue, an unseeded generator.
    pub fn new() -> (g: Self)
        ensures
            g.wf(),
            g@.slots == Seq::new(SLOT_COUNT as nat, |i: int| Slot::blank()),
            g@.components == CpView::empty(),
            g@.events == Seq::<Event>::empty(),
            g@.global == (GlobalState {
                playing: false,
                enemySpeed: 0,
                enemyCount: 0,
                textType: 0,
                textAnimate: 0,
            }),
            g@.rand == (RngState { p: 0, q: 0, r: 0, x: Seq::new(624, |i: int| 0u32) }),
            !g@.gameOver,
            g.boundList@ == Seq::<Bounds>::empty(),
            g@.intact(),
    {
        let mut slots: Vec<Slot> = Vec::new();
        while slots.len() < 64
            invariant
                slots@.len() <= 64,
                forall|i: int| 0 <= i < slots@.len() ==> slots@[i] == Slot::blank(),
            decreases 64 - slots@.len(),
        {
            slots.push(Slot::default());
        }
        let g = Self {
            animation_table: Game::setupAnimationTable(),
            data: Data::new(),
            slots: slots,
            global: GlobalState::default(),
            rand: MersenneTwister::new(),
            components: Cp::new(),
            boundList: Vec::new(),
            eventList: Vec::new(),
            gameOver: false,
        };
        assert(g@.slots =~= Seq::new(SLOT_COUNT as nat, |i: int| Slot::blank()));
        g
    }

    /// The key of a contact between kinds `a` and `b`: `a` in the high byte,
    /// `b` in the low.
    pub fn computeKey(a: u8, b: u8) -> (key: u16)
        ensures
            key == pair_key(a, b),
    {
        proof {
            lemma_pair_key(a, b);
        }
        ((a as u16) << 8) | (b as u16)
    }

    /// Makes this world a copy of `other`: slots, round state, generator,
    /// store, pending events and the game-over flag. The two share nothing
    /// afterwards.
    pub fn smartCopy(&mut self, other: &Game)
        requires
            old(self).wf(),
            other.wf(),
        ensures
            final(self).wf(),
            final(self)@ == other@,
            final(self).boundList@ == old(self).boundList@,
    {
        copy_column(&mut self.slots, &other.slots, Slot::default());
        copy_column(&mut self.eventList, &other.eventList, Event::default());

        self.global = other.global;
        self.rand = other.rand;
        self.components.smartCopy(&other.components);
        self.gameOver = other.gameOver;
    }

    /// The input stage: decodes the raw word of every slot into its left,
    /// right and primary-fire flags.
    pub fn compute_input(&mut self)
        requires
            old(self).wf(),
        ensures
            final(self).wf(),
            final(self)@ == input_stage(old(self)@),
            final(self).boundList@ == old(self).boundList@,
            old(self)@.intact() ==> final(self)@.intact(),
    {
        proof {
            if self@.intact() {
                lemma_fast_forward_intact(self@);
            }
        }
        let primary = Game::PrimaryMask();
        let left = Game::LeftMask();
        let right = Game::RightMask();
        proof {
            lemma_single_bit(16);
            lemma_single_bit(17);
            lemma_single_bit(18);
        }
        let n = self.slots.len();
        let mut i: usize = 0;
        while i < n
            invariant
                i <= n,
                n == self.slots@.len(),
                n == old(self).slots@.len(),
                primary.shift == 18 && primary.mask == 0i64 | (1i64 << 18usize),
                left.shift == 16 && left.mask == 0i64 | (1i64 << 16usize),
                right.shift == 17 && right.mask == 0i64 | (1i64 << 17usize),
                forall|k: int| 0 <= k < i ==> self.slots@[k] == decoded(old(self).slots@[k]),
                forall|k: int| i <= k < n ==> self.slots@[k] == old(self).slots@[k],
                self.global == old(self).global,
                self.rand == old(self).rand,
                self.components == old(self).components,
                self.eventList == old(self).eventList,
                self.boundList == old(self).boundList,
                self.gameOver == old(self).gameOver,
                self.animation_table == old(self).animation_table,
                self.data == old(self).data,
            decreases n - i,
        {
            let raw = self.slots[i].raw;
            proof {
                lemma_input_bits(raw, left.mask, right.mask, primary.mask);
            }
            self.slots[i].input.primary = primary.decode(raw) == 1;
            self.slots[i].input.left = left.decode(raw) == 1;
            self.slots[i].input.right = right.decode(raw) == 1;
            i += 1;
        }
        assert(self@.slots =~= input_stage(old(self)@).slots);
    }

    /// The animation stage.
    pub fn updateAnimators(&mut self)
        requires
            old(self).wf(),
        ensures
            final(self).wf(),
            final(self)@ == animation_stage(old(self)@),
            final(self).boundList@ == old(self).boundList@,
            old(self)@.intact() ==> final(self)@.intact(),
    {
        proof {
            if self@.intact() {
                lemma_fast_forward_intact(self@);
            }
        }
        animate_rows(&mut self.components.pack, &mut self.eventList, &self.animation_table);
    }

    /// The player stage. When the round is in play and no player is alive,
    /// the round is lost: the banner comes back and every enemy is marked
    /// for destruction.
    pub fn updatePlayers(&mut self)
        requires
            old(self).wf(),
        ensures
            final(self).wf(),
            final(self)@ == player_stage(old(self)@),
            final(self).boundList@ == old(self).boundList@,
            old(self)@.intact() ==> final(self)@.intact(),
    {
        proof {
            if self@.intact() {
                lemma_fast_forward_intact(self@);
            }
        }
        let livePlayer = steer_players(&mut self.components.pack, &mut self.eventList, &self.slots);

        if self.global.playing && !livePlayer {
            self.global.playing = false;
            self.global.textAnimate = 0;
            self.global.textType = Data::text_no;

            rout_enemies(&mut self.components.pack, &mut self.eventList);
        }
    }

    /// The enemy stage. It counts the enemies; when the round is in play
    /// and none is left, the round is won and the banner comes back.
    pub fn updateEnemies(&mut self)
        requires
            old(self).wf(),
        ensures
            final(self).wf(),
            final(self)@ == enemy_stage(old(self)@),
            final(self).boundList@ == old(self).boundList@,
            old(self)@.intact() ==> final(self)@.intact(),
    {
        proof {
            if self@.intact() {
                lemma_fast_forward_intact(self@);
            }
        }
        proof {
            lemma_count_bound(
                self.components@.rows,
                self.components@.rows.len() as int,
                ENEMIES,
            );
        }
        self.global.enemyCount = drive_enemies(
            &mut self.components.pack,
            &mut self.eventList,
            self.global.enemySpeed,
        );
        self.global.enemySpeed = 3;

        if self.global.playing && self.global.enemyCount == 0 {
            self.global.playing = false;
            self.global.textAnimate = 0;
            self.global.textType = Data::text_great;
        }
    }

    /// Integration: every active body moves by its velocity.
    pub fn integrate(&mut self)
        requires
            old(self).wf(),
        ensures
            final(self).wf(),
            final(self)@ == integration_stage(old(self)@),
            final(self).boundList@ == old(self).boundList@,
            old(self)@.intact() ==> final(self)@.intact(),
    {
        proof {
            if self@.intact() {
                lemma_fast_forward_intact(self@);
            }
        }
        integrate_rows(&mut self.components.pack);
    }

    /// The round-state stage. While the banner shows, its timer runs. Once
    /// it is over, a round starts if the banner said "ready": the connected
    /// players are repaired and the enemy grid is asked for. After any
    /// other banner the game is over for good.
    pub fn resolveState(&mut self)
        requires
            old(self).wf(),
        ensures
            final(self).wf(),
            final(self)@ == round_stage(old(self)@),
            final(self).boundList@ == old(self).boundList@,
            old(self)@.intact() ==> final(self)@.intact(),
    {
        proof {
            if self@.intact() {
                lemma_fast_forward_intact(self@);
            }
        }
        if !self.global.playing {
            self.global.textAnimate = self.global.textAnimate.wrapping_add(
                Data::text_animate_counter,
            );

            if self.global.textAnimate > 1000000000 {
                if self.global.textType != Data::text_ready {
                    self.gameOver = true;
                } else {
                    self.global.playing = true;

                    repair_players(&mut self.components.pack, &self.slots);

                    // a new grid of enemies: 24 columns of 20
                    queue_enemy_grid(&mut self.eventList);
                }
            }
        }
    }

    /// Every stage of a tick but the collision pass and event resolution.
    /// Events that the stages ask for stay in the queue.
    pub fn fastForward(&mut self)
        requires
            old(self).wf(),
        ensures
            final(self).wf(),
            final(self)@ == fast_forward(old(self)@),
            final(self).boundList@ == old(self).boundList@,
            old(self)@.intact() ==> final(self)@.intact(),
    {
        proof {
            if self@.intact() {
                lemma_fast_forward_intact(self@);
            }
        }
        self.compute_input();
        self.updateAnimators();
        self.updatePlayers();
        self.updateEnemies();
        self.integrate();
        self.resolveState();
    }

    /// The collision pass: collects the boxes of the active bodies, sorts
    /// them by their lower x bound, and asks for a contact for every pair
    /// that overlaps.
    pub fn fillContactList(&mut self)
        requires
            old(self).wf(),
        ensures
            final(self).wf(),
            final(self)@ == collision_stage(old(self)@),
            final(self).boundList@ == world_bounds(old(self)@),
            old(self)@.intact() ==> final(self)@.intact(),
    {
        proof {
            if self@.intact() {
                lemma_collision_intact(self@);
            }
        }
        collect_bounds(&mut self.components.pack, &mut self.boundList);
        sort_by_lower_x(&mut self.boundList);
        scan_contacts(&self.boundList, &mut self.eventList);
    }

    /// Resolves the contact that event `index` of the queue asks for.
    pub fn collisionFunction(game: &mut Self, index: usize)
        requires
            old(game).wf(),
            index < old(game).eventList@.len(),
            old(game)@.components.valid(old(game).eventList@[index as int].a),
            old(game)@.components.valid(old(game).eventList@[index as int].b),
            old(game).eventList@[index as int].a.index != old(game).eventList@[index as int].b.index,
        ensures
            final(game).wf(),
            final(game)@ == collide(old(game)@, old(game).eventList@[index as int]),
            final(game).boundList@ == old(game).boundList@,
    {
        let e = game.eventList[index];
        let ghost rows0 = game.components@.rows;
        let mut iter = game.components.iter();
        match iter.nth_double(e.a, e.b) {
            None => {},
            Some((a, b)) => {
                if e.key == Game::shotCleanerVsBulletKey || e.key
                    == Game::shotCleanerVsBadBulletKey {
                    // a shot that left the field
                    if b.animator.frame != Data::_null {
                        b.animator.frame = Data::_null;
                    }
                } else if e.key == Game::bulletVsEnemyKey {
                    // a bullet that hit an enemy
                    if a.animator.frame != Data::_null && b.animator.frame != Data::_null {
                        a.animator.frame = Data::_null;
                        b.animator.frame = Data::_null;
                        game.eventList.push(Event::from_entity(ObjType::Boom, b.body.position));
                    }
                } else if e.key == Game::badBulletVsPlayerKey {
                    // an enemy shot that hit a player
                    if a.animator.frame != Data::_null && b.animator.frame
                        != Data::_null_persist {
                        a.animator.frame = Data::_null;

                        b.player.damage = 100;
                        b.animator.frame = Data::_null_persist;

                        game.eventList.push(
                            Event::from_entity(ObjType::PlayerBoom, b.body.position),
                        );
                    }
                } else {
                    // no response is wired for this pair
                }
                proof {
                    assert(rows0.update(e.a.index as int, a.row()).update(e.b.index as int, b.row())
                        =~= collide(old(game)@, e).components.rows);
                }
            },
        }
    }

    /// Event resolution: resolves the queue in order, events that resolving
    /// adds included, and empties it. An event that cannot be resolved
    /// stops the drain and is reported; the queue is then left as it is.
    pub fn resolveEvents(&mut self) -> (r: Result<(), Fatal>)
        requires
            old(self).wf(),
        ensures
            final(self).wf(),
            final(self)@ == resolution_stage(old(self)@).world,
            final(self).boundList@ == old(self).boundList@,
            r == (match resolution_stage(old(self)@).fault {
                Some(f) => Err::<(), Fatal>(f),
                None => Ok::<(), Fatal>(()),
            }),
            old(self)@.intact() ==> final(self)@.intact(),
    {
        proof {
            if self@.intact() {
                lemma_resolution_intact(self@);
            }
        }
        let mut event_index: usize = 0;
        while event_index < self.eventList.len()
            invariant
                self.wf(),
                event_index <= self.eventList@.len(),
                drain(self@, event_index as int) == drain(old(self)@, 0),
                old(self)@.intact() ==> drain(old(self)@, 0).world.intact(),
                self.boundList@ == old(self).boundList@,
            decreases weight(self.eventList@, event_index as int),
        {
            let e = self.eventList[event_index];
            let ghost w = self@;
            proof {
                lemma_drain_decreases(w, event_index as int);
                lemma_catalogue_masks();
            }
            if e.id == Event::Contact {
                if !self.components.in_range(e.a) {
                    return Err(Fatal::HandleOutOfRange);
                }
                if self.components.valid(e.a) {
                    if !self.components.in_range(e.b) {
                        return Err(Fatal::HandleOutOfRange);
                    }
                    if self.components.valid(e.b) && e.a.index != e.b.index {
                        Game::collisionFunction(self, event_index);
                    }
                }
            } else if e.id == Event::DestroyEntity {
                if !self.components.in_range(e.a) {
                    return Err(Fatal::HandleOutOfRange);
                }
                self.components.destroy(e.a);
            } else if e.id == Event::CreateEntity {
                if !self.components.has_room() {
                    return Err(Fatal::IndexSpaceExhausted);
                }
                if e.otype >= ObjType::Count {
                    return Err(Fatal::UnknownKind);
                }
                let prefab = self.data.prefab(e.otype);
                if prefab.comp.test(Cf::Player) && (e.key as usize) >= self.slots.len() {
                    return Err(Fatal::SlotOutOfRange);
                }
                // create from the prefab
                let entity = self.components.create();
                prefab.set(&mut self.components, entity);
                let ghost stamped = self.components@;
                let mut iter = self.components.pack.iter();
                match iter.nth(entity) {
                    None => {},
                    Some(r) => {
                        if !entity.is_null() {
                            if r.comp.test(Cf::Body) {
                                r.body.position = e.v;
                            }
                            if r.comp.test(Cf::Player) {
                                r.player.slot = e.key as i8;
                            }
                            if r.comp.test(Cf::Enemy) {
                                r.enemy.delayFire = (self.rand.next_u32() % 2000) as u16;
                                r.animator.frame = (self.rand.next_from_zero(11) + 2) as u16;
                            }
                        }
                        proof {
                            assert(r.row() == filled_row(
                                stamped.rows[entity.index as int],
                                e,
                                w.rand,
                            ));
                        }
                    },
                }
                proof {
                    assert(self@.components.rows =~= create_step(w, e).components.rows);
                    assert(self@ == create_step(w, e));
                    assert(pilots_seated(self.components@.rows, self.slots@));
                }
            } else {
                // not an event that anything resolves
            }
            proof {
                assert(self@ == event_step(w, e));
            }
            event_index += 1;
        }
        self.eventList.clear();
        Ok(())
    }

    /// One full tick: input, animation, players, enemies, integration,
    /// round state, collision pass, event resolution.
    pub fn update(&mut self) -> (r: Result<(), Fatal>)
        requires
            old(self).wf(),
        ensures
            final(self).wf(),
            final(self)@ == tick(old(self)@).world,
            final(self).boundList@ == world_bounds(fast_forward(old(self)@)),
            r == (match tick(old(self)@).fault {
                Some(f) => Err::<(), Fatal>(f),
                None => Ok::<(), Fatal>(()),
            }),
            old(self)@.intact() ==> final(self)@.intact(),
    {
        proof {
            if self@.intact() {
                lemma_tick_intact(self@);
            }
        }
        self.compute_input();
        self.updateAnimators();
        self.updatePlayers();
        self.updateEnemies();
        self.integrate();
        self.resolveState();
        self.fillContactList();
        self.resolveEvents()
    }

    /// Starts a fresh round from `seed`: reseeds the generator, resets the
    /// round state to the "ready" banner, empties the store and the queue,
    /// and creates a player for every slot that is connected and was so at
    /// the start, and the two shot cleaners above and below the field.
    pub fn init(&mut self, seed: u32)
        requires
            old(self).wf(),
        ensures
            final(self).wf(),
            final(self)@ == resolution_stage(opening(old(self)@, seed)).world,
            final(self).boundList@ == old(self).boundList@,
            resolution_stage(opening(old(self)@, seed)).fault.is_none(),
            final(self)@.intact(),
    {
        self.rand.set_seed(seed);

        self.gameOver = false;

        self.global.playing = false;
        self.global.enemySpeed = 3;
        self.global.enemyCount = 0;
        self.global.textType = Data::text_ready;
        self.global.textAnimate = 0;

        self.components.clear();

        self.eventList.clear();
        queue_roster(&self.slots, &mut self.eventList);

        // shot cleaners make sure that shots do not last forever
        self.eventList.push(Event::from_entity(ObjType::ShotCleaner, Vector2::from(0, 1090)));
        self.eventList.push(Event::from_entity(ObjType::ShotCleaner, Vector2::from(0, -1090)));

        proof {
            lemma_opening_resolves(old(self)@, seed);
            lemma_opening_intact(old(self)@, seed);
            lemma_resolution_intact(opening(old(self)@, seed));
            assert(self@ =~= opening(old(self)@, seed));
            assert(pilots_seated(self.components@.rows, self.slots@));
        }
        let _ = self.resolveEvents();
    }
}

} // verus!
