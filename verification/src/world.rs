//! The simulation as mathematics: the state of a world as plain values, and
//! each stage of a tick as a function on it.

use vstd::prelude::*;
use vstd::wrapping::{i32_specs, i8_specs, u16_specs, u8_specs};
use crate::bounds::{sorted_by_x, Bounds};
use crate::components::{Animator, Body, Cf, Enemy, ObjType, Player};
use crate::data::{catalogue, Data};
use crate::entity::Entity;
use crate::event::Event;
use crate::input::{Control, GlobalState, Slot};
use crate::rng::{advance, output, seeded, RngState};
use crate::store::{CpRow, CpView};
use crate::vector::Vector2;

verus! {

/// Rows that are active and animated.
pub const ANIMATED: u8 = 96;

/// Rows that are active player bodies.
pub const PLAYERS: u8 = 76;

/// Rows that are active enemy bodies.
pub const ENEMIES: u8 = 84;

/// Rows that are active bodies.
pub const BODIES: u8 = 68;

/// Rows that are active players, with or without a body.
pub const PILOTS: u8 = 72;

/// The number of input slots.
pub const SLOT_COUNT: usize = 64;

/// What stops a tick for good.
#[derive(Clone, Copy, Debug, PartialEq, Eq, Structural)]
pub enum Fatal {
    /// A create was asked for, and every 16-bit slot index is taken.
    IndexSpaceExhausted,
    /// A create names an object kind that the catalogue does not have.
    UnknownKind,
    /// A player was to be created for an input slot that does not exist.
    SlotOutOfRange,
    /// A destroy or a contact names a slot beyond the rows of the store.
    HandleOutOfRange,
}

/// A world as plain values.
#[verifier::ext_equal]
pub struct GameView {
    pub slots: Seq<Slot>,
    pub global: GlobalState,
    pub rand: RngState,
    pub components: CpView,
    pub events: Seq<Event>,
    pub gameOver: bool,
}

/// The handle of row `i`.
pub open spec fn entity_at(i: int, r: CpRow) -> Entity {
    Entity { index: i as u16, generation: r.generation }
}

/// What the first `n` rows emit, in row order, `f` saying what each emits.
pub open spec fn emitted(rows: Seq<CpRow>, n: int, f: spec_fn(int, CpRow) -> Seq<Event>) -> Seq<
    Event,
>
    decreases n,
{
    if n <= 0 {
        Seq::empty()
    } else {
        emitted(rows, n - 1, f) + f(n - 1, rows[n - 1])
    }
}

/// How many of the first `n` rows have every bit of `mask`.
pub open spec fn count_selected(rows: Seq<CpRow>, n: int, mask: u8) -> int
    decreases n,
{
    if n <= 0 {
        0
    } else {
        count_selected(rows, n - 1, mask) + (if rows[n - 1].has(mask) {
            1int
        } else {
            0int
        })
    }
}

/// Rows that emit nothing add nothing.
pub proof fn lemma_emitted_skip(
    rows: Seq<CpRow>,
    a: int,
    b: int,
    f: spec_fn(int, CpRow) -> Seq<Event>,
)
    requires
        0 <= a <= b,
        forall|j: int| a <= j < b ==> #[trigger] f(j, rows[j]) == Seq::<Event>::empty(),
    ensures
        emitted(rows, b, f) == emitted(rows, a, f),
    decreases b - a,
{
    if a < b {
        lemma_emitted_skip(rows, a, b - 1, f);
        assert(f(b - 1, rows[b - 1]) == Seq::<Event>::empty());
        assert(emitted(rows, b, f) =~= emitted(rows, b - 1, f));
    }
}

/// Rows outside the mask are not counted.
pub proof fn lemma_count_skip(rows: Seq<CpRow>, a: int, b: int, mask: u8)
    requires
        0 <= a <= b,
        forall|j: int| a <= j < b ==> !(#[trigger] rows[j]).has(mask),
    ensures
        count_selected(rows, b, mask) == count_selected(rows, a, mask),
    decreases b - a,
{
    if a < b {
        lemma_count_skip(rows, a, b - 1, mask);
        assert(!rows[b - 1].has(mask));
    }
}

/// No more rows are counted than there are.
pub proof fn lemma_count_bound(rows: Seq<CpRow>, n: int, mask: u8)
    requires
        0 <= n,
    ensures
        0 <= count_selected(rows, n, mask) <= n,
    decreases n,
{
    if n > 0 {
        lemma_count_bound(rows, n - 1, mask);
    }
}

// ---------------------------------------------------------------------
// input
// ---------------------------------------------------------------------
/// Whether bit `k` of `raw` is set.
pub open spec fn bit(raw: i64, k: usize) -> bool {
    (raw >> k) & 1 == 1
}

/// A slot after its raw word was decoded: bit 16 is left, bit 17 right, bit
/// 18 primary fire.
pub open spec fn decoded(s: Slot) -> Slot {
    Slot {
        input: Control {
            primary: bit(s.raw, 18),
            left: bit(s.raw, 16),
            right: bit(s.raw, 17),
            ..s.input
        },
        ..s
    }
}

/// The world after the input stage.
pub open spec fn input_stage(w: GameView) -> GameView {
    GameView { slots: Seq::new(w.slots.len(), |i: int| decoded(w.slots[i])), ..w }
}

// ---------------------------------------------------------------------
// animation
// ---------------------------------------------------------------------
/// The frame that follows `f` in its animation, if `f` belongs to one.
pub open spec fn next_frame(f: u16) -> Option<u16> {
    if 2 <= f <= 12 {
        Some((f + 11) as u16)
    } else if 13 <= f <= 23 {
        Some((f - 11) as u16)
    } else if f == 24 {
        Some(25u16)
    } else if f == 25 {
        Some(24u16)
    } else if 30 <= f <= 35 {
        Some((f + 1) as u16)
    } else if f == 36 {
        Some(0u16)
    } else if 37 <= f <= 42 {
        Some((f + 1) as u16)
    } else if f == 43 {
        Some(0u16)
    } else if f == 44 {
        Some(45u16)
    } else if f == 45 {
        Some(44u16)
    } else {
        None
    }
}

/// The animation table as a map.
pub open spec fn animation_map() -> Map<u16, u16> {
    Map::new(|f: u16| next_frame(f).is_some(), |f: u16| next_frame(f).unwrap())
}

/// An animator one tick on: every fourth tick it moves to the next frame
/// of its animation, if it is in one.
pub open spec fn anim_step(a: Animator) -> Animator {
    let c = u16_specs::wrapping_add(a.count, 1);
    if c > 3 {
        Animator {
            frame: match next_frame(a.frame) {
                Some(f) => f,
                None => a.frame,
            },
            count: 0,
        }
    } else {
        Animator { frame: a.frame, count: c }
    }
}

/// A row after the animation stage.
pub open spec fn anim_row(r: CpRow) -> CpRow {
    if r.has(ANIMATED) {
        CpRow { animator: anim_step(r.animator), ..r }
    } else {
        r
    }
}

/// What a row emits in the animation stage: its own destruction, once its
/// animation has reached the null frame.
pub open spec fn anim_emit(i: int, r: CpRow) -> Seq<Event> {
    if r.has(ANIMATED) && anim_step(r.animator).frame == Data::_null {
        seq![Event::destroy_of(entity_at(i, r))]
    } else {
        Seq::empty()
    }
}

/// What each row emits in the animation stage.
pub open spec fn anim_emitter() -> spec_fn(int, CpRow) -> Seq<Event> {
    |i: int, r: CpRow| anim_emit(i, r)
}

/// The world after the animation stage.
pub open spec fn animation_stage(w: GameView) -> GameView {
    let rows = w.components.rows;
    GameView {
        components: CpView {
            rows: Seq::new(rows.len(), |i: int| anim_row(rows[i])),
            ..w.components
        },
        events: w.events + emitted(rows, rows.len() as int, anim_emitter()),
        ..w
    }
}

// ---------------------------------------------------------------------
// players
// ---------------------------------------------------------------------
/// A fire cooldown one tick on.
pub open spec fn cooled(delay: u16) -> u16 {
    if delay > 0 {
        (delay - 1) as u16
    } else {
        0
    }
}

/// Whether the player of row `r` fires this tick.
pub open spec fn player_fires(r: CpRow, slots: Seq<Slot>) -> bool {
    &&& r.has(PLAYERS)
    &&& r.player.damage == 0
    &&& slots[r.player.slot as int].input.primary
    &&& cooled(r.player.delayFire) == 0
}

/// Whether row `r` is an undamaged player whose slot is connected.
pub open spec fn player_alive(r: CpRow, slots: Seq<Slot>) -> bool {
    &&& r.has(PLAYERS)
    &&& r.player.damage == 0
    &&& slots[r.player.slot as int].connected
}

/// `x` kept inside the play field.
pub open spec fn clamped(x: i32) -> i32 {
    if x < -960 {
        -960i32
    } else if x > 960 {
        960i32
    } else {
        x
    }
}

/// A row after the player stage.
pub open spec fn player_row(r: CpRow, slots: Seq<Slot>) -> CpRow {
    if !r.has(PLAYERS) {
        r
    } else {
        let slot = slots[r.player.slot as int];
        let delay = cooled(r.player.delayFire);
        if r.player.damage > 0 {
            CpRow {
                body: Body { velocity: Vector2 { x: 0, y: r.body.velocity.y }, ..r.body },
                player: Player { delayFire: delay, ..r.player },
                ..r
            }
        } else {
            CpRow {
                body: Body {
                    position: Vector2 { x: clamped(r.body.position.x), y: r.body.position.y },
                    velocity: Vector2 {
                        x: if slot.input.right {
                            5i32
                        } else if slot.input.left {
                            -5i32
                        } else {
                            0i32
                        },
                        y: r.body.velocity.y,
                    },
                    size: r.body.size,
                },
                player: Player {
                    slot: r.player.slot,
                    delayFire: if slot.input.primary && delay == 0 {
                        24u16
                    } else {
                        delay
                    },
                    damage: if slot.connected {
                        r.player.damage
                    } else {
                        100u16
                    },
                },
                animator: Animator {
                    frame: if slot.connected {
                        r.animator.frame
                    } else {
                        Data::_null_persist
                    },
                    count: r.animator.count,
                },
                ..r
            }
        }
    }
}

/// What a row emits in the player stage: an explosion where it stood if its
/// slot is gone, and a bullet where it stands if it fires.
pub open spec fn player_emit(i: int, r: CpRow, slots: Seq<Slot>) -> Seq<Event> {
    if r.has(PLAYERS) && r.player.damage == 0 {
        let slot = slots[r.player.slot as int];
        let boom = if slot.connected {
            Seq::<Event>::empty()
        } else {
            seq![Event::create_of(ObjType::PlayerBoom, r.body.position)]
        };
        let shot = if player_fires(r, slots) {
            seq![
                Event::create_of(
                    ObjType::Bullet,
                    Vector2 { x: clamped(r.body.position.x), y: r.body.position.y },
                ),
            ]
        } else {
            Seq::<Event>::empty()
        };
        boom + shot
    } else {
        Seq::empty()
    }
}

/// What each row emits in the player stage, given the input slots.
pub open spec fn player_emitter(slots: Seq<Slot>) -> spec_fn(int, CpRow) -> Seq<Event> {
    |i: int, r: CpRow| player_emit(i, r, slots)
}

/// Whether any of the first `n` rows is a player that is alive.
pub open spec fn any_alive(rows: Seq<CpRow>, n: int, slots: Seq<Slot>) -> bool {
    exists|i: int| 0 <= i < n && player_alive(#[trigger] rows[i], slots)
}

/// What a row emits when the round is lost: its destruction, if it is an
/// enemy.
pub open spec fn rout_emit(i: int, r: CpRow) -> Seq<Event> {
    if r.has(ENEMIES) {
        seq![Event::destroy_of(entity_at(i, r))]
    } else {
        Seq::empty()
    }
}

/// What each row emits when the round is lost.
pub open spec fn rout_emitter() -> spec_fn(int, CpRow) -> Seq<Event> {
    |i: int, r: CpRow| rout_emit(i, r)
}

/// Whether every player row names an input slot that exists.
pub open spec fn pilots_seated(rows: Seq<CpRow>, slots: Seq<Slot>) -> bool {
    forall|i: int|
        0 <= i < rows.len() && (#[trigger] rows[i]).has(Cf::Player) ==> 0 <= rows[i].player.slot
            < slots.len()
}

/// The world after the player stage. A round in play with no player left
/// alive is lost: it goes back to the banner, and every enemy is marked for
/// destruction.
pub open spec fn player_stage(w: GameView) -> GameView {
    let rows = w.components.rows;
    let n = rows.len() as int;
    let moved = Seq::new(rows.len(), |i: int| player_row(rows[i], w.slots));
    let events = w.events + emitted(rows, n, player_emitter(w.slots));
    let lost = w.global.playing && !any_alive(rows, n, w.slots);
    GameView {
        components: CpView { rows: moved, ..w.components },
        events: if lost {
            events + emitted(moved, n, rout_emitter())
        } else {
            events
        },
        global: if lost {
            GlobalState {
                playing: false,
                textAnimate: 0,
                textType: Data::text_no,
                ..w.global
            }
        } else {
            w.global
        },
        ..w
    }
}

// ---------------------------------------------------------------------
// enemies
// ---------------------------------------------------------------------
/// The patrol counter one tick on: it starts over after 150.
pub open spec fn patrol_counter(e: Enemy) -> u8 {
    let c = u8_specs::wrapping_add(e.counter, 1);
    if c > 150 {
        0
    } else {
        c
    }
}

/// The facing one tick on: it turns round when the patrol counter starts
/// over.
pub open spec fn patrol_direction(e: Enemy) -> i8 {
    if u8_specs::wrapping_add(e.counter, 1) > 150 {
        i8_specs::wrapping_sub(0, e.direction)
    } else {
        e.direction
    }
}

/// Whether the enemy of row `r` fires this tick.
pub open spec fn enemy_fires(r: CpRow) -> bool {
    r.has(ENEMIES) && cooled(r.enemy.delayFire) == 0
}

/// A row after the enemy stage, `speed` being the enemy speed of the round.
pub open spec fn enemy_row(r: CpRow, speed: i32) -> CpRow {
    if !r.has(ENEMIES) {
        r
    } else {
        CpRow {
            enemy: Enemy {
                direction: patrol_direction(r.enemy),
                counter: patrol_counter(r.enemy),
                delayFire: if enemy_fires(r) {
                    2000u16
                } else {
                    cooled(r.enemy.delayFire)
                },
            },
            body: Body {
                velocity: Vector2 {
                    x: i32_specs::wrapping_mul(patrol_direction(r.enemy) as i32, speed),
                    y: r.body.velocity.y,
                },
                ..r.body
            },
            ..r
        }
    }
}

/// What a row emits in the enemy stage: a shot where it stands, if it
/// fires.
pub open spec fn enemy_emit(i: int, r: CpRow) -> Seq<Event> {
    if enemy_fires(r) {
        seq![Event::create_of(ObjType::BadBullet, r.body.position)]
    } else {
        Seq::empty()
    }
}

/// What each row emits in the enemy stage.
pub open spec fn enemy_emitter() -> spec_fn(int, CpRow) -> Seq<Event> {
    |i: int, r: CpRow| enemy_emit(i, r)
}

/// The world after the enemy stage. A round in play with no enemy left is
/// won and goes back to the banner.
pub open spec fn enemy_stage(w: GameView) -> GameView {
    let rows = w.components.rows;
    let n = rows.len() as int;
    let count = count_selected(rows, n, ENEMIES);
    let won = w.global.playing && count == 0;
    GameView {
        components: CpView {
            rows: Seq::new(rows.len(), |i: int| enemy_row(rows[i], w.global.enemySpeed)),
            ..w.components
        },
        events: w.events + emitted(rows, n, enemy_emitter()),
        global: GlobalState {
            playing: w.global.playing && !won,
            enemySpeed: 3,
            enemyCount: count as i32,
            textType: if won {
                Data::text_great
            } else {
                w.global.textType
            },
            textAnimate: if won {
                0
            } else {
                w.global.textAnimate
            },
        },
        ..w
    }
}

// ---------------------------------------------------------------------
// integration
// ---------------------------------------------------------------------
/// A row after integration: an active body moves by its velocity.
pub open spec fn moved_row(r: CpRow) -> CpRow {
    if r.has(BODIES) {
        CpRow { body: Body { position: r.body.position.spec_add(r.body.velocity), ..r.body }, ..r }
    } else {
        r
    }
}

/// The world after integration.
pub open spec fn integration_stage(w: GameView) -> GameView {
    let rows = w.components.rows;
    GameView {
        components: CpView {
            rows: Seq::new(rows.len(), |i: int| moved_row(rows[i])),
            ..w.components
        },
        ..w
    }
}

// ---------------------------------------------------------------------
// round state
// ---------------------------------------------------------------------
/// The banner timer's value above which the banner is over.
pub const BANNER_OVER: i32 = 1000000000;

/// A row after the start of a round: a player whose slot is connected is
/// repaired.
pub open spec fn repaired_row(r: CpRow, slots: Seq<Slot>) -> CpRow {
    if r.has(PILOTS) && slots[r.player.slot as int].connected {
        CpRow {
            player: Player { damage: 0, ..r.player },
            animator: Animator { frame: Data::player_ship_0, ..r.animator },
            ..r
        }
    } else {
        r
    }
}

/// The creates for the enemy grid: 24 columns of 20, column by column.
pub open spec fn enemy_grid() -> Seq<Event> {
    Seq::new(480, |k: int| grid_event(k))
}

/// Enemy `k` of the grid.
pub open spec fn grid_event(k: int) -> Event {
    Event::create_of(
        ObjType::Enemy,
        Vector2 { x: ((k / 20) * 60 - 960 + 32) as i32, y: ((k % 20) * 32 - 100) as i32 },
    )
}

/// The world after the round-state stage. While the banner shows, its timer
/// runs; once it is over, a round starts if the banner said so, and else
/// the game is over for good.
pub open spec fn round_stage(w: GameView) -> GameView {
    if w.global.playing {
        w
    } else {
        let timer = i32_specs::wrapping_add(w.global.textAnimate, Data::text_animate_counter);
        let ticked = GlobalState { textAnimate: timer, ..w.global };
        if timer > BANNER_OVER {
            if w.global.textType != Data::text_ready {
                GameView { global: ticked, gameOver: true, ..w }
            } else {
                let rows = w.components.rows;
                GameView {
                    global: GlobalState { playing: true, ..ticked },
                    components: CpView {
                        rows: Seq::new(rows.len(), |i: int| repaired_row(rows[i], w.slots)),
                        ..w.components
                    },
                    events: w.events + enemy_grid(),
                    ..w
                }
            }
        } else {
            GameView { global: ticked, ..w }
        }
    }
}

// ---------------------------------------------------------------------
// collision
// ---------------------------------------------------------------------
/// The box of the body of row `i`.
pub open spec fn bounds_of(i: int, r: CpRow) -> Bounds {
    Bounds::spec_from(entity_at(i, r), r.objectId.value, r.body.position, r.body.size)
}

/// The boxes of the active bodies among the first `n` rows, in row order.
pub open spec fn collected(rows: Seq<CpRow>, n: int) -> Seq<Bounds>
    decreases n,
{
    if n <= 0 {
        Seq::empty()
    } else if rows[n - 1].has(BODIES) {
        collected(rows, n - 1).push(bounds_of(n - 1, rows[n - 1]))
    } else {
        collected(rows, n - 1)
    }
}

/// The key of a contact between kinds `high` and `low`.
pub open spec fn pair_key(high: u8, low: u8) -> u16 {
    (high * 256 + low) as u16
}

/// The contact between two boxes. The box of the higher kind comes first,
/// in the key and among the entities; of two boxes of one kind, the second.
pub open spec fn contact_event(first: Bounds, second: Bounds) -> Event {
    if first.btype > second.btype {
        Event::contact_of(pair_key(first.btype, second.btype), first.entity, second.entity)
    } else {
        Event::contact_of(pair_key(second.btype, first.btype), second.entity, first.entity)
    }
}

/// The contacts of box `i` with the boxes after it and before `j`.
pub open spec fn contacts_of(s: Seq<Bounds>, i: int, j: int) -> Seq<Event>
    decreases j - i,
{
    if j <= i + 1 {
        Seq::empty()
    } else if s[i].spec_overlap(&s[j - 1]) {
        contacts_of(s, i, j - 1).push(contact_event(s[i], s[j - 1]))
    } else {
        contacts_of(s, i, j - 1)
    }
}

/// The contacts of the first `i` boxes, each with the boxes after it.
pub open spec fn contacts(s: Seq<Bounds>, i: int) -> Seq<Event>
    decreases i,
{
    if i <= 0 {
        Seq::empty()
    } else {
        contacts(s, i - 1) + contacts_of(s, i - 1, s.len() as int)
    }
}

/// The boxes of a world, sorted for the pair scan.
pub open spec fn world_bounds(w: GameView) -> Seq<Bounds> {
    sorted_by_x(collected(w.components.rows, w.components.rows.len() as int))
}

/// The world after the collision pass: one contact for every pair of boxes
/// that overlap.
pub open spec fn collision_stage(w: GameView) -> GameView {
    let s = world_bounds(w);
    GameView { events: w.events + contacts(s, s.len() as int), ..w }
}

// ---------------------------------------------------------------------
// event resolution
// ---------------------------------------------------------------------
/// The key of a shot cleaner meeting a bullet.
pub const KEY_CLEANER_BULLET: u16 = 1795;

/// The key of a shot cleaner meeting an enemy shot.
pub const KEY_CLEANER_BAD_BULLET: u16 = 1796;

/// The key of a bullet meeting an enemy.
pub const KEY_BULLET_ENEMY: u16 = 770;

/// The key of an enemy shot meeting a player.
pub const KEY_BAD_BULLET_PLAYER: u16 = 1025;

/// `row` with its animation set to `frame`.
pub open spec fn with_frame(row: CpRow, frame: u16) -> CpRow {
    CpRow { animator: Animator { frame, ..row.animator }, ..row }
}

/// The world after the contact `e` between two valid entities in different
/// slots was resolved. A shot that meets a cleaner is marked for
/// destruction. A bullet that meets an enemy takes it along and leaves an
/// explosion. An enemy shot that meets a player is used up, damages the
/// player and leaves an explosion. Every other pair is ignored, and so is
/// a pair of which one is marked already.
pub open spec fn collide(w: GameView, e: Event) -> GameView {
    let rows = w.components.rows;
    let ia = e.a.index as int;
    let ib = e.b.index as int;
    let a = rows[ia];
    let b = rows[ib];
    if e.key == KEY_CLEANER_BULLET || e.key == KEY_CLEANER_BAD_BULLET {
        if b.animator.frame != Data::_null {
            GameView {
                components: CpView {
                    rows: rows.update(ib, with_frame(b, Data::_null)),
                    ..w.components
                },
                ..w
            }
        } else {
            w
        }
    } else if e.key == KEY_BULLET_ENEMY {
        if a.animator.frame != Data::_null && b.animator.frame != Data::_null {
            GameView {
                components: CpView {
                    rows: rows.update(ia, with_frame(a, Data::_null)).update(
                        ib,
                        with_frame(b, Data::_null),
                    ),
                    ..w.components
                },
                events: w.events.push(Event::create_of(ObjType::Boom, b.body.position)),
                ..w
            }
        } else {
            w
        }
    } else if e.key == KEY_BAD_BULLET_PLAYER {
        if a.animator.frame != Data::_null && b.animator.frame != Data::_null_persist {
            GameView {
                components: CpView {
                    rows: rows.update(ia, with_frame(a, Data::_null)).update(
                        ib,
                        CpRow {
                            player: Player { damage: 100, ..b.player },
                            animator: Animator { frame: Data::_null_persist, ..b.animator },
                            ..b
                        },
                    ),
                    ..w.components
                },
                events: w.events.push(Event::create_of(ObjType::PlayerBoom, b.body.position)),
                ..w
            }
        } else {
            w
        }
    } else {
        w
    }
}

/// A freshly stamped row after the create `e` filled it in: a body is put
/// where the event says, a player gets the input slot that the event's key
/// names, and an enemy draws its fire delay and its first frame from `rand`.
pub open spec fn filled_row(row: CpRow, e: Event, rand: RngState) -> CpRow {
    CpRow {
        body: if row.has(Cf::Body) {
            Body { position: e.v, ..row.body }
        } else {
            row.body
        },
        player: if row.has(Cf::Player) {
            Player { slot: e.key as i8, ..row.player }
        } else {
            row.player
        },
        enemy: if row.has(Cf::Enemy) {
            Enemy { delayFire: (output(rand) % 2000) as u16, ..row.enemy }
        } else {
            row.enemy
        },
        animator: if row.has(Cf::Enemy) {
            Animator { frame: ((output(advance(rand)) as int % 12) + 2) as u16, ..row.animator }
        } else {
            row.animator
        },
        ..row
    }
}

/// Why the create `e` cannot be carried out in `w`, if it cannot.
pub open spec fn create_fault(w: GameView, e: Event) -> Option<Fatal> {
    if !w.components.table.has_room() {
        Some(Fatal::IndexSpaceExhausted)
    } else if e.otype >= ObjType::Count {
        Some(Fatal::UnknownKind)
    } else if catalogue(e.otype).comp.spec_test(Cf::Player) && e.key >= w.slots.len() {
        Some(Fatal::SlotOutOfRange)
    } else {
        None
    }
}

/// The world after the create `e` was carried out.
pub open spec fn create_step(w: GameView, e: Event) -> GameView {
    let entity = w.components.created();
    let stamped = w.components.after_create().after_stamp(catalogue(e.otype), entity);
    let row = stamped.rows[entity.index as int];
    GameView {
        components: CpView {
            rows: stamped.rows.update(entity.index as int, filled_row(row, e, w.rand)),
            ..stamped
        },
        rand: if row.has(Cf::Enemy) {
            advance(advance(w.rand))
        } else {
            w.rand
        },
        ..w
    }
}

/// Why the event `e` cannot be resolved in `w`, if it cannot.
pub open spec fn event_fault(w: GameView, e: Event) -> Option<Fatal> {
    if e.id == Event::Contact {
        if !w.components.in_range(e.a) || (w.components.valid(e.a) && !w.components.in_range(e.b)) {
            Some(Fatal::HandleOutOfRange)
        } else {
            None
        }
    } else if e.id == Event::DestroyEntity {
        if !w.components.in_range(e.a) {
            Some(Fatal::HandleOutOfRange)
        } else {
            None
        }
    } else if e.id == Event::CreateEntity {
        create_fault(w, e)
    } else {
        None
    }
}

/// The world after the event `e` was resolved. A contact counts only while
/// both its entities are valid and in different slots; a destroy of an
/// entity that is not valid is ignored; events of unknown kind are
/// ignored.
pub open spec fn event_step(w: GameView, e: Event) -> GameView {
    if e.id == Event::Contact {
        if w.components.valid(e.a) && w.components.valid(e.b) && e.a.index != e.b.index {
            collide(w, e)
        } else {
            w
        }
    } else if e.id == Event::DestroyEntity {
        GameView { components: w.components.after_destroy(e.a), ..w }
    } else if e.id == Event::CreateEntity {
        create_step(w, e)
    } else {
        w
    }
}

/// How much work the events from `from` on can still cause: a contact may
/// add one event of another kind.
pub open spec fn weight(events: Seq<Event>, from: int) -> nat
    decreases events.len() - from,
{
    if from < 0 || from >= events.len() {
        0
    } else {
        weight(events, from + 1) + (if events[from].id == Event::Contact {
            2nat
        } else {
            1nat
        })
    }
}

/// An event added at the end adds its own weight.
pub proof fn lemma_weight_push(events: Seq<Event>, e: Event, from: int)
    requires
        0 <= from <= events.len(),
    ensures
        weight(events.push(e), from) == weight(events, from) + (if e.id == Event::Contact {
            2nat
        } else {
            1nat
        }),
    decreases events.len() - from,
{
    if from < events.len() {
        lemma_weight_push(events, e, from + 1);
        assert(events.push(e)[from] == events[from]);
    } else {
        assert(weight(events.push(e), from + 1) == 0);
    }
}

/// Resolving an event leaves the queue as it is or adds one create.
pub proof fn lemma_event_step_queue(w: GameView, e: Event)
    ensures
        event_step(w, e).events == w.events || (e.id == Event::Contact && exists|c: Event|
            c.id == Event::CreateEntity && event_step(w, e).events == w.events.push(c)),
        event_step(w, e).slots == w.slots,
        event_step(w, e).global == w.global,
        event_step(w, e).gameOver == w.gameOver,
{
    if e.id == Event::Contact && event_step(w, e).events != w.events {
        let b = w.components.rows[e.b.index as int];
        if e.key == KEY_BULLET_ENEMY {
            let c = Event::create_of(ObjType::Boom, b.body.position);
            assert(c.id == Event::CreateEntity && event_step(w, e).events == w.events.push(c));
        } else {
            let c = Event::create_of(ObjType::PlayerBoom, b.body.position);
            assert(c.id == Event::CreateEntity && event_step(w, e).events == w.events.push(c));
        }
    }
}

/// How a drain ends: the world it leaves, and what stopped it, if anything
/// did.
pub struct Outcome {
    pub world: GameView,
    pub fault: Option<Fatal>,
}

/// The drain from event `k` on. Events are resolved in order, those that
/// resolving adds included, and the queue is emptied at the end. An event
/// that cannot be resolved stops the drain: the world stays as the events
/// before it left it, with the queue still full.
pub open spec fn drain(w: GameView, k: int) -> Outcome
    decreases weight(w.events, k),
{
    if k < 0 || k >= w.events.len() {
        Outcome { world: GameView { events: Seq::empty(), ..w }, fault: None }
    } else if event_fault(w, w.events[k]).is_some() {
        Outcome { world: w, fault: event_fault(w, w.events[k]) }
    } else {
        proof {
            lemma_drain_decreases(w, k);
        }
        drain(event_step(w, w.events[k]), k + 1)
    }
}

/// Resolving event `k` leaves less work than there was.
pub proof fn lemma_drain_decreases(w: GameView, k: int)
    requires
        0 <= k < w.events.len(),
    ensures
        weight(event_step(w, w.events[k]).events, k + 1) < weight(w.events, k),
{
    let e = w.events[k];
    lemma_event_step_queue(w, e);
    let after = event_step(w, e).events;
    if after != w.events {
        let c = choose|c: Event| c.id == Event::CreateEntity && after == w.events.push(c);
        lemma_weight_push(w.events, c, k + 1);
    }
}

/// The world after event resolution, and what stopped it, if anything did.
pub open spec fn resolution_stage(w: GameView) -> Outcome {
    drain(w, 0)
}

// ---------------------------------------------------------------------
// whole ticks
// ---------------------------------------------------------------------
/// The world after every stage but the collision pass and event
/// resolution.
pub open spec fn fast_forward(w: GameView) -> GameView {
    round_stage(
        integration_stage(enemy_stage(player_stage(animation_stage(input_stage(w))))),
    )
}

/// The world after a full tick, and what stopped it, if anything did.
pub open spec fn tick(w: GameView) -> Outcome {
    resolution_stage(collision_stage(fast_forward(w)))
}

/// The events that `init` starts from: a player for each of the first `n`
/// slots that is connected and was so at the start. The player of slot `j`
/// starts at x = (j + 1) * 60 - 928, at the bottom of the field.
pub open spec fn roster(slots: Seq<Slot>, n: int) -> Seq<Event>
    decreases n,
{
    if n <= 0 {
        Seq::empty()
    } else if slots[n - 1].connected && slots[n - 1].connectedAtStart {
        roster(slots, n - 1).push(
            Event::player_of(
                (n - 1) as u16,
                Vector2 { x: (n * 60 - 960 + 32) as i32, y: -500i32 },
            ),
        )
    } else {
        roster(slots, n - 1)
    }
}

/// The world that `init` resolves: a fresh round with the roster and the
/// two shot cleaners waiting to be created.
pub open spec fn opening(w: GameView, seed: u32) -> GameView {
    GameView {
        slots: w.slots,
        global: GlobalState {
            playing: false,
            enemySpeed: 3,
            enemyCount: 0,
            textType: Data::text_ready,
            textAnimate: 0,
        },
        rand: seeded(seed),
        components: CpView::empty(),
        events: roster(w.slots, w.slots.len() as int).push(
            Event::create_of(ObjType::ShotCleaner, Vector2 { x: 0, y: 1090 }),
        ).push(Event::create_of(ObjType::ShotCleaner, Vector2 { x: 0, y: -1090i32 })),
        gameOver: false,
    }
}

/// Whether the create `e` names a kind of the catalogue and, for a player,
/// one of `slots` input slots.
pub open spec fn sane_create(e: Event, slots: nat) -> bool {
    &&& e.id == Event::CreateEntity
    &&& e.otype < ObjType::Count
    &&& catalogue(e.otype).comp.spec_test(Cf::Player) ==> e.key < slots
}

/// A queue of sane creates drains without a fault as long as the index
/// space has room for all of them.
pub proof fn lemma_creates_drain(w: GameView, k: int)
    requires
        0 <= k <= w.events.len(),
        w.components.table.wf(),
        w.components.table.list.len() + (w.events.len() - k) <= 0x10000,
        forall|j: int| k <= j < w.events.len() ==> sane_create(#[trigger] w.events[j], w.slots.len()),
    ensures
        drain(w, k).fault.is_none(),
    decreases w.events.len() - k,
{
    if k < w.events.len() {
        let e = w.events[k];
        assert(sane_create(e, w.slots.len()));
        assert(event_fault(w, e).is_none());
        let next = event_step(w, e);
        crate::index_table::lemma_allocate_wf(w.components.table);
        assert(next.events == w.events);
        assert(next.slots == w.slots);
        lemma_creates_drain(next, k + 1);
    }
}

/// The roster holds sane creates, at most one for each slot.
pub proof fn lemma_roster(slots: Seq<Slot>, n: int)
    requires
        0 <= n <= slots.len(),
        slots.len() <= 0x10000,
    ensures
        roster(slots, n).len() <= n,
        forall|j: int|
            0 <= j < roster(slots, n).len() ==> sane_create(#[trigger] roster(slots, n)[j], slots.len()),
    decreases n,
{
    if n > 0 {
        lemma_roster(slots, n - 1);
    }
}

/// The opening of a round resolves without a fault.
pub proof fn lemma_opening_resolves(w: GameView, seed: u32)
    requires
        w.slots.len() == SLOT_COUNT,
    ensures
        resolution_stage(opening(w, seed)).fault.is_none(),
{
    let o = opening(w, seed);
    lemma_roster(w.slots, w.slots.len() as int);
    crate::data::lemma_catalogue_masks();
    assert forall|j: int| 0 <= j < o.events.len() implies sane_create(
        #[trigger] o.events[j],
        o.slots.len(),
    ) by {
        let r = roster(w.slots, w.slots.len() as int);
        if j < r.len() {
            assert(o.events[j] == r[j]);
        }
    }
    lemma_creates_drain(o, 0);
}

} // verus!
