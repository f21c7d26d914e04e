use gm_game::components::{Cf, ObjType};
use gm_game::data::Data;
use gm_game::entity::Entity;
use gm_game::event::Event;
use gm_game::game::Game;
use gm_game::input::Slot;
use gm_game::vector::Vector2;
use gm_game::world::Fatal;

fn connect(game: &mut Game, slot: usize) {
    game.slots[slot].connected = true;
    game.slots[slot].connectedAtStart = true;
}

fn started(seed: u32, players: &[usize]) -> Game {
    let mut game = Game::new();
    for slot in players {
        connect(&mut game, *slot);
    }
    game.init(seed);
    game
}

fn spawn(game: &mut Game, kind: u8, x: i32, y: i32) -> Entity {
    game.eventList.push(Event::from_entity(kind, Vector2::from(x, y)));
    assert_eq!(game.resolveEvents(), Ok(()));
    let index = (0..game.components.pack.size())
        .rev()
        .find(|i| {
            game.components.pack.comp[*i].test(Cf::Active)
                && game.components.pack.objectId[*i].value == kind
                && game.components.pack.body[*i].position == Vector2::from(x, y)
        })
        .unwrap();
    Entity::from(index as u16, game.components.pack.generation[index])
}

fn active(game: &Game) -> Vec<usize> {
    (0..game.components.pack.size())
        .filter(|i| game.components.pack.comp[*i].test(Cf::Active))
        .collect()
}

fn count_kind(game: &Game, kind: u8) -> usize {
    active(game).iter().filter(|i| game.components.pack.objectId[**i].value == kind).count()
}

fn same_rows(a: &Game, b: &Game) -> bool {
    a.components.pack.generation == b.components.pack.generation
        && a.components.pack.comp == b.components.pack.comp
        && a.components.pack.objectId == b.components.pack.objectId
        && a.components.pack.body == b.components.pack.body
        && a.components.pack.player == b.components.pack.player
        && a.components.pack.enemy == b.components.pack.enemy
        && a.components.pack.animator == b.components.pack.animator
        && a.components.manager.head == b.components.manager.head
        && a.components.manager.list == b.components.manager.list
}

fn same_world(a: &Game, b: &Game) -> bool {
    same_rows(a, b)
        && a.global == b.global
        && a.slots == b.slots
        && a.eventList == b.eventList
        && a.gameOver == b.gameOver
        && (a.rand.p, a.rand.q, a.rand.r) == (b.rand.p, b.rand.q, b.rand.r)
        && a.rand.x == b.rand.x
}

#[test]
fn new_world_is_empty() {
    let game = Game::new();
    assert_eq!(game.slots.len(), 64);
    assert!(game.slots.iter().all(|s| *s == Slot::default()));
    assert_eq!(game.components.pack.size(), 0);
    assert!(game.eventList.is_empty());
    assert!(!game.gameOver);
    assert!(!game.global.playing);
}

#[test]
fn animation_table_links_the_frames() {
    let game = Game::new();
    let table = &game.animation_table;
    assert_eq!(table.len(), 40);
    assert_eq!(table.get(&Data::player_ship_0), Some(&Data::player_ship_1));
    assert_eq!(table.get(&Data::player_ship_1), Some(&Data::player_ship_0));
    assert_eq!(table.get(&Data::local_player_0), Some(&Data::local_player_1));
    assert_eq!(table.get(&Data::local_player_1), Some(&Data::local_player_0));
    for f in Data::player_boom_0..Data::player_boom_6 {
        assert_eq!(table.get(&f), Some(&(f + 1)));
    }
    assert_eq!(table.get(&Data::player_boom_6), Some(&Data::_null));
    for f in Data::enemy_boom_0..Data::enemy_boom_6 {
        assert_eq!(table.get(&f), Some(&(f + 1)));
    }
    assert_eq!(table.get(&Data::enemy_boom_6), Some(&Data::_null));
    for t in 0..11u16 {
        assert_eq!(table.get(&(Data::enemy_00_a + t)), Some(&(Data::enemy_00_b + t)));
        assert_eq!(table.get(&(Data::enemy_00_b + t)), Some(&(Data::enemy_00_a + t)));
    }
    for f in [0u16, 1, 26, 27, 28, 29, 46, 47, 48, 49, 50, 51] {
        assert_eq!(table.get(&f), None);
    }
}

#[test]
fn register_animation_closes_a_loop() {
    let mut table = std::collections::HashMap::new();
    Game::registerAnimation(&mut table, &[7, 8, 9, Data::_end_list]);
    assert_eq!(table.len(), 3);
    assert_eq!(table.get(&7), Some(&8));
    assert_eq!(table.get(&8), Some(&9));
    assert_eq!(table.get(&9), Some(&7));
}

#[test]
fn register_animation_stops_at_the_null_frame() {
    let mut table = std::collections::HashMap::new();
    Game::registerAnimation(&mut table, &[7, 8, Data::_null, Data::_end_list, 99]);
    assert_eq!(table.len(), 2);
    assert_eq!(table.get(&7), Some(&8));
    assert_eq!(table.get(&8), Some(&Data::_null));
    assert_eq!(table.get(&Data::_null), None);
}

#[test]
fn prefab_catalogue() {
    let data = Data::new();
    let sprite = Cf::Active | Cf::Component | Cf::Body | Cf::ObjectId | Cf::Animator;
    assert_eq!(data.prefab(ObjType::Null).comp, Cf::from(Cf::Component));
    assert_eq!(data.prefab(ObjType::Player).comp, Cf::from(sprite | Cf::Player));
    assert_eq!(data.prefab(ObjType::Enemy).comp, Cf::from(sprite | Cf::Enemy));
    assert_eq!(data.prefab(ObjType::Bullet).comp, Cf::from(sprite));
    assert_eq!(data.prefab(ObjType::BadBullet).comp, Cf::from(sprite));
    assert_eq!(data.prefab(ObjType::Boom).comp, Cf::from(sprite));
    assert_eq!(data.prefab(ObjType::PlayerBoom).comp, Cf::from(sprite));
    assert_eq!(
        data.prefab(ObjType::ShotCleaner).comp,
        Cf::from(Cf::Active | Cf::Component | Cf::Body | Cf::ObjectId)
    );
    for kind in 0..8u8 {
        assert_eq!(data.prefab(kind).objectId, ObjType::from(kind));
        assert_eq!(data.prefab(kind).body.position, Vector2::new());
    }
    assert_eq!(data.prefab(ObjType::Player).body.size, Vector2::from(16, 10));
    assert_eq!(data.prefab(ObjType::Player).player.slot, -1);
    assert_eq!(data.prefab(ObjType::Player).animator.frame, Data::player_ship_0);
    assert_eq!(data.prefab(ObjType::Enemy).body.size, Vector2::from(16, 10));
    assert_eq!(data.prefab(ObjType::Enemy).enemy.direction, 1);
    assert_eq!(data.prefab(ObjType::Bullet).body.velocity, Vector2::from(0, 16));
    assert_eq!(data.prefab(ObjType::Bullet).body.size, Vector2::from(12, 20));
    assert_eq!(data.prefab(ObjType::Bullet).animator.frame, Data::player_shot);
    assert_eq!(data.prefab(ObjType::BadBullet).body.velocity, Vector2::from(0, -8));
    assert_eq!(data.prefab(ObjType::BadBullet).body.size, Vector2::from(7, 7));
    assert_eq!(data.prefab(ObjType::BadBullet).animator.frame, Data::enemy_shot);
    assert_eq!(data.prefab(ObjType::Boom).body.size, Vector2::from(14, 14));
    assert_eq!(data.prefab(ObjType::Boom).animator.frame, Data::enemy_boom_0);
    assert_eq!(data.prefab(ObjType::PlayerBoom).body.size, Vector2::from(22, 21));
    assert_eq!(data.prefab(ObjType::PlayerBoom).animator.frame, Data::player_boom_0);
    assert_eq!(data.prefab(ObjType::ShotCleaner).body.size, Vector2::from(960, 540));
}

#[test]
fn contact_keys() {
    assert_eq!(Game::computeKey(ObjType::ShotCleaner, ObjType::Bullet), Game::shotCleanerVsBulletKey);
    assert_eq!(
        Game::computeKey(ObjType::ShotCleaner, ObjType::BadBullet),
        Game::shotCleanerVsBadBulletKey
    );
    assert_eq!(Game::computeKey(ObjType::Bullet, ObjType::Enemy), Game::bulletVsEnemyKey);
    assert_eq!(Game::computeKey(ObjType::BadBullet, ObjType::Player), Game::badBulletVsPlayerKey);
    assert_eq!(Game::computeKey(0xab, 0xcd), 0xabcd);
    assert_eq!(Game::computeKey(3, 2), (3 << 8) | 2);
}

#[test]
fn input_masks() {
    assert_eq!(Game::LeftMask().mask, 1 << 16);
    assert_eq!(Game::RightMask().mask, 1 << 17);
    assert_eq!(Game::PrimaryMask().mask, 1 << 18);
    assert_eq!(Game::SyncedMask().mask, 1 << 55);
    assert_eq!(Game::XMask().mask, 0xffff);
    assert_eq!(Game::XMask().shift, 0);
    assert_eq!(Game::SyncedMask().shift, 55);
}

#[test]
fn init_creates_the_player_and_the_shot_cleaners() {
    let game = started(1, &[0]);
    assert!(game.eventList.is_empty());
    assert_eq!(active(&game), vec![1, 2, 3]);
    let pack = &game.components.pack;
    assert_eq!(pack.objectId[1].value, ObjType::Player);
    assert_eq!(pack.body[1].position, Vector2::from(-868, -500));
    assert_eq!(pack.body[1].size, Vector2::from(16, 10));
    assert_eq!(pack.player[1].slot, 0);
    assert_eq!(pack.animator[1].frame, Data::player_ship_0);
    assert_eq!(pack.objectId[2].value, ObjType::ShotCleaner);
    assert_eq!(pack.body[2].position, Vector2::from(0, 1090));
    assert_eq!(pack.objectId[3].value, ObjType::ShotCleaner);
    assert_eq!(pack.body[3].position, Vector2::from(0, -1090));
    assert_eq!(pack.body[3].size, Vector2::from(960, 540));
    assert!(!game.global.playing);
    assert_eq!(game.global.enemySpeed, 3);
    assert_eq!(game.global.enemyCount, 0);
    assert_eq!(game.global.textType, Data::text_ready);
    assert_eq!(game.global.textAnimate, 0);
    assert!(!game.gameOver);
    // the generator was seeded and not drawn from
    assert_eq!((game.rand.p, game.rand.q, game.rand.r), (0, 1, 397));
    assert_eq!(game.rand.x[0], 1);
}

#[test]
fn init_staggers_the_players() {
    let mut game = Game::new();
    connect(&mut game, 0);
    connect(&mut game, 5);
    connect(&mut game, 63);
    // connected now, but not at the start
    game.slots[7].connected = true;
    // connected at the start, but gone
    game.slots[9].connectedAtStart = true;
    game.init(3);
    assert_eq!(count_kind(&game, ObjType::Player), 3);
    assert_eq!(count_kind(&game, ObjType::ShotCleaner), 2);
    let pack = &game.components.pack;
    assert_eq!((pack.player[1].slot, pack.body[1].position), (0, Vector2::from(-868, -500)));
    assert_eq!((pack.player[2].slot, pack.body[2].position), (5, Vector2::from(-568, -500)));
    assert_eq!((pack.player[3].slot, pack.body[3].position), (63, Vector2::from(2912, -500)));
}

#[test]
fn init_starts_over() {
    let mut game = started(1, &[0, 1]);
    game.slots[0].raw = 1 << 18;
    for _ in 0..300 {
        assert_eq!(game.update(), Ok(()));
    }
    game.slots[0].raw = 0;
    game.slots[0].input = Default::default();
    game.init(1);
    let fresh = started(1, &[0, 1]);
    assert!(same_world(&game, &fresh));
}

#[test]
fn input_stage_decodes_three_bits() {
    let mut game = started(1, &[0]);
    game.slots[0].raw = (1 << 16) | 0xffff;
    game.slots[1].raw = 1 << 17;
    game.slots[2].raw = (1 << 18) | (1 << 55);
    game.slots[3].raw = !0;
    game.slots[4].raw = (1 << 19) | (1 << 15);
    game.compute_input();
    let flags: Vec<(bool, bool, bool)> =
        game.slots.iter().take(6).map(|s| (s.input.left, s.input.right, s.input.primary)).collect();
    assert_eq!(
        flags,
        vec![
            (true, false, false),
            (false, true, false),
            (false, false, true),
            (true, true, true),
            (false, false, false),
            (false, false, false),
        ]
    );
    assert_eq!(game.slots[0].raw, (1 << 16) | 0xffff);
    assert!(game.slots[0].connected);
}

#[test]
fn banner_timer_starts_the_round() {
    let mut game = started(1, &[0]);
    game.global.textAnimate = 1000000000 - 8333333;
    game.resolveState();
    // exactly at the threshold the banner still shows
    assert!(!game.global.playing);
    assert_eq!(game.global.textAnimate, 1000000000);
    assert!(game.eventList.is_empty());
    game.global.textAnimate = 1000000000 - 8333333 + 1;
    game.components.pack.player[1].damage = 100;
    game.components.pack.animator[1].frame = Data::_null_persist;
    game.resolveState();
    assert!(game.global.playing);
    assert!(!game.gameOver);
    assert_eq!(game.global.textAnimate, 1000000001);
    assert_eq!(game.eventList.len(), 480);
    for (k, e) in game.eventList.iter().enumerate() {
        let column = (k / 20) as i32;
        let row = (k % 20) as i32;
        assert_eq!(
            *e,
            Event::from_entity(ObjType::Enemy, Vector2::from(column * 60 - 928, row * 32 - 100))
        );
    }
    assert_eq!(game.eventList[0].v, Vector2::from(-928, -100));
    assert_eq!(game.eventList[479].v, Vector2::from(452, 508));
    // the connected player was repaired
    assert_eq!(game.components.pack.player[1].damage, 0);
    assert_eq!(game.components.pack.animator[1].frame, Data::player_ship_0);
    // a round in play does not touch the timer
    game.eventList.clear();
    game.resolveState();
    assert_eq!(game.global.textAnimate, 1000000001);
    assert!(game.eventList.is_empty());
}

#[test]
fn round_start_leaves_disconnected_players_damaged() {
    let mut game = started(1, &[0, 1]);
    game.slots[1].connected = false;
    game.components.pack.player[1].damage = 100;
    game.components.pack.player[2].damage = 100;
    game.components.pack.animator[2].frame = Data::_null_persist;
    game.global.textAnimate = 1000000000;
    game.resolveState();
    assert!(game.global.playing);
    assert_eq!(game.components.pack.player[1].damage, 0);
    assert_eq!(game.components.pack.player[2].damage, 100);
    assert_eq!(game.components.pack.animator[2].frame, Data::_null_persist);
}

#[test]
fn banner_after_a_round_ends_the_game() {
    for banner in [Data::text_no, Data::text_great] {
        let mut game = started(1, &[0]);
        game.global.textType = banner;
        game.global.textAnimate = 1000000000;
        game.resolveState();
        assert!(game.gameOver);
        assert!(!game.global.playing);
        assert!(game.eventList.is_empty());
        // the flag is never taken back
        game.resolveState();
        assert!(game.gameOver);
    }
}

#[test]
fn banner_timer_wraps() {
    let mut game = started(1, &[0]);
    game.global.textType = Data::text_great;
    game.global.textAnimate = i32::MAX;
    game.resolveState();
    assert_eq!(game.global.textAnimate, i32::MAX.wrapping_add(8333333));
    assert!(!game.gameOver);
}

#[test]
fn round_starts_after_121_ticks() {
    let mut game = started(1, &[0]);
    for _ in 0..120 {
        assert_eq!(game.update(), Ok(()));
        assert!(!game.global.playing);
    }
    assert_eq!(game.global.textAnimate, 120 * 8333333);
    assert_eq!(game.update(), Ok(()));
    assert!(game.global.playing);
    assert_eq!(count_kind(&game, ObjType::Enemy), 480);
    assert!(game.eventList.is_empty());
    // the first enemy drew its fire delay and its frame from the generator
    let first = active(&game)
        .into_iter()
        .find(|i| game.components.pack.objectId[*i].value == ObjType::Enemy)
        .unwrap();
    assert_eq!(game.components.pack.body[first].position, Vector2::from(-928, -100));
    assert_eq!(game.components.pack.enemy[first].delayFire, 1845);
    assert_eq!(game.components.pack.animator[first].frame, 13);
    assert_eq!(game.rand.p, 960 - 624);
    assert_eq!(game.update(), Ok(()));
    assert_eq!(game.global.enemyCount, 480);
    assert!(game.global.playing);
}

#[test]
fn animators_step_every_fourth_tick() {
    let mut game = started(1, &[0]);
    for tick in 1..=3u16 {
        game.updateAnimators();
        assert_eq!(game.components.pack.animator[1].count, tick);
        assert_eq!(game.components.pack.animator[1].frame, Data::player_ship_0);
    }
    game.updateAnimators();
    assert_eq!(game.components.pack.animator[1].count, 0);
    assert_eq!(game.components.pack.animator[1].frame, Data::player_ship_1);
    for _ in 0..4 {
        game.updateAnimators();
    }
    assert_eq!(game.components.pack.animator[1].frame, Data::player_ship_0);
    // the shot cleaners have no animator
    assert_eq!(game.components.pack.animator[2].count, 0);
    assert!(game.eventList.is_empty());
}

#[test]
fn animator_outside_the_table_keeps_its_frame() {
    let mut game = started(1, &[]);
    let shot = spawn(&mut game, ObjType::Bullet, 0, 0);
    for _ in 0..9 {
        game.updateAnimators();
    }
    assert_eq!(game.components.pack.animator[shot.index()].frame, Data::player_shot);
    assert_eq!(game.components.pack.animator[shot.index()].count, 1);
    assert!(game.eventList.is_empty());
}

#[test]
fn explosion_runs_out_and_is_destroyed() {
    let mut game = started(1, &[]);
    let boom = spawn(&mut game, ObjType::Boom, 0, 0);
    let i = boom.index();
    // seven frames of four ticks each
    for tick in 0..27 {
        assert_eq!(game.update(), Ok(()));
        assert_eq!(game.components.pack.animator[i].frame, Data::enemy_boom_0 + (tick + 1) / 4);
        assert!(game.components.valid(boom));
    }
    assert_eq!(game.update(), Ok(()));
    assert!(!game.components.valid(boom));
    assert!(game.components.pack.comp[i].none());
    assert_eq!(count_kind(&game, ObjType::Boom), 0);
}

#[test]
fn null_frame_asks_for_destruction_every_tick() {
    let mut game = started(1, &[]);
    let shot = spawn(&mut game, ObjType::Bullet, 0, 0);
    game.components.pack.animator[shot.index()].frame = Data::_null;
    game.updateAnimators();
    game.updateAnimators();
    assert_eq!(game.eventList, vec![Event::from_destroy(shot), Event::from_destroy(shot)]);
    assert_eq!(game.resolveEvents(), Ok(()));
    assert!(!game.components.valid(shot));
    assert!(game.eventList.is_empty());
}

#[test]
fn player_is_steered_by_its_slot() {
    let mut game = started(1, &[0]);
    game.slots[0].raw = 1 << 17;
    assert_eq!(game.update(), Ok(()));
    assert_eq!(game.components.pack.body[1].velocity, Vector2::from(5, 0));
    assert_eq!(game.components.pack.body[1].position, Vector2::from(-863, -500));
    game.slots[0].raw = 1 << 16;
    assert_eq!(game.update(), Ok(()));
    assert_eq!(game.components.pack.body[1].position, Vector2::from(-868, -500));
    // right wins over left
    game.slots[0].raw = (1 << 16) | (1 << 17);
    assert_eq!(game.update(), Ok(()));
    assert_eq!(game.components.pack.body[1].position, Vector2::from(-863, -500));
    game.slots[0].raw = 0;
    assert_eq!(game.update(), Ok(()));
    assert_eq!(game.components.pack.body[1].velocity, Vector2::from(0, 0));
    assert_eq!(game.components.pack.body[1].position, Vector2::from(-863, -500));
}

#[test]
fn player_is_kept_inside_the_field() {
    let mut game = started(1, &[0]);
    game.components.pack.body[1].position.x = -2000;
    game.slots[0].raw = 1 << 16;
    game.compute_input();
    game.updatePlayers();
    assert_eq!(game.components.pack.body[1].position.x, -960);
    assert_eq!(game.components.pack.body[1].velocity.x, -5);
    game.components.pack.body[1].position.x = 961;
    game.updatePlayers();
    assert_eq!(game.components.pack.body[1].position.x, 960);
    game.components.pack.body[1].position.x = 960;
    game.updatePlayers();
    assert_eq!(game.components.pack.body[1].position.x, 960);
}

#[test]
fn player_fires_every_24_ticks() {
    let mut game = started(1, &[0]);
    game.slots[0].raw = 1 << 18;
    game.compute_input();
    game.updatePlayers();
    assert_eq!(
        game.eventList,
        vec![Event::from_entity(ObjType::Bullet, Vector2::from(-868, -500))]
    );
    assert_eq!(game.components.pack.player[1].delayFire, 24);
    for left in (1..=23u16).rev() {
        game.updatePlayers();
        assert_eq!(game.components.pack.player[1].delayFire, left);
    }
    assert_eq!(game.eventList.len(), 1);
    game.updatePlayers();
    assert_eq!(game.eventList.len(), 2);
    assert_eq!(game.components.pack.player[1].delayFire, 24);
}

#[test]
fn bullet_is_created_where_the_player_was_clamped_to() {
    let mut game = started(1, &[0]);
    game.components.pack.body[1].position.x = 5000;
    game.slots[0].raw = 1 << 18;
    game.compute_input();
    game.updatePlayers();
    assert_eq!(
        game.eventList,
        vec![Event::from_entity(ObjType::Bullet, Vector2::from(960, -500))]
    );
}

#[test]
fn disconnected_player_goes_down() {
    let mut game = started(1, &[0, 1]);
    game.global.playing = true;
    game.slots[1].connected = false;
    game.slots[1].raw = (1 << 18) | (1 << 16);
    game.components.pack.body[2].position.x = -3000;
    game.compute_input();
    game.updatePlayers();
    // the explosion is where the ship was; the shot where it was clamped to
    assert_eq!(
        game.eventList,
        vec![
            Event::from_entity(ObjType::PlayerBoom, Vector2::from(-3000, -500)),
            Event::from_entity(ObjType::Bullet, Vector2::from(-960, -500)),
        ]
    );
    assert_eq!(game.components.pack.player[2].damage, 100);
    assert_eq!(game.components.pack.animator[2].frame, Data::_null_persist);
    assert!(game.global.playing);
    // a damaged ship only cools down and stands still
    game.eventList.clear();
    game.components.pack.body[2].velocity.x = 9;
    game.updatePlayers();
    assert!(game.eventList.is_empty());
    assert_eq!(game.components.pack.body[2].velocity.x, 0);
    assert_eq!(game.components.pack.player[2].delayFire, 23);
    assert_eq!(game.components.pack.body[2].position.x, -960);
}

#[test]
fn round_is_lost_without_a_live_player() {
    let mut game = started(1, &[0]);
    let first = spawn(&mut game, ObjType::Enemy, 0, 0);
    let second = spawn(&mut game, ObjType::Enemy, 100, 0);
    game.global.playing = true;
    game.global.textAnimate = 5;
    game.components.pack.player[1].damage = 100;
    game.updatePlayers();
    assert!(!game.global.playing);
    assert_eq!(game.global.textAnimate, 0);
    assert_eq!(game.global.textType, Data::text_no);
    assert_eq!(game.eventList, vec![Event::from_destroy(first), Event::from_destroy(second)]);
    // in the banner state nothing more happens
    game.eventList.clear();
    game.updatePlayers();
    assert!(game.eventList.is_empty());
}

#[test]
fn enemies_patrol_and_fire() {
    let mut game = started(9, &[0]);
    let enemy = spawn(&mut game, ObjType::Enemy, 0, 0);
    let i = enemy.index();
    game.components.pack.enemy[i].delayFire = 3;
    game.global.enemySpeed = 3;
    game.updateEnemies();
    assert_eq!(game.global.enemyCount, 1);
    assert_eq!(game.components.pack.enemy[i].counter, 1);
    assert_eq!(game.components.pack.enemy[i].direction, 1);
    assert_eq!(game.components.pack.body[i].velocity.x, 3);
    assert_eq!(game.components.pack.enemy[i].delayFire, 2);
    game.updateEnemies();
    assert!(game.eventList.is_empty());
    game.components.pack.body[i].position = Vector2::from(40, 50);
    game.updateEnemies();
    assert_eq!(
        game.eventList,
        vec![Event::from_entity(ObjType::BadBullet, Vector2::from(40, 50))]
    );
    assert_eq!(game.components.pack.enemy[i].delayFire, 2000);
    // the counter starts over after 150 and the enemy turns round
    game.components.pack.enemy[i].counter = 149;
    game.updateEnemies();
    assert_eq!(game.components.pack.enemy[i].counter, 150);
    assert_eq!(game.components.pack.enemy[i].direction, 1);
    game.updateEnemies();
    assert_eq!(game.components.pack.enemy[i].counter, 0);
    assert_eq!(game.components.pack.enemy[i].direction, -1);
    assert_eq!(game.components.pack.body[i].velocity.x, -3);
    assert_eq!(game.components.pack.enemy[i].delayFire, 1998);
}

#[test]
fn enemies_move_at_the_speed_of_the_round() {
    let mut game = started(9, &[0]);
    let enemy = spawn(&mut game, ObjType::Enemy, 0, 0);
    game.global.enemySpeed = 7;
    game.updateEnemies();
    assert_eq!(game.components.pack.body[enemy.index()].velocity.x, 7);
    // the speed is set back for the next tick
    assert_eq!(game.global.enemySpeed, 3);
    game.updateEnemies();
    assert_eq!(game.components.pack.body[enemy.index()].velocity.x, 3);
}

#[test]
fn round_is_won_without_enemies() {
    let mut game = started(1, &[0]);
    game.global.playing = true;
    game.global.textAnimate = 77;
    game.global.enemyCount = 5;
    game.updateEnemies();
    assert!(!game.global.playing);
    assert_eq!(game.global.enemyCount, 0);
    assert_eq!(game.global.textAnimate, 0);
    assert_eq!(game.global.textType, Data::text_great);
    // with an enemy the round goes on
    let mut other = started(1, &[0]);
    spawn(&mut other, ObjType::Enemy, 0, 0);
    other.global.playing = true;
    other.updateEnemies();
    assert!(other.global.playing);
    assert_eq!(other.global.enemyCount, 1);
    assert_eq!(other.global.textType, Data::text_ready);
}

#[test]
fn integration_moves_active_bodies() {
    let mut game = started(1, &[]);
    let shot = spawn(&mut game, ObjType::Bullet, 10, 20);
    let bad = spawn(&mut game, ObjType::BadBullet, 10, 20);
    game.integrate();
    game.integrate();
    assert_eq!(game.components.pack.body[shot.index()].position, Vector2::from(10, 52));
    assert_eq!(game.components.pack.body[bad.index()].position, Vector2::from(10, 4));
    // a row that is not active stays
    game.components.pack.comp[shot.index()] = Cf::from(Cf::Body);
    game.integrate();
    assert_eq!(game.components.pack.body[shot.index()].position, Vector2::from(10, 52));
    // positions wrap
    game.components.pack.body[bad.index()].position.y = i32::MIN + 3;
    game.integrate();
    assert_eq!(game.components.pack.body[bad.index()].position.y, i32::MAX - 4);
}

#[test]
fn overlapping_bullet_and_enemy_give_one_contact() {
    let mut game = started(1, &[]);
    let enemy = spawn(&mut game, ObjType::Enemy, 100, 100);
    let bullet = spawn(&mut game, ObjType::Bullet, 110, 90);
    game.fillContactList();
    assert_eq!(game.eventList.len(), 1);
    let e = game.eventList[0];
    assert_eq!(e.id, Event::Contact);
    assert_eq!(e.key, ((ObjType::Bullet as u16) << 8) | ObjType::Enemy as u16);
    assert_eq!(e.key, Game::bulletVsEnemyKey);
    // the higher kind comes first
    assert_eq!(e.a, bullet);
    assert_eq!(e.b, enemy);
    assert_eq!(e, Event::from_contact(770, bullet, enemy));
    // the boxes are sorted by their lower x bound
    let order: Vec<i32> = game.boundList.iter().map(|b| b.lower.x).collect();
    assert_eq!(order, vec![-960, -960, 84, 98]);
}

#[test]
fn contact_does_not_depend_on_the_order_of_the_boxes() {
    let mut game = started(1, &[]);
    let bullet = spawn(&mut game, ObjType::Bullet, 100, 100);
    let enemy = spawn(&mut game, ObjType::Enemy, 110, 90);
    game.fillContactList();
    assert_eq!(game.eventList, vec![Event::from_contact(770, bullet, enemy)]);
}

#[test]
fn bodies_apart_give_no_contact() {
    let mut game = started(1, &[]);
    spawn(&mut game, ObjType::Enemy, 100, 100);
    // apart on the x axis: 100 + 16 < 129 - 12
    spawn(&mut game, ObjType::Bullet, 129, 100);
    // apart on the y axis: 100 + 10 < 131 - 20
    spawn(&mut game, ObjType::Bullet, 100, 131);
    game.fillContactList();
    assert!(game.eventList.is_empty());
    assert_eq!(game.boundList.len(), 5);
}

#[test]
fn bodies_that_touch_give_a_contact() {
    let mut game = started(1, &[]);
    let enemy = spawn(&mut game, ObjType::Enemy, 100, 100);
    let bullet = spawn(&mut game, ObjType::Bullet, 128, 130);
    game.fillContactList();
    assert_eq!(game.eventList, vec![Event::from_contact(770, bullet, enemy)]);
}

#[test]
fn equal_kinds_put_the_later_box_first() {
    let mut game = started(1, &[]);
    let left = spawn(&mut game, ObjType::Enemy, 100, 100);
    let right = spawn(&mut game, ObjType::Enemy, 105, 100);
    game.fillContactList();
    assert_eq!(
        game.eventList,
        vec![Event::from_contact((2 << 8) | 2, right, left)]
    );
}

#[test]
fn every_overlapping_pair_gives_one_contact() {
    let mut game = started(1, &[]);
    let a = spawn(&mut game, ObjType::Enemy, 0, 0);
    let b = spawn(&mut game, ObjType::Bullet, 5, 0);
    let c = spawn(&mut game, ObjType::BadBullet, 10, 0);
    // take the shot cleaners out of the pass
    game.components.pack.comp[1] = Cf::from(Cf::Empty);
    game.components.pack.comp[2] = Cf::from(Cf::Empty);
    game.fillContactList();
    // sorted by lower x: the enemy (-16), the bullet (-7), the enemy shot (3)
    assert_eq!(
        game.eventList,
        vec![
            Event::from_contact((3 << 8) | 2, b, a),
            Event::from_contact((4 << 8) | 2, c, a),
            Event::from_contact((4 << 8) | 3, c, b),
        ]
    );
}

#[test]
fn bullet_and_enemy_go_together() {
    let mut game = started(1, &[]);
    let enemy = spawn(&mut game, ObjType::Enemy, 100, 100);
    let bullet = spawn(&mut game, ObjType::Bullet, 110, 90);
    game.eventList.push(Event::from_contact(Game::bulletVsEnemyKey, bullet, enemy));
    // a second contact of the same pair finds both marked
    game.eventList.push(Event::from_contact(Game::bulletVsEnemyKey, bullet, enemy));
    assert_eq!(game.resolveEvents(), Ok(()));
    assert_eq!(game.components.pack.animator[enemy.index()].frame, Data::_null);
    assert_eq!(game.components.pack.animator[bullet.index()].frame, Data::_null);
    // the explosion was created in the same drain, where the enemy was
    assert_eq!(count_kind(&game, ObjType::Boom), 1);
    let boom = active(&game)
        .into_iter()
        .find(|i| game.components.pack.objectId[*i].value == ObjType::Boom)
        .unwrap();
    assert_eq!(game.components.pack.body[boom].position, Vector2::from(100, 100));
    assert_eq!(game.components.pack.animator[boom].frame, Data::enemy_boom_0);
    assert!(game.eventList.is_empty());
    // both are destroyed on the next tick
    assert_eq!(game.update(), Ok(()));
    assert!(!game.components.valid(enemy));
    assert!(!game.components.valid(bullet));
}

#[test]
fn enemy_shot_damages_the_player() {
    let mut game = started(1, &[0]);
    let player = Entity::from(1, 0);
    let shot = spawn(&mut game, ObjType::BadBullet, -868, -495);
    game.eventList.push(Event::from_contact(Game::badBulletVsPlayerKey, shot, player));
    game.eventList.push(Event::from_contact(Game::badBulletVsPlayerKey, shot, player));
    assert_eq!(game.resolveEvents(), Ok(()));
    assert_eq!(game.components.pack.animator[shot.index()].frame, Data::_null);
    assert_eq!(game.components.pack.player[1].damage, 100);
    assert_eq!(game.components.pack.animator[1].frame, Data::_null_persist);
    assert_eq!(count_kind(&game, ObjType::PlayerBoom), 1);
    // a player that is down already is not hit again
    let next = spawn(&mut game, ObjType::BadBullet, -868, -495);
    game.eventList.push(Event::from_contact(Game::badBulletVsPlayerKey, next, player));
    assert_eq!(game.resolveEvents(), Ok(()));
    assert_eq!(game.components.pack.animator[next.index()].frame, Data::enemy_shot);
    assert_eq!(count_kind(&game, ObjType::PlayerBoom), 1);
    // the player itself is never destroyed by its animator
    assert_eq!(game.update(), Ok(()));
    assert!(game.components.valid(player));
}

#[test]
fn shot_cleaner_marks_shots() {
    let mut game = started(1, &[]);
    let cleaner = Entity::from(1, 0);
    let shot = spawn(&mut game, ObjType::Bullet, 0, 600);
    let bad = spawn(&mut game, ObjType::BadBullet, 0, 600);
    game.eventList.push(Event::from_contact(Game::shotCleanerVsBulletKey, cleaner, shot));
    game.eventList.push(Event::from_contact(Game::shotCleanerVsBadBulletKey, cleaner, bad));
    assert_eq!(game.resolveEvents(), Ok(()));
    assert_eq!(game.components.pack.animator[shot.index()].frame, Data::_null);
    assert_eq!(game.components.pack.animator[bad.index()].frame, Data::_null);
    assert_eq!(active(&game).len(), 4);
    assert_eq!(game.update(), Ok(()));
    assert_eq!(active(&game), vec![1, 2]);
}

#[test]
fn bullet_flies_until_the_cleaner_takes_it() {
    let mut game = started(1, &[0]);
    game.slots[0].raw = 1 << 18;
    assert_eq!(game.update(), Ok(()));
    game.slots[0].raw = 0;
    assert_eq!(count_kind(&game, ObjType::Bullet), 1);
    let mut ticks = 0;
    while count_kind(&game, ObjType::Bullet) == 1 {
        assert_eq!(game.update(), Ok(()));
        ticks += 1;
        assert!(ticks < 200);
    }
    // 65 moves bring the bullet to y = 540, whose box reaches the cleaner at 550;
    // it is marked in that tick and destroyed in the next
    assert_eq!(ticks, 66);
    assert_eq!(active(&game), vec![1, 2, 3]);
}

#[test]
fn unmapped_contacts_are_ignored() {
    let mut game = started(1, &[0]);
    let before = started(1, &[0]);
    let player = Entity::from(1, 0);
    let cleaner = Entity::from(2, 0);
    game.eventList.push(Event::from_contact(Game::computeKey(7, 1), cleaner, player));
    game.eventList.push(Event::from_contact(0, player, cleaner));
    game.eventList.push(Event { id: Event::Shoot, ..Event::default() });
    game.eventList.push(Event::default());
    game.eventList.push(Event { id: 200, ..Event::default() });
    assert_eq!(game.resolveEvents(), Ok(()));
    assert!(same_world(&game, &before));
}

#[test]
fn contact_with_a_destroyed_entity_is_skipped() {
    let mut game = started(1, &[]);
    let enemy = spawn(&mut game, ObjType::Enemy, 100, 100);
    let bullet = spawn(&mut game, ObjType::Bullet, 110, 90);
    game.eventList.push(Event::from_destroy(enemy));
    game.eventList.push(Event::from_contact(Game::bulletVsEnemyKey, bullet, enemy));
    game.eventList.push(Event::from_destroy(enemy));
    assert_eq!(game.resolveEvents(), Ok(()));
    assert!(!game.components.valid(enemy));
    assert!(game.components.valid(bullet));
    assert_eq!(game.components.pack.animator[bullet.index()].frame, Data::player_shot);
    assert_eq!(count_kind(&game, ObjType::Boom), 0);
    assert_eq!(game.components.pack.generation[enemy.index()], 1);
}

#[test]
fn contact_of_an_entity_with_itself_is_skipped() {
    let mut game = started(1, &[]);
    let bullet = spawn(&mut game, ObjType::Bullet, 110, 90);
    game.eventList.push(Event::from_contact(Game::bulletVsEnemyKey, bullet, bullet));
    assert_eq!(game.resolveEvents(), Ok(()));
    assert_eq!(game.components.pack.animator[bullet.index()].frame, Data::player_shot);
    assert_eq!(count_kind(&game, ObjType::Boom), 0);
}

#[test]
fn collision_function_resolves_one_contact() {
    let mut game = started(1, &[]);
    let enemy = spawn(&mut game, ObjType::Enemy, 100, 100);
    let bullet = spawn(&mut game, ObjType::Bullet, 110, 90);
    game.eventList.push(Event::from_contact(Game::bulletVsEnemyKey, bullet, enemy));
    Game::collisionFunction(&mut game, 0);
    assert_eq!(game.components.pack.animator[enemy.index()].frame, Data::_null);
    assert_eq!(game.components.pack.animator[bullet.index()].frame, Data::_null);
    assert_eq!(
        game.eventList,
        vec![
            Event::from_contact(Game::bulletVsEnemyKey, bullet, enemy),
            Event::from_entity(ObjType::Boom, Vector2::from(100, 100)),
        ]
    );
}

#[test]
fn created_slot_is_reused_with_its_generation() {
    let mut game = started(1, &[]);
    let first = spawn(&mut game, ObjType::Bullet, 1, 1);
    game.eventList.push(Event::from_destroy(first));
    game.eventList.push(Event::from_entity(ObjType::BadBullet, Vector2::from(2, 2)));
    game.eventList.push(Event::from_destroy(first));
    assert_eq!(game.resolveEvents(), Ok(()));
    let i = first.index();
    assert_eq!(game.components.pack.generation[i], 1);
    assert_eq!(game.components.pack.objectId[i].value, ObjType::BadBullet);
    assert_eq!(game.components.pack.body[i].velocity, Vector2::from(0, -8));
    assert!(game.components.valid(Entity::from(first.id(), 1)));
    assert!(!game.components.valid(first));
}

#[test]
fn unknown_kind_is_fatal() {
    let mut game = started(1, &[]);
    let before = started(1, &[]);
    game.eventList.push(Event::from_entity(ObjType::Bullet, Vector2::from(1, 1)));
    game.eventList.push(Event::from_entity(8, Vector2::from(1, 1)));
    game.eventList.push(Event::from_entity(ObjType::Bullet, Vector2::from(2, 2)));
    assert_eq!(game.resolveEvents(), Err(Fatal::UnknownKind));
    // the events before the bad one were resolved; the queue is left as it was
    assert_eq!(count_kind(&game, ObjType::Bullet), 1);
    assert_eq!(game.eventList.len(), 3);
    assert_eq!(before.eventList.len(), 0);
}

#[test]
fn player_for_a_missing_slot_is_fatal() {
    let mut game = started(1, &[]);
    game.eventList.push(Event::from_player(63, Vector2::from(1, 1)));
    assert_eq!(game.resolveEvents(), Ok(()));
    assert_eq!(game.components.pack.player[3].slot, 63);
    game.eventList.push(Event::from_player(64, Vector2::from(1, 1)));
    assert_eq!(game.resolveEvents(), Err(Fatal::SlotOutOfRange));
    assert_eq!(count_kind(&game, ObjType::Player), 1);
    // other kinds do not read the key
    game.eventList.clear();
    game.eventList.push(Event { key: 9999, ..Event::from_entity(ObjType::Boom, Vector2::new()) });
    assert_eq!(game.resolveEvents(), Ok(()));
}

#[test]
fn handle_beyond_the_rows_is_fatal() {
    let mut game = started(1, &[]);
    game.eventList.push(Event::from_destroy(Entity::from(3, 0)));
    assert_eq!(game.resolveEvents(), Err(Fatal::HandleOutOfRange));
    game.eventList.clear();
    game.eventList.push(Event::from_destroy(Entity::new()));
    game.eventList.push(Event::from_destroy(Entity::from(2, 5)));
    game.eventList.push(Event::from_contact(770, Entity::new(), Entity::from(900, 0)));
    game.eventList.push(Event::from_contact(770, Entity::from(1, 3), Entity::from(900, 0)));
    assert_eq!(game.resolveEvents(), Ok(()));
    game.eventList.push(Event::from_contact(770, Entity::from(1, 0), Entity::from(900, 0)));
    assert_eq!(game.resolveEvents(), Err(Fatal::HandleOutOfRange));
    game.eventList.clear();
    game.eventList.push(Event::from_contact(770, Entity::from(900, 0), Entity::from(1, 0)));
    assert_eq!(game.update(), Err(Fatal::HandleOutOfRange));
}

#[test]
fn exhausted_index_space_is_fatal() {
    let mut game = Game::new();
    game.init(1);
    for _ in 0..65533 {
        game.eventList.push(Event::from_entity(ObjType::Null, Vector2::new()));
    }
    assert_eq!(game.resolveEvents(), Ok(()));
    assert_eq!(game.components.pack.size(), 65536);
    assert!(!game.components.has_room());
    game.eventList.push(Event::from_entity(ObjType::Null, Vector2::new()));
    assert_eq!(game.resolveEvents(), Err(Fatal::IndexSpaceExhausted));
    assert_eq!(game.components.pack.size(), 65536);
    // a freed slot makes room again
    game.eventList.clear();
    game.eventList.push(Event::from_destroy(Entity::from(40000, 0)));
    game.eventList.push(Event::from_entity(ObjType::Boom, Vector2::new()));
    assert_eq!(game.resolveEvents(), Ok(()));
    assert_eq!(game.components.pack.objectId[40000].value, ObjType::Boom);
    assert_eq!(game.components.pack.generation[40000], 1);
}

#[test]
fn fast_forward_and_update_agree_on_a_quiet_tick() {
    let mut full = started(1, &[0]);
    full.slots[0].raw = 1 << 17;
    let mut fast = Game::new();
    fast.smartCopy(&full);
    for _ in 0..50 {
        assert_eq!(full.update(), Ok(()));
        fast.fastForward();
        assert!(same_world(&full, &fast));
    }
}

#[test]
fn fast_forward_skips_the_contacts() {
    let mut full = started(1, &[]);
    let enemy = spawn(&mut full, ObjType::Enemy, 100, 100);
    let bullet = spawn(&mut full, ObjType::Bullet, 110, 60);
    full.components.pack.enemy[enemy.index()].delayFire = 500;
    let mut fast = Game::new();
    fast.smartCopy(&full);
    assert!(same_world(&full, &fast));
    assert_eq!(full.update(), Ok(()));
    fast.fastForward();
    // the contact's response: both frames are cleared, and an explosion appears
    let e = enemy.index();
    let b = bullet.index();
    assert_eq!(full.components.pack.animator[e].frame, Data::_null);
    assert_eq!(full.components.pack.animator[b].frame, Data::_null);
    assert_eq!(fast.components.pack.animator[e].frame, 13);
    assert_eq!(fast.components.pack.animator[b].frame, Data::player_shot);
    assert_eq!(count_kind(&full, ObjType::Boom), 1);
    assert_eq!(count_kind(&fast, ObjType::Boom), 0);
    // everything else is the same
    assert_eq!(full.components.pack.body[e], fast.components.pack.body[e]);
    assert_eq!(full.components.pack.body[b], fast.components.pack.body[b]);
    assert_eq!(full.components.pack.enemy[e], fast.components.pack.enemy[e]);
    assert_eq!(full.components.pack.animator[e].count, fast.components.pack.animator[e].count);
    assert_eq!(full.components.pack.comp[..5], fast.components.pack.comp[..]);
    assert_eq!(full.global, fast.global);
    assert_eq!(full.rand.x, fast.rand.x);
    assert!(fast.eventList.is_empty());
}

#[test]
fn fast_forward_keeps_the_events() {
    let mut game = started(1, &[0]);
    game.slots[0].raw = 1 << 18;
    game.fastForward();
    assert_eq!(
        game.eventList,
        vec![Event::from_entity(ObjType::Bullet, Vector2::from(-868, -500))]
    );
    assert_eq!(count_kind(&game, ObjType::Bullet), 0);
    // the next full tick resolves them
    game.slots[0].raw = 0;
    assert_eq!(game.update(), Ok(()));
    assert_eq!(count_kind(&game, ObjType::Bullet), 1);
    assert!(game.eventList.is_empty());
}

fn drive(game: &mut Game, tick: u32) {
    let pattern = tick.wrapping_mul(2654435761);
    game.slots[0].raw = ((pattern >> 7) as i64 & 0x7) << 16;
    game.slots[1].raw = ((pattern >> 11) as i64 & 0x7) << 16;
    game.slots[1].connected = tick % 400 < 300;
    assert_eq!(game.update(), Ok(()));
}

#[test]
fn snapshot_does_not_touch_its_source() {
    let mut source = started(7, &[0, 1]);
    for tick in 0..200 {
        drive(&mut source, tick);
    }
    let mut witness = Game::new();
    witness.smartCopy(&source);
    let mut copy = Game::new();
    copy.smartCopy(&source);
    assert!(same_world(&copy, &source));
    for tick in 200..500 {
        drive(&mut copy, tick);
    }
    assert!(!same_world(&copy, &source));
    assert!(same_world(&witness, &source));
}

#[test]
fn snapshot_replays_to_the_same_world() {
    let mut source = started(7, &[0, 1]);
    for tick in 0..150 {
        drive(&mut source, tick);
    }
    let mut copy = started(99, &[3]);
    for tick in 0..40 {
        drive(&mut copy, tick);
    }
    copy.smartCopy(&source);
    assert!(same_world(&copy, &source));
    for tick in 150..700 {
        drive(&mut source, tick);
        drive(&mut copy, tick);
        assert!(same_rows(&copy, &source));
        assert_eq!(copy.global, source.global);
    }
    assert!(same_world(&copy, &source));
    assert_eq!(copy.rand.next_u32(), source.rand.next_u32());
}

#[test]
fn snapshot_copies_pending_events() {
    let mut source = started(7, &[0]);
    source.slots[0].raw = 1 << 18;
    source.fastForward();
    assert_eq!(source.eventList.len(), 1);
    let mut copy = started(8, &[1, 2]);
    copy.eventList.push(Event::from_destroy(Entity::from(1, 0)));
    copy.eventList.push(Event::from_destroy(Entity::from(2, 0)));
    copy.smartCopy(&source);
    assert_eq!(copy.eventList, source.eventList);
    assert_eq!(copy.update(), Ok(()));
    assert_eq!(source.update(), Ok(()));
    assert!(same_world(&copy, &source));
}

#[test]
fn same_seed_and_inputs_give_the_same_game() {
    let mut a = started(2024, &[0, 1]);
    let mut b = started(2024, &[0, 1]);
    for tick in 0..600 {
        drive(&mut a, tick);
        drive(&mut b, tick);
    }
    assert!(same_world(&a, &b));
    assert!(a.global.playing || a.gameOver || a.global.textAnimate > 0);
}

#[test]
fn whole_game_runs_to_game_over() {
    let mut game = started(5, &[0]);
    let mut ticks = 0;
    while !game.gameOver {
        // hold fire and sweep right and left
        let steer = if (ticks / 300) % 2 == 0 { 1 << 17 } else { 1 << 16 };
        game.slots[0].raw = (1 << 18) | steer;
        assert_eq!(game.update(), Ok(()));
        ticks += 1;
        assert!(ticks < 200000);
    }
    assert!(!game.global.playing);
    assert!(game.global.textType == Data::text_no || game.global.textType == Data::text_great);
    assert!(game.global.textAnimate > 1000000000);
}
