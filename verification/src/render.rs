//! What a frame shows, as plain values: the sprites of the world, the
//! sprite of the local player, and the banner.

use vstd::prelude::*;
use vstd::wrapping::i32_specs;
use crate::components::Cf;
use crate::data::{lemma_catalogue_masks, Data};
use crate::input::GlobalState;
use crate::store::{CpPack, CpRow};

verus! {

/// Rows that are drawn: active, with an object kind, a body and an animator.
pub const SPRITES: u8 = 103;

/// A sprite to draw: its frame and where it goes on the screen, whose y
/// axis points down.
#[derive(Clone, Copy, Debug, PartialEq, Eq, Structural)]
pub struct Sprite {
    pub frame: u16,
    pub x: i32,
    pub y: i32,
}

/// Whether row `r` is a sprite of the player of input slot `local`.
pub open spec fn is_local(r: CpRow, local: i8) -> bool {
    r.has(SPRITES) && r.has(Cf::Player) && r.player.slot == local
}

/// The sprite of row `r`.
pub open spec fn sprite_of(r: CpRow) -> Sprite {
    Sprite {
        frame: r.animator.frame,
        x: r.body.position.x,
        y: i32_specs::wrapping_sub(0, r.body.position.y),
    }
}

/// The sprites of the first `n` rows, in row order, those of the local
/// player left out.
pub open spec fn drawn_upto(rows: Seq<CpRow>, local: i8, n: int) -> Seq<Sprite>
    decreases n,
{
    if n <= 0 {
        Seq::empty()
    } else if rows[n - 1].has(SPRITES) && !is_local(rows[n - 1], local) {
        drawn_upto(rows, local, n - 1).push(sprite_of(rows[n - 1]))
    } else {
        drawn_upto(rows, local, n - 1)
    }
}

/// The sprites of the world, in row order, those of the local player left
/// out.
pub open spec fn drawn(rows: Seq<CpRow>, local: i8) -> Seq<Sprite> {
    drawn_upto(rows, local, rows.len() as int)
}

/// The sprite of the last of the first `n` rows that belongs to the local
/// player; the frame 0 at the origin if none does.
pub open spec fn local_upto(rows: Seq<CpRow>, local: i8, n: int) -> Sprite
    decreases n,
{
    if n <= 0 {
        Sprite { frame: 0, x: 0, y: 0 }
    } else if is_local(rows[n - 1], local) {
        sprite_of(rows[n - 1])
    } else {
        local_upto(rows, local, n - 1)
    }
}

/// The frame that the local player's ship shows in place of `frame`: the
/// two frames of the player ship become those of the local player's ship.
pub open spec fn local_frame(frame: u16) -> u16 {
    if frame == Data::player_ship_0 {
        Data::local_player_0
    } else if frame == Data::player_ship_1 {
        Data::local_player_1
    } else {
        frame
    }
}

/// The sprite of the local player, in the frames of its own ship.
pub open spec fn local_sprite(rows: Seq<CpRow>, local: i8) -> Sprite {
    let s = local_upto(rows, local, rows.len() as int);
    Sprite { frame: local_frame(s.frame), ..s }
}

/// Rows that are not drawn add no sprite and are not the local player's.
pub proof fn lemma_drawn_skip(rows: Seq<CpRow>, local: i8, a: int, b: int)
    requires
        0 <= a <= b,
        forall|j: int| a <= j < b ==> !(#[trigger] rows[j]).has(SPRITES),
    ensures
        drawn_upto(rows, local, b) == drawn_upto(rows, local, a),
        local_upto(rows, local, b) == local_upto(rows, local, a),
    decreases b - a,
{
    if a < b {
        lemma_drawn_skip(rows, local, a, b - 1);
        assert(!rows[b - 1].has(SPRITES));
    }
}

/// The frame of the banner, if one is to be drawn: the banner shows
/// whenever no round is in play.
pub fn banner_frame(global: &GlobalState) -> (r: Option<u16>)
    ensures
        r == (if global.playing {
            None
        } else {
            Some(global.textType)
        }),
{
    if !global.playing {
        Some(global.textType)
    } else {
        None
    }
}

/// What a frame shows of the rows: the sprites of every row that is drawn,
/// in row order, and, apart from them, the sprite of the player of input
/// slot `local_player`, which is drawn in frames of its own. The rows stay
/// as they are.
pub fn render_list(pack: &mut CpPack, local_player: i8) -> (r: (Vec<Sprite>, Sprite))
    requires
        old(pack).wf(),
    ensures
        final(pack).wf(),
        final(pack)@ == old(pack)@,
        r.0@ == drawn(old(pack)@, local_player),
        r.1 == local_sprite(old(pack)@, local_player),
{
    let ghost rows0 = pack@;
    let ghost n = pack@.len() as int;
    proof {
        lemma_catalogue_masks();
    }
    let mut list: Vec<Sprite> = Vec::new();
    let mut tx: i32 = 0;
    let mut ty: i32 = 0;
    let mut tf: u16 = 0;

    let mut it = pack.filter(Cf::Active | Cf::Component | Cf::Body | Cf::ObjectId | Cf::Animator);
    loop
        invariant
            it.mask == SPRITES,
            it.pack.wf(),
            it.pack@.len() == n,
            rows0.len() == n,
            0 <= it.cursor <= n,
            *final(it.pack) == after_borrow(*pack),
            it.pack@ == rows0,
            list@ == drawn_upto(rows0, local_player, it.cursor as int),
            (Sprite { frame: tf, x: tx, y: ty }) == local_upto(
                rows0,
                local_player,
                it.cursor as int,
            ),
        ensures
            it.pack.wf(),
            *final(it.pack) == after_borrow(*pack),
            it.pack@ == rows0,
            list@ == drawn_upto(rows0, local_player, n),
            (Sprite { frame: tf, x: tx, y: ty }) == local_upto(rows0, local_player, n),
        decreases n - it.cursor,
    {
        let ghost c0 = it.cursor as int;
        match it.next() {
            None => {
                proof {
                    lemma_drawn_skip(rows0, local_player, c0, n);
                }
                break ;
            },
            Some(r) => {
                let ghost k = r.entity.index as int;
                proof {
                    lemma_drawn_skip(rows0, local_player, c0, k);
                }
                let mut draw = true;

                if r.comp.test(Cf::Player) {
                    if r.player.slot == local_player {
                        draw = false;
                        tx = r.body.position.x;
                        ty = 0i32.wrapping_sub(r.body.position.y);
                        tf = r.animator.frame;
                    }
                }
                if draw {
                    list.push(
                        Sprite {
                            frame: r.animator.frame,
                            x: r.body.position.x,
                            y: 0i32.wrapping_sub(r.body.position.y),
                        },
                    );
                }
                proof {
                    assert(rows0.update(k, r.row()) =~= rows0);
                }
            },
        }
    }
    // the local player gets the frames of its own ship
    if tf == Data::player_ship_0 {
        tf = Data::local_player_0;
    } else if tf == Data::player_ship_1 {
        tf = Data::local_player_1;
    }
    (list, Sprite { frame: tf, x: tx, y: ty })
}

} // verus!
