//! The component store: struct-of-arrays rows keyed by slot index, handles
//! with generation tags, filtered iteration and prefab stamping.

use vstd::prelude::*;
use vstd::wrapping::u16_specs;
use crate::components::{Animator, Body, Cf, Enemy, ObjType, Player};
use crate::entity::Entity;
use crate::index_table::{IndexTable, TableView};

verus! {

/// Everything the store keeps for one slot, as one value.
pub struct CpRow {
    pub generation: u16,
    pub comp: Cf,
    pub objectId: ObjType,
    pub body: Body,
    pub player: Player,
    pub enemy: Enemy,
    pub animator: Animator,
}

/// The row made of the given parts.
pub open spec fn row_of(
    generation: u16,
    comp: Cf,
    objectId: ObjType,
    body: Body,
    player: Player,
    enemy: Enemy,
    animator: Animator,
) -> CpRow {
    CpRow { generation, comp, objectId, body, player, enemy, animator }
}

impl CpRow {
    /// The row that a slot holds before anything was written to it.
    pub open spec fn blank() -> CpRow {
        CpRow {
            generation: 0,
            comp: Cf { value: 0 },
            objectId: ObjType { value: 0 },
            body: Body::spec_default(),
            player: Player { slot: 0, delayFire: 0, damage: 0 },
            enemy: Enemy { direction: 0, counter: 0, delayFire: 0 },
            animator: Animator { frame: 0, count: 0 },
        }
    }

    /// Whether the archetype mask of the row has every bit of `mask`.
    pub open spec fn has(self, mask: u8) -> bool {
        self.comp.spec_test(mask)
    }
}

/// The seven parallel columns. Row `i` is made of entry `i` of each.
pub struct CpPack {
    pub generation: Vec<u16>,
    pub comp: Vec<Cf>,
    pub objectId: Vec<ObjType>,
    pub body: Vec<Body>,
    pub player: Vec<Player>,
    pub enemy: Vec<Enemy>,
    pub animator: Vec<Animator>,
}

impl View for CpPack {
    type V = Seq<CpRow>;

    open spec fn view(&self) -> Seq<CpRow> {
        Seq::new(self.generation@.len(), |i: int| self.row(i))
    }
}

/// A slot seen through mutable references to each of its components,
/// together with the handle that names it. All six components can be
/// written, whether or not the archetype mask marks them present.
pub struct CpReference<'a> {
    pub entity: Entity,
    pub comp: &'a mut Cf,
    pub objectId: &'a mut ObjType,
    pub body: &'a mut Body,
    pub player: &'a mut Player,
    pub enemy: &'a mut Enemy,
    pub animator: &'a mut Animator,
}

impl<'a> CpReference<'a> {
    /// The row as the view shows it now.
    pub open spec fn row(self) -> CpRow {
        CpRow {
            generation: self.entity.generation,
            comp: *self.comp,
            objectId: *self.objectId,
            body: *self.body,
            player: *self.player,
            enemy: *self.enemy,
            animator: *self.animator,
        }
    }
}

impl CpPack {
    /// Row `i` put together from the columns.
    pub open spec fn row(&self, i: int) -> CpRow {
        CpRow {
            generation: self.generation@[i],
            comp: self.comp@[i],
            objectId: self.objectId@[i],
            body: self.body@[i],
            player: self.player@[i],
            enemy: self.enemy@[i],
            animator: self.animator@[i],
        }
    }

    /// All columns have the same length, and no more rows than 16-bit
    /// indices can name.
    pub open spec fn wf(&self) -> bool {
        &&& self.generation@.len() <= 0x10000
        &&& self.comp@.len() == self.generation@.len()
        &&& self.objectId@.len() == self.generation@.len()
        &&& self.body@.len() == self.generation@.len()
        &&& self.player@.len() == self.generation@.len()
        &&& self.enemy@.len() == self.generation@.len()
        &&& self.animator@.len() == self.generation@.len()
    }

    /// The number of rows.
    pub open spec fn spec_size(&self) -> usize {
        self.generation@.len() as usize
    }

    /// A store with no rows.
    pub fn new() -> (p: CpPack)
        ensures
            p.wf(),
            p@ == Seq::<CpRow>::empty(),
    {
        let p = CpPack {
            generation: Vec::new(),
            comp: Vec::new(),
            objectId: Vec::new(),
            body: Vec::new(),
            player: Vec::new(),
            enemy: Vec::new(),
            animator: Vec::new(),
        };
        assert(p@ =~= Seq::<CpRow>::empty());
        p
    }

    /// The number of rows.
    #[verifier::when_used_as_spec(spec_size)]
    pub fn size(&self) -> (n: usize)
        ensures
            n == self.generation@.len(),
    {
        self.generation.len()
    }

    /// Mutable access to row `i`.
    pub fn at(&mut self, i: usize) -> (r: CpReference<'_>)
        requires
            old(self).wf(),
            i < old(self).generation@.len(),
        ensures
            r.entity == (Entity { index: i as u16, generation: old(self)@[i as int].generation }),
            r.row() == old(self)@[i as int],
            final(self).wf(),
            final(self)@ == old(self)@.update(
                i as int,
                row_of(
                    r.entity.generation,
                    *final(r.comp),
                    *final(r.objectId),
                    *final(r.body),
                    *final(r.player),
                    *final(r.enemy),
                    *final(r.animator),
                ),
            ),
    {
        let r = CpReference {
            entity: Entity::from(i as u16, self.generation[i]),
            comp: &mut self.comp[i],
            objectId: &mut self.objectId[i],
            body: &mut self.body[i],
            player: &mut self.player[i],
            enemy: &mut self.enemy[i],
            animator: &mut self.animator[i],
        };
        r
    }

    /// Mutable access to rows `i` and `j` at once, in that order. Every
    /// column is split between the two rows, so the two views share no
    /// memory, whichever of the two indices is the larger.
    pub fn pair(&mut self, i: usize, j: usize) -> (r: (CpReference<'_>, CpReference<'_>))
        requires
            old(self).wf(),
            i < old(self).generation@.len(),
            j < old(self).generation@.len(),
            i != j,
        ensures
            r.0.entity == (Entity { index: i as u16, generation: old(self)@[i as int].generation }),
            r.1.entity == (Entity { index: j as u16, generation: old(self)@[j as int].generation }),
            r.0.row() == old(self)@[i as int],
            r.1.row() == old(self)@[j as int],
            final(self).wf(),
            final(self)@ == old(self)@.update(
                i as int,
                row_of(
                    r.0.entity.generation,
                    *final(r.0.comp),
                    *final(r.0.objectId),
                    *final(r.0.body),
                    *final(r.0.player),
                    *final(r.0.enemy),
                    *final(r.0.animator),
                ),
            ).update(
                j as int,
                row_of(
                    r.1.entity.generation,
                    *final(r.1.comp),
                    *final(r.1.objectId),
                    *final(r.1.body),
                    *final(r.1.player),
                    *final(r.1.enemy),
                    *final(r.1.animator),
                ),
            ),
    {
        let swapped = i > j;

        let mut n0 = i;
        let mut n1 = j;

        if swapped {
            n0 = j;
            n1 = i;
        }
        let g0 = self.generation[n0];
        let g1 = self.generation[n1];
        let comp = split_pair(&mut self.comp, n0, n1);
        let objectId = split_pair(&mut self.objectId, n0, n1);
        let body = split_pair(&mut self.body, n0, n1);
        let player = split_pair(&mut self.player, n0, n1);
        let enemy = split_pair(&mut self.enemy, n0, n1);
        let animator = split_pair(&mut self.animator, n0, n1);

        let A = CpReference {
            entity: Entity::from(n0 as u16, g0),
            comp: comp.0,
            objectId: objectId.0,
            body: body.0,
            player: player.0,
            enemy: enemy.0,
            animator: animator.0,
        };
        let B = CpReference {
            entity: Entity::from(n1 as u16, g1),
            comp: comp.1,
            objectId: objectId.1,
            body: body.1,
            player: player.1,
            enemy: enemy.1,
            animator: animator.1,
        };

        if swapped {
            (B, A)
        } else {
            (A, B)
        }
    }

    /// An iterator over every row, from the first.
    pub fn iter(&mut self) -> (it: CpIterMut<'_>)
        requires
            old(self).wf(),
        ensures
            it.mask == 0,
            it.cursor == 0,
            *it.pack == *old(self),
            *final(it.pack) == *final(self),
    {
        CpIterMut { mask: 0, cursor: 0, pack: self }
    }

    /// An iterator over the rows whose archetype mask has every bit of
    /// `mask`, from the first.
    pub fn filter(&mut self, mask: u8) -> (it: CpIterMut<'_>)
        requires
            old(self).wf(),
        ensures
            it.mask == mask,
            it.cursor == 0,
            *it.pack == *old(self),
            *final(it.pack) == *final(self),
    {
        CpIterMut { mask: mask, cursor: 0, pack: self }
    }

    /// Drops every row.
    pub fn clear(&mut self)
        ensures
            final(self).wf(),
            final(self)@ == Seq::<CpRow>::empty(),
    {
        self.generation.clear();
        self.comp.clear();
        self.objectId.clear();
        self.body.clear();
        self.player.clear();
        self.enemy.clear();
        self.animator.clear();
        assert(self@ =~= Seq::<CpRow>::empty());
    }

    /// Grows the store to `s` rows by adding blank rows at the end. A store
    /// that already has `s` rows or more is left alone.
    pub fn resize(&mut self, s: usize)
        requires
            old(self).wf(),
            s <= 0x10000,
        ensures
            final(self).wf(),
            final(self)@ == grown(old(self)@, s as nat),
    {
        if self.size() < s {
            grow_column(&mut self.generation, s, 0u16);
            grow_column(&mut self.comp, s, Cf::default());
            grow_column(&mut self.objectId, s, ObjType::default());
            grow_column(&mut self.body, s, Body::default());
            grow_column(&mut self.player, s, Player::default());
            grow_column(&mut self.enemy, s, Enemy::default());
            grow_column(&mut self.animator, s, Animator::default());
        }
        assert(self@ =~= grown(old(self)@, s as nat));
    }

    /// Makes this store a copy of `other`, row for row: same length, same
    /// contents, whether or not a row is in use.
    pub fn smartCopy(&mut self, other: &CpPack)
        requires
            other.wf(),
        ensures
            final(self).wf(),
            final(self)@ == other@,
    {
        copy_column(&mut self.generation, &other.generation, 0u16);
        copy_column(&mut self.comp, &other.comp, Cf::default());
        copy_column(&mut self.objectId, &other.objectId, ObjType::default());
        copy_column(&mut self.body, &other.body, Body::default());
        copy_column(&mut self.player, &other.player, Player::default());
        copy_column(&mut self.enemy, &other.enemy, Enemy::default());
        copy_column(&mut self.animator, &other.animator, Animator::default());
        assert(self@ =~= other@);
    }
}

/// `rows` made at least `s` long with blank rows.
pub open spec fn grown(rows: Seq<CpRow>, s: nat) -> Seq<CpRow> {
    if rows.len() < s {
        Seq::new(s, |i: int| if i < rows.len() { rows[i] } else { CpRow::blank() })
    } else {
        rows
    }
}

/// Makes `column` `s` long by adding copies of `fill`.
fn grow_column<T: Copy>(column: &mut Vec<T>, s: usize, fill: T)
    requires
        old(column)@.len() <= s,
    ensures
        final(column)@.len() == s,
        forall|i: int| 0 <= i < old(column)@.len() ==> final(column)@[i] == old(column)@[i],
        forall|i: int| old(column)@.len() <= i < s ==> final(column)@[i] == fill,
{
    while column.len() < s
        invariant
            old(column)@.len() <= column@.len() <= s,
            forall|i: int| 0 <= i < old(column)@.len() ==> column@[i] == old(column)@[i],
            forall|i: int| old(column)@.len() <= i < column@.len() ==> column@[i] == fill,
        decreases s - column@.len(),
    {
        column.push(fill);
    }
}

/// Makes `column` as long as `source`, new entries being `fill`, and then
/// copies `source` over it entry by entry.
pub(crate) fn copy_column<T: Copy>(column: &mut Vec<T>, source: &Vec<T>, fill: T)
    ensures
        final(column)@ == source@,
{
    let n = source.len();
    column.truncate(n);
    grow_column(column, n, fill);
    let mut i: usize = 0;
    while i < n
        invariant
            i <= n,
            n == source@.len(),
            column@.len() == n,
            forall|k: int| 0 <= k < i ==> column@[k] == source@[k],
        decreases n - i,
    {
        column[i] = source[i];
        i += 1;
    }
    assert(column@ =~= source@);
}

/// Mutable access to entries `i` and `j` of one column at once. The column
/// is split between the two, so the references cannot overlap.
fn split_pair<T>(column: &mut Vec<T>, i: usize, j: usize) -> (r: (&mut T, &mut T))
    requires
        i < j < old(column)@.len(),
    ensures
        *r.0 == old(column)@[i as int],
        *r.1 == old(column)@[j as int],
        final(column)@ == old(column)@.update(i as int, *final(r.0)).update(j as int, *final(r.1)),
{
    let whole = column.as_mut_slice();
    let (low, high) = whole.split_at_mut(i + 1);
    (&mut low[i], &mut high[j - (i + 1)])
}

/// A forward cursor over the rows of a store. It hands out one row at a
/// time; starting over means asking the store for a new iterator.
pub struct CpIterMut<'a> {
    pub mask: u8,
    pub cursor: usize,
    pub pack: &'a mut CpPack,
}

impl<'a> CpIterMut<'a> {
    /// The row `e.index()` places after the cursor, whatever its archetype
    /// mask and whatever the generation of `e`. On a fresh iterator this is
    /// the row that `e` names. The cursor moves past the row; if there is no
    /// such row, the iterator is exhausted.
    pub fn nth(&mut self, e: Entity) -> (r: Option<CpReference<'_>>)
        requires
            old(self).pack.wf(),
            old(self).cursor <= old(self).pack@.len(),
        ensures
            *final(final(self).pack) == *final(old(self).pack),
            final(self).mask == old(self).mask,
            final(self).pack.wf(),
            final(self).cursor <= final(self).pack@.len(),
            r.is_some() <==> old(self).cursor + e.index < old(self).pack@.len(),
            match r {
                None => {
                    &&& final(self).cursor == old(self).pack@.len()
                    &&& final(self).pack@ == old(self).pack@
                },
                Some(v) => {
                    let k = old(self).cursor + e.index;
                    &&& final(self).cursor == k + 1
                    &&& v.entity == (Entity {
                        index: k as u16,
                        generation: old(self).pack@[k].generation,
                    })
                    &&& v.row() == old(self).pack@[k]
                    &&& final(self).pack@ == old(self).pack@.update(
                        k,
                        row_of(
                            v.entity.generation,
                            *final(v.comp),
                            *final(v.objectId),
                            *final(v.body),
                            *final(v.player),
                            *final(v.enemy),
                            *final(v.animator),
                        ),
                    )
                },
            },
    {
        let n = e.index();
        let size = self.pack.size();
        let k = self.cursor + n;
        if k < size {
            self.cursor = k + 1;
            Some(self.pack.at(k))
        } else {
            self.cursor = size;
            None
        }
    }

    /// The rows `a.index()` and `b.index()` places after the cursor, at
    /// once, in the order of the arguments. Two handles with the same index
    /// get nothing: no row is ever handed out twice. Which of the two
    /// indices is the larger does not matter.
    pub fn nth_double(&mut self, a: Entity, b: Entity) -> (r: Option<
        (CpReference<'_>, CpReference<'_>),
    >)
        requires
            old(self).pack.wf(),
            old(self).cursor <= old(self).pack@.len(),
        ensures
            *final(final(self).pack) == *final(old(self).pack),
            final(self).mask == old(self).mask,
            final(self).pack.wf(),
            final(self).cursor <= final(self).pack@.len(),
            r.is_some() <==> a.index != b.index && old(self).cursor + a.index < old(
                self,
            ).pack@.len() && old(self).cursor + b.index < old(self).pack@.len(),
            match r {
                None => {
                    &&& final(self).pack@ == old(self).pack@
                    &&& final(self).cursor == (if a.index == b.index {
                        old(self).cursor
                    } else {
                        old(self).pack.spec_size()
                    })
                },
                Some(v) => {
                    let ka = old(self).cursor + a.index;
                    let kb = old(self).cursor + b.index;
                    &&& final(self).cursor == (if ka < kb {
                        kb + 1
                    } else {
                        ka + 1
                    })
                    &&& v.0.entity == (Entity {
                        index: ka as u16,
                        generation: old(self).pack@[ka].generation,
                    })
                    &&& v.1.entity == (Entity {
                        index: kb as u16,
                        generation: old(self).pack@[kb].generation,
                    })
                    &&& v.0.row() == old(self).pack@[ka]
                    &&& v.1.row() == old(self).pack@[kb]
                    &&& final(self).pack@ == old(self).pack@.update(
                        ka,
                        row_of(
                            v.0.entity.generation,
                            *final(v.0.comp),
                            *final(v.0.objectId),
                            *final(v.0.body),
                            *final(v.0.player),
                            *final(v.0.enemy),
                            *final(v.0.animator),
                        ),
                    ).update(
                        kb,
                        row_of(
                            v.1.entity.generation,
                            *final(v.1.comp),
                            *final(v.1.objectId),
                            *final(v.1.body),
                            *final(v.1.player),
                            *final(v.1.enemy),
                            *final(v.1.animator),
                        ),
                    )
                },
            },
    {
        let ia = a.index();
        let ib = b.index();

        if ia == ib {
            return None;
        }
        let size = self.pack.size();
        let ka = self.cursor + ia;
        let kb = self.cursor + ib;
        if ka >= size || kb >= size {
            self.cursor = size;
            return None;
        }
        self.cursor = if ka < kb {
            kb + 1
        } else {
            ka + 1
        };
        Some(self.pack.pair(ka, kb))
    }

    /// The next row at or after the cursor whose archetype mask has every
    /// bit of the iterator's mask. The cursor moves past it; when no row is
    /// left, the iterator is exhausted.
    pub fn next(&mut self) -> (r: Option<CpReference<'_>>)
        requires
            old(self).pack.wf(),
            old(self).cursor <= old(self).pack@.len(),
        ensures
            *final(final(self).pack) == *final(old(self).pack),
            final(self).mask == old(self).mask,
            final(self).pack.wf(),
            final(self).cursor <= final(self).pack@.len(),
            final(self).pack@.len() == old(self).pack@.len(),
            r.is_some() <==> exists|j: int|
                old(self).cursor <= j < old(self).pack@.len() && #[trigger] old(self).pack@[j].has(
                    old(self).mask,
                ),
            match r {
                None => {
                    &&& final(self).cursor == old(self).pack@.len()
                    &&& final(self).pack@ == old(self).pack@
                },
                Some(v) => {
                    let k = v.entity.index as int;
                    &&& old(self).cursor <= k < old(self).pack@.len()
                    &&& forall|j: int|
                        old(self).cursor <= j < k ==> !#[trigger] old(self).pack@[j].has(
                            old(self).mask,
                        )
                    &&& old(self).pack@[k].has(old(self).mask)
                    &&& final(self).cursor == k + 1
                    &&& v.entity.generation == old(self).pack@[k].generation
                    &&& v.row() == old(self).pack@[k]
                    &&& final(self).pack@ == old(self).pack@.update(
                        k,
                        row_of(
                            v.entity.generation,
                            *final(v.comp),
                            *final(v.objectId),
                            *final(v.body),
                            *final(v.player),
                            *final(v.enemy),
                            *final(v.animator),
                        ),
                    )
                },
            },
    {
        let size = self.pack.size();
        let mut k = self.cursor;
        while k < size && !self.pack.comp[k].test(self.mask)
            invariant
                self.pack.wf(),
                size == self.pack@.len(),
                self.cursor <= k <= size,
                *self == *old(self),
                forall|j: int| self.cursor <= j < k ==> !#[trigger] self.pack@[j].has(self.mask),
            decreases size - k,
        {
            k += 1;
        }
        proof {
            if k < size {
                assert(self.pack@[k as int].has(self.mask));
            }
        }
        if k < size {
            self.cursor = k + 1;
            Some(self.pack.at(k))
        } else {
            self.cursor = size;
            None
        }
    }
}

/// A template for a slot: an archetype mask and a value for each component
/// kind.
#[derive(Clone, Copy, Debug, PartialEq, Eq, Structural)]
pub struct CpPrefab {
    pub comp: Cf,
    pub objectId: ObjType,
    pub body: Body,
    pub player: Player,
    pub enemy: Enemy,
    pub animator: Animator,
}

impl Default for CpPrefab {
    fn default() -> (p: Self)
        ensures
            p == CpPrefab::blank(),
    {
        CpPrefab {
            comp: Cf::default(),
            objectId: ObjType::default(),
            body: Body::default(),
            player: Player::default(),
            enemy: Enemy::default(),
            animator: Animator::default(),
        }
    }
}

impl CpPrefab {
    /// The template with an empty mask and every component zero.
    pub open spec fn blank() -> CpPrefab {
        CpPrefab {
            comp: Cf { value: 0 },
            objectId: ObjType { value: 0 },
            body: Body::spec_default(),
            player: Player { slot: 0, delayFire: 0, damage: 0 },
            enemy: Enemy { direction: 0, counter: 0, delayFire: 0 },
            animator: Animator { frame: 0, count: 0 },
        }
    }

    /// `row` after this template was stamped on it: the components that the
    /// template's mask marks present are the template's, the others stay.
    pub open spec fn stamp(self, row: CpRow) -> CpRow {
        CpRow {
            generation: row.generation,
            comp: if self.comp.spec_test(Cf::Component) {
                self.comp
            } else {
                row.comp
            },
            objectId: if self.comp.spec_test(Cf::ObjectId) {
                self.objectId
            } else {
                row.objectId
            },
            body: if self.comp.spec_test(Cf::Body) {
                self.body
            } else {
                row.body
            },
            player: if self.comp.spec_test(Cf::Player) {
                self.player
            } else {
                row.player
            },
            enemy: if self.comp.spec_test(Cf::Enemy) {
                self.enemy
            } else {
                row.enemy
            },
            animator: if self.comp.spec_test(Cf::Animator) {
                self.animator
            } else {
                row.animator
            },
        }
    }

    /// This template after it read `row`: the components that the row's mask
    /// marks present are the row's, the others stay.
    pub open spec fn capture(self, row: CpRow) -> CpPrefab {
        CpPrefab {
            comp: if row.comp.spec_test(Cf::Component) {
                row.comp
            } else {
                self.comp
            },
            objectId: if row.comp.spec_test(Cf::ObjectId) {
                row.objectId
            } else {
                self.objectId
            },
            body: if row.comp.spec_test(Cf::Body) {
                row.body
            } else {
                self.body
            },
            player: if row.comp.spec_test(Cf::Player) {
                row.player
            } else {
                self.player
            },
            enemy: if row.comp.spec_test(Cf::Enemy) {
                row.enemy
            } else {
                self.enemy
            },
            animator: if row.comp.spec_test(Cf::Animator) {
                row.animator
            } else {
                self.animator
            },
        }
    }

    /// Reads the slot of `entity` into this template, component by
    /// component, as far as the slot's mask marks them present.
    pub fn get(&mut self, cp: &Cp, entity: Entity)
        requires
            cp.wf(),
            entity.index < cp@.rows.len(),
        ensures
            *final(self) == old(self).capture(cp@.rows[entity.index as int]),
    {
        let i = entity.index();
        if cp.pack.comp[i].test(Cf::Component) {
            self.comp = cp.pack.comp[i];
        }
        if cp.pack.comp[i].test(Cf::ObjectId) {
            self.objectId = cp.pack.objectId[i];
        }
        if cp.pack.comp[i].test(Cf::Body) {
            self.body = cp.pack.body[i];
        }
        if cp.pack.comp[i].test(Cf::Player) {
            self.player = cp.pack.player[i];
        }
        if cp.pack.comp[i].test(Cf::Enemy) {
            self.enemy = cp.pack.enemy[i];
        }
        if cp.pack.comp[i].test(Cf::Animator) {
            self.animator = cp.pack.animator[i];
        }
    }

    /// Stamps this template on the slot of `entity`, if the handle is valid;
    /// otherwise nothing happens.
    pub fn set(&self, cp: &mut Cp, entity: Entity)
        requires
            old(cp).wf(),
            old(cp)@.in_range(entity),
        ensures
            final(cp).wf(),
            final(cp)@ == old(cp)@.after_stamp(*self, entity),
    {
        if cp.valid(entity) {
            let i = entity.index();
            if self.comp.test(Cf::Component) {
                cp.pack.comp[i] = self.comp;
            }
            if self.comp.test(Cf::ObjectId) {
                cp.pack.objectId[i] = self.objectId;
            }
            if self.comp.test(Cf::Body) {
                cp.pack.body[i] = self.body;
            }
            if self.comp.test(Cf::Player) {
                cp.pack.player[i] = self.player;
            }
            if self.comp.test(Cf::Enemy) {
                cp.pack.enemy[i] = self.enemy;
            }
            if self.comp.test(Cf::Animator) {
                cp.pack.animator[i] = self.animator;
            }
        }
        assert(cp@.rows =~= old(cp)@.after_stamp(*self, entity).rows);
    }
}

/// A store as plain values: the allocator's table and the rows.
#[verifier::ext_equal]
pub struct CpView {
    pub table: TableView,
    pub rows: Seq<CpRow>,
}

impl CpView {
    /// The table is well formed and has a link for every row.
    pub open spec fn wf(self) -> bool {
        &&& self.table.wf()
        &&& self.rows.len() <= self.table.list.len()
    }

    /// Whether `e` is null or names a row that exists.
    pub open spec fn in_range(self, e: Entity) -> bool {
        e.index == 0 || e.index < self.rows.len()
    }

    /// Whether `e` is not null and carries the generation that the store
    /// keeps for its slot.
    pub open spec fn valid(self, e: Entity) -> bool {
        &&& e.index != 0
        &&& e.index < self.rows.len()
        &&& e.generation == self.rows[e.index as int].generation
    }

    /// Whether `e` is valid and its slot is handed out.
    pub open spec fn live(self, e: Entity) -> bool {
        self.valid(e) && self.table.is_live(e.index)
    }

    /// The free list is a proper list and every slot that was ever handed
    /// out has a row.
    pub open spec fn sound(self) -> bool {
        &&& self.wf()
        &&& self.table.sound()
        &&& (self.table.list.len() == 1 || self.rows.len() == self.table.list.len())
    }

    /// The store with nothing in it.
    pub open spec fn empty() -> CpView {
        CpView { table: TableView::empty(), rows: Seq::empty() }
    }

    /// The handle that the next `create` returns.
    pub open spec fn created(self) -> Entity {
        let v = self.table.next_index();
        Entity { index: v, generation: grown(self.rows, (v + 1) as nat)[v as int].generation }
    }

    /// The store after one `create`: the slot is taken from the allocator,
    /// the rows reach up to it, and its archetype mask is empty. Its
    /// generation is the one it had.
    pub open spec fn after_create(self) -> CpView {
        let v = self.table.next_index();
        let rows = grown(self.rows, (v + 1) as nat);
        CpView {
            table: self.table.after_allocate(),
            rows: rows.update(v as int, CpRow { comp: Cf { value: 0 }, ..rows[v as int] }),
        }
    }

    /// The store after `destroy(e)`: nothing changes unless `e` is valid;
    /// then the slot's generation moves on by one, around the end of 16
    /// bits, its archetype mask is emptied and its index given back.
    pub open spec fn after_destroy(self, e: Entity) -> CpView {
        if self.valid(e) {
            let row = self.rows[e.index as int];
            CpView {
                table: self.table.after_free(e.index),
                rows: self.rows.update(
                    e.index as int,
                    CpRow {
                        generation: u16_specs::wrapping_add(row.generation, 1),
                        comp: Cf { value: 0 },
                        ..row
                    },
                ),
            }
        } else {
            self
        }
    }

    /// The store after `prefab` was stamped on the slot of `e`: nothing
    /// changes unless `e` is valid.
    pub open spec fn after_stamp(self, prefab: CpPrefab, e: Entity) -> CpView {
        if self.valid(e) {
            CpView {
                table: self.table,
                rows: self.rows.update(e.index as int, prefab.stamp(self.rows[e.index as int])),
            }
        } else {
            self
        }
    }
}

/// The component store: an allocator of slot indices and the rows.
pub struct Cp {
    pub manager: IndexTable,
    pub pack: CpPack,
}

impl View for Cp {
    type V = CpView;

    open spec fn view(&self) -> CpView {
        CpView { table: self.manager@, rows: self.pack@ }
    }
}

impl Cp {
    /// The columns agree in length and the allocator has a link for every
    /// row.
    pub open spec fn wf(&self) -> bool {
        &&& self.pack.wf()
        &&& self@.wf()
    }

    /// Whether `create` can hand out another slot.
    pub open spec fn spec_has_room(&self) -> bool {
        self@.table.has_room()
    }

    /// An empty store.
    pub fn new() -> (cp: Self)
        ensures
            cp.wf(),
            cp@ == CpView::empty(),
            cp@.sound(),
    {
        let mut cp = Cp { manager: IndexTable::new(), pack: CpPack::new() };
        cp.clear();
        cp
    }

    /// Makes this store a copy of `other`: the allocator's table and every
    /// row, in use or not.
    pub fn smartCopy(&mut self, other: &Self)
        requires
            other.wf(),
        ensures
            final(self).wf(),
            final(self)@ == other@,
    {
        copy_column(&mut self.manager.list, &other.manager.list, 0u16);
        self.manager.head = other.manager.head;
        self.pack.smartCopy(&other.pack);
    }

    /// Whether `entity` is not null and carries the generation that the
    /// store keeps for its slot.
    pub fn valid(&self, entity: Entity) -> (b: bool)
        requires
            self.wf(),
            self@.in_range(entity),
        ensures
            b == self@.valid(entity),
    {
        !entity.is_null() && entity.generation() == self.pack.generation[entity.index()]
    }

    /// Whether `entity` is null or names a row that exists.
    pub fn in_range(&self, entity: Entity) -> (b: bool)
        ensures
            b == self@.in_range(entity),
    {
        entity.is_null() || entity.index() < self.pack.size()
    }

    /// Whether `create` can hand out another slot.
    #[verifier::when_used_as_spec(spec_has_room)]
    pub fn has_room(&self) -> (b: bool)
        ensures
            b == self@.table.has_room(),
    {
        self.manager.has_room()
    }

    /// Destroys the entity that `entity` names. A handle that is not valid
    /// is ignored. A slot is given back to the allocator once only, however
    /// often it is destroyed.
    pub fn destroy(&mut self, entity: Entity)
        requires
            old(self).wf(),
            old(self)@.in_range(entity),
        ensures
            final(self).wf(),
            final(self)@ == old(self)@.after_destroy(entity),
            !final(self)@.valid(entity),
            old(self)@.sound() ==> final(self)@.sound(),
            old(self)@.sound() && old(self)@.valid(entity) ==> !final(self)@.table.is_live(
                entity.index,
            ),
    {
        if self.valid(entity) {
            let i = entity.index();
            self.pack.generation[i] = self.pack.generation[i].wrapping_add(1);
            self.pack.comp[i].value = Cf::Empty;

            self.manager.free(entity.id());
        }
        proof {
            assert(self@.rows =~= old(self)@.after_destroy(entity).rows);
            if old(self)@.sound() {
                lemma_destroy_sound(old(self)@, entity);
            }
        }
    }

    /// Creates an entity: takes a slot from the allocator, makes sure the
    /// rows reach up to it, and empties its archetype mask. The handle
    /// carries the generation that the slot has, which is not reset.
    pub fn create(&mut self) -> (entity: Entity)
        requires
            old(self).wf(),
            old(self).spec_has_room(),
        ensures
            final(self).wf(),
            entity == old(self)@.created(),
            final(self)@ == old(self)@.after_create(),
            final(self)@.valid(entity),
            old(self)@.sound() ==> final(self)@.sound() && !old(self)@.table.is_live(entity.index)
                && final(self)@.live(entity),
    {
        let mut entity = Entity::new();
        let value = self.manager.allocate();
        if value != IndexTable::END_OF_LIST {
            let deref: usize = value as usize;
            self.pack.resize(deref + 1);
            assert(self.pack@.len() == grown(old(self).pack@, (deref + 1) as nat).len());
            assert(self.pack@.len() > deref);
            self.pack.comp[deref].value = Cf::Empty;
            entity = Entity::from(value, self.pack.generation[deref]);
        }
        proof {
            assert(self@.rows =~= old(self)@.after_create().rows);
            if old(self)@.sound() {
                lemma_create_sound(old(self)@);
            }
        }
        entity
    }

    /// Empties the store.
    pub fn clear(&mut self)
        ensures
            final(self).wf(),
            final(self)@ == CpView::empty(),
            final(self)@.sound(),
    {
        self.manager.reset();
        self.pack.clear();
        proof {
            crate::index_table::lemma_empty_sound();
        }
    }

    /// Locates the row of `e` by its index, whatever its generation and its
    /// archetype mask. An index beyond the rows gets nothing.
    pub fn locate(&mut self, e: Entity) -> (r: Option<CpReference<'_>>)
        requires
            old(self).wf(),
        ensures
            final(self).wf(),
            final(self).manager == old(self).manager,
            r.is_some() <==> e.index < old(self)@.rows.len(),
            match r {
                None => final(self)@ == old(self)@,
                Some(v) => {
                    &&& v.entity == (Entity {
                        index: e.index,
                        generation: old(self)@.rows[e.index as int].generation,
                    })
                    &&& v.row() == old(self)@.rows[e.index as int]
                    &&& final(self)@.rows == old(self)@.rows.update(
                        e.index as int,
                        row_of(
                            v.entity.generation,
                            *final(v.comp),
                            *final(v.objectId),
                            *final(v.body),
                            *final(v.player),
                            *final(v.enemy),
                            *final(v.animator),
                        ),
                    )
                },
            },
    {
        let i = e.index();
        if i < self.pack.size() {
            Some(self.pack.at(i))
        } else {
            None
        }
    }

    /// Locates the rows of `a` and `b` at once, as two views that can be
    /// written independently. Two handles with the same index get nothing,
    /// and so does an index beyond the rows.
    pub fn locate_pair(&mut self, a: Entity, b: Entity) -> (r: Option<
        (CpReference<'_>, CpReference<'_>),
    >)
        requires
            old(self).wf(),
        ensures
            final(self).wf(),
            final(self).manager == old(self).manager,
            r.is_some() <==> a.index != b.index && a.index < old(self)@.rows.len() && b.index
                < old(self)@.rows.len(),
            match r {
                None => final(self)@ == old(self)@,
                Some(v) => {
                    &&& v.0.entity == (Entity {
                        index: a.index,
                        generation: old(self)@.rows[a.index as int].generation,
                    })
                    &&& v.1.entity == (Entity {
                        index: b.index,
                        generation: old(self)@.rows[b.index as int].generation,
                    })
                    &&& v.0.row() == old(self)@.rows[a.index as int]
                    &&& v.1.row() == old(self)@.rows[b.index as int]
                    &&& final(self)@.rows == old(self)@.rows.update(
                        a.index as int,
                        row_of(
                            v.0.entity.generation,
                            *final(v.0.comp),
                            *final(v.0.objectId),
                            *final(v.0.body),
                            *final(v.0.player),
                            *final(v.0.enemy),
                            *final(v.0.animator),
                        ),
                    ).update(
                        b.index as int,
                        row_of(
                            v.1.entity.generation,
                            *final(v.1.comp),
                            *final(v.1.objectId),
                            *final(v.1.body),
                            *final(v.1.player),
                            *final(v.1.enemy),
                            *final(v.1.animator),
                        ),
                    )
                },
            },
    {
        let ia = a.index();
        let ib = b.index();
        if ia != ib && ia < self.pack.size() && ib < self.pack.size() {
            Some(self.pack.pair(ia, ib))
        } else {
            None
        }
    }

    /// An iterator over every row, from the first.
    pub fn iter(&mut self) -> (it: CpIterMut<'_>)
        requires
            old(self).wf(),
        ensures
            it.mask == 0,
            it.cursor == 0,
            *it.pack == old(self).pack,
            *final(it.pack) == final(self).pack,
            final(self).manager == old(self).manager,
    {
        self.pack.iter()
    }

    /// An iterator over the rows whose archetype mask has every bit of
    /// `mask`, from the first.
    pub fn filter(&mut self, mask: u8) -> (it: CpIterMut<'_>)
        requires
            old(self).wf(),
        ensures
            it.mask == mask,
            it.cursor == 0,
            *it.pack == old(self).pack,
            *final(it.pack) == final(self).pack,
            final(self).manager == old(self).manager,
    {
        self.pack.filter(mask)
    }
}

/// Creating keeps the store sound. The slot handed out was not in use
/// before and is in use after; no other slot changes hands.
pub proof fn lemma_create_sound(c: CpView)
    requires
        c.sound(),
        c.table.has_room(),
    ensures
        c.after_create().sound(),
        !c.table.is_live(c.created().index),
        c.after_create().live(c.created()),
        forall|j: u16|
            j != c.created().index ==> c.after_create().table.is_live(j) == c.table.is_live(j),
        forall|j: int|
            0 <= j < c.rows.len() ==> (#[trigger] c.after_create().rows[j]).generation
                == c.rows[j].generation,
{
    crate::index_table::lemma_allocate_sound(c.table);
    crate::index_table::lemma_allocate_wf(c.table);
}

/// Destroying keeps the store sound, whatever the handle. The slot of a
/// valid handle is out of use afterwards; if it was out of use already, as
/// it is for a handle made up for a free slot, the allocator's table stays
/// as it is. No other slot changes hands.
pub proof fn lemma_destroy_sound(c: CpView, e: Entity)
    requires
        c.sound(),
    ensures
        c.after_destroy(e).sound(),
        c.valid(e) ==> !c.after_destroy(e).table.is_live(e.index),
        c.valid(e) && !c.table.is_live(e.index) ==> c.after_destroy(e).table == c.table,
        forall|j: u16| j != e.index ==> c.after_destroy(e).table.is_live(j) == c.table.is_live(j),
{
    if c.valid(e) {
        crate::index_table::lemma_free_sound(c.table, e.index);
    }
}

} // verus!
