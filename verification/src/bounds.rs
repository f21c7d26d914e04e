//! Axis-aligned boxes for the collision pass, and their ordering.

use vstd::prelude::*;
use crate::entity::Entity;
use crate::vector::Vector2;

verus! {

/// The box of one body for one tick: its kind, its entity, and its two
/// corners.
#[derive(Clone, Copy, Debug, PartialEq, Eq, Structural)]
pub struct Bounds {
    pub btype: u8,
    pub entity: Entity,
    pub lower: Vector2,
    pub upper: Vector2,
}

impl Bounds {
    /// The box of a body at `p` with half-extent `s`.
    pub open spec fn spec_from(entity: Entity, btype: u8, p: Vector2, s: Vector2) -> Bounds {
        Bounds { btype, entity, lower: p.spec_sub(s), upper: p.spec_add(s) }
    }

    /// Whether this box starts left of `other`.
    pub open spec fn spec_less_than(&self, other: &Self) -> bool {
        self.lower.x < other.lower.x
    }

    /// Whether the two boxes share a point: they are apart exactly if one
    /// starts beyond the end of the other on the x or on the y axis.
    pub open spec fn spec_overlap(&self, b: &Self) -> bool {
        !(b.lower.x > self.upper.x || b.upper.x < self.lower.x || b.lower.y > self.upper.y
            || b.upper.y < self.lower.y)
    }

    /// The box of a body at `p` with half-extent `s`. The velocity `d` is
    /// not part of the box.
    pub fn from(entity: Entity, btype: u8, p: Vector2, d: Vector2, s: Vector2) -> (b: Self)
        ensures
            b == Bounds::spec_from(entity, btype, p, s),
    {
        Self { btype, entity, lower: p.sub(s), upper: p.add(s) }
    }

    /// Whether this box starts left of `other`.
    #[verifier::when_used_as_spec(spec_less_than)]
    pub fn less_than(&self, other: &Self) -> (b: bool)
        ensures
            b == self.spec_less_than(other),
    {
        self.lower.x < other.lower.x
    }

    /// Whether the two boxes share a point.
    #[verifier::when_used_as_spec(spec_overlap)]
    pub fn overlap(&self, b: &Self) -> (hit: bool)
        ensures
            hit == self.spec_overlap(b),
    {
        if b.lower.x > self.upper.x || b.upper.x < self.lower.x || b.lower.y > self.upper.y
            || b.upper.y < self.lower.y {
            return false;
        }
        true
    }
}

impl Default for Bounds {
    fn default() -> (b: Self)
        ensures
            b == (Bounds {
                btype: 0,
                entity: Entity { index: 0, generation: 0 },
                lower: Vector2 { x: 0, y: 0 },
                upper: Vector2 { x: 0, y: 0 },
            }),
    {
        Self { btype: 0, entity: Entity::new(), lower: Vector2::new(), upper: Vector2::new() }
    }
}

/// `s` with `b` put in behind the last box that does not start right of it.
pub open spec fn insert_sorted(s: Seq<Bounds>, b: Bounds) -> Seq<Bounds>
    decreases s.len(),
{
    if s.len() == 0 {
        seq![b]
    } else if s.last().lower.x <= b.lower.x {
        s.push(b)
    } else {
        insert_sorted(s.drop_last(), b).push(s.last())
    }
}

/// The boxes of `s` in ascending order of their lower x bound; boxes with
/// the same bound keep the order they have in `s`.
pub open spec fn sorted_by_x(s: Seq<Bounds>) -> Seq<Bounds>
    decreases s.len(),
{
    if s.len() == 0 {
        s
    } else {
        insert_sorted(sorted_by_x(s.drop_last()), s.last())
    }
}

/// Whether the lower x bounds of `s` never go down.
pub open spec fn ascending(s: Seq<Bounds>) -> bool {
    forall|i: int, j: int| 0 <= i <= j < s.len() ==> s[i].lower.x <= s[j].lower.x
}

/// Where `b` goes in: behind position `j`, if everything from `j` on starts
/// right of `b` and the box before `j` does not.
pub proof fn lemma_insert_at(s: Seq<Bounds>, b: Bounds, j: int)
    requires
        0 <= j <= s.len(),
        j > 0 ==> s[j - 1].lower.x <= b.lower.x,
        forall|k: int| j <= k < s.len() ==> s[k].lower.x > b.lower.x,
    ensures
        insert_sorted(s, b) == s.take(j).push(b) + s.skip(j),
    decreases s.len() - j,
{
    if s.len() == 0 {
        assert(insert_sorted(s, b) =~= s.take(j).push(b) + s.skip(j));
    } else if j == s.len() {
        assert(s.last().lower.x <= b.lower.x);
        assert(s.push(b) =~= s.take(j).push(b) + s.skip(j));
    } else {
        assert(s.last().lower.x > b.lower.x);
        let t = s.drop_last();
        assert forall|k: int| j <= k < t.len() implies t[k].lower.x > b.lower.x by {
            assert(t[k] == s[k]);
        }
        if j > 0 {
            assert(t[j - 1] == s[j - 1]);
        }
        lemma_insert_at(t, b, j);
        assert(insert_sorted(t, b).push(s.last()) =~= s.take(j).push(b) + s.skip(j));
    }
}

/// Putting a box into an ascending sequence keeps it ascending and adds
/// exactly that box.
pub proof fn lemma_insert_sorted(s: Seq<Bounds>, b: Bounds)
    requires
        ascending(s),
    ensures
        ascending(insert_sorted(s, b)),
        insert_sorted(s, b).len() == s.len() + 1,
        insert_sorted(s, b).to_multiset() == s.to_multiset().insert(b),
    decreases s.len(),
{
    broadcast use vstd::seq_lib::group_to_multiset_ensures;

    if s.len() == 0 {
        assert(s =~= Seq::<Bounds>::empty());
        assert(insert_sorted(s, b) =~= Seq::<Bounds>::empty().push(b));
    } else if s.last().lower.x <= b.lower.x {
    } else {
        let t = s.drop_last();
        assert forall|i: int, j: int| 0 <= i <= j < t.len() implies t[i].lower.x
            <= t[j].lower.x by {
            assert(t[i] == s[i] && t[j] == s[j]);
        }
        lemma_insert_sorted(t, b);
        let u = insert_sorted(t, b);
        let r = u.push(s.last());
        assert(s =~= t.push(s.last()));
        assert(r.to_multiset() =~= s.to_multiset().insert(b));
        assert forall|i: int, j: int| 0 <= i <= j < r.len() implies r[i].lower.x
            <= r[j].lower.x by {
            if j == u.len() && i < u.len() {
                // every member of u is b or a member of t
                assert(u.to_multiset().count(u[i]) > 0);
                if u[i] != b {
                    assert(t.to_multiset().count(u[i]) > 0);
                    let k = choose|k: int| 0 <= k < t.len() && t[k] == u[i];
                    assert(s[k] == t[k]);
                    assert(s[k].lower.x <= s[s.len() - 1].lower.x);
                }
            }
        }
    }
}

/// Sorting gives an ascending rearrangement of the boxes.
pub proof fn lemma_sorted_by_x(s: Seq<Bounds>)
    ensures
        ascending(sorted_by_x(s)),
        sorted_by_x(s).len() == s.len(),
        sorted_by_x(s).to_multiset() == s.to_multiset(),
    decreases s.len(),
{
    broadcast use vstd::seq_lib::group_to_multiset_ensures;

    if s.len() == 0 {
    } else {
        let t = s.drop_last();
        lemma_sorted_by_x(t);
        lemma_insert_sorted(sorted_by_x(t), s.last());
        assert(s =~= t.push(s.last()));
    }
}

/// Sorts the boxes in place by their lower x bound, ascending. Boxes with
/// the same bound keep their order.
pub fn sort_by_lower_x(list: &mut Vec<Bounds>)
    ensures
        final(list)@ == sorted_by_x(old(list)@),
{
    let n = list.len();
    let mut i: usize = 0;
    assert(list@.take(0) =~= sorted_by_x(old(list)@.take(0)));
    while i < n
        invariant
            i <= n,
            list@.len() == n,
            old(list)@.len() == n,
            list@.take(i as int) == sorted_by_x(old(list)@.take(i as int)),
            forall|k: int| i <= k < n ==> list@[k] == old(list)@[k],
        decreases n - i,
    {
        let b = list[i];
        let ghost before = list@;
        let ghost prefix = list@.take(i as int);
        let mut j: usize = i;
        while j > 0 && list[j - 1].lower.x > b.lower.x
            invariant
                j <= i < n,
                list@.len() == n,
                prefix.len() == i,
                forall|k: int| 0 <= k < j ==> list@[k] == prefix[k],
                forall|k: int| j < k <= i ==> list@[k] == prefix[k - 1],
                forall|k: int| j <= k < i ==> prefix[k].lower.x > b.lower.x,
                forall|k: int| i < k < n ==> list@[k] == before[k],
            decreases j,
        {
            let moved = list[j - 1];
            list[j] = moved;
            j -= 1;
        }
        list[j] = b;
        proof {
            lemma_insert_at(prefix, b, j as int);
            let target = prefix.take(j as int).push(b) + prefix.skip(j as int);
            assert(list@.take(i + 1) =~= target);
            assert(old(list)@.take(i + 1).drop_last() =~= old(list)@.take(i as int));
            assert(old(list)@.take(i + 1).last() == b);
        }
        i += 1;
    }
    assert(list@.take(n as int) =~= list@);
    assert(old(list)@.take(n as int) =~= old(list)@);
}

} // verus!
