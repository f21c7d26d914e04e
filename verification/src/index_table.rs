//! A free-list allocator of small slot indices.
//!
//! The free list is threaded through a growable array: the entry of a free
//! index holds the index that follows it on the list, and 0 ends the list.
//! The entry of an index that is handed out holds that index itself, so a
//! free index can always be told from one in use, the last of the list
//! included. Index 0 is never handed out and never freed. Indices are 16
//! bits wide, so a table holds at most 65535 slots besides the reserved
//! one; asking for more is outside what `allocate` accepts.

use vstd::prelude::*;

verus! {

/// A table as plain values: the head of the free list and the links.
#[verifier::ext_equal]
pub struct TableView {
    pub head: u16,
    pub list: Seq<u16>,
}

/// The indices reached from `at` by following links, for at most `fuel`
/// steps.
pub open spec fn chain(list: Seq<u16>, at: u16, fuel: nat) -> Seq<u16>
    decreases fuel,
{
    if at == 0 || fuel == 0 || at >= list.len() {
        Seq::empty()
    } else {
        seq![at] + chain(list, list[at as int], (fuel - 1) as nat)
    }
}

impl TableView {
    /// Every link and the head point inside the table, and the table is no
    /// longer than 16-bit indices can address.
    pub open spec fn wf(self) -> bool {
        &&& 1 <= self.list.len() <= 0x10000
        &&& self.head < self.list.len()
        &&& forall|i: int| 0 <= i < self.list.len() ==> #[trigger] self.list[i] < self.list.len()
    }

    /// The free indices, in the order in which they will be handed out.
    pub open spec fn free_seq(self) -> Seq<u16> {
        chain(self.list, self.head, self.list.len())
    }

    /// The free list is a proper list: it ends, no index is on it twice, and
    /// every slot that is not on it holds its own index.
    pub open spec fn sound(self) -> bool {
        &&& self.wf()
        &&& self.free_seq().no_duplicates()
        &&& self.free_seq().len() < self.list.len()
        &&& forall|i: int|
            0 <= i < self.list.len() && !self.free_seq().contains(i as u16) ==> #[trigger] self.list[i]
                == i
    }

    /// Whether `i` is handed out and not yet given back.
    pub open spec fn is_live(self, i: u16) -> bool {
        0 < i < self.list.len() && !self.free_seq().contains(i)
    }

    /// Whether another index can be handed out.
    pub open spec fn has_room(self) -> bool {
        self.head != 0 || self.list.len() <= u16::MAX
    }

    /// The index that the next allocation hands out.
    pub open spec fn next_index(self) -> u16 {
        if self.head == 0 {
            self.list.len() as u16
        } else {
            self.head
        }
    }

    /// The table after one allocation.
    pub open spec fn after_allocate(self) -> TableView {
        if self.head == 0 {
            TableView { head: 0, list: self.list.push(self.list.len() as u16) }
        } else {
            TableView {
                head: self.list[self.head as int],
                list: self.list.update(self.head as int, self.head),
            }
        }
    }

    /// The table after `value` is given back: the index goes to the front of
    /// the free list if it is in use, which its entry shows by holding the
    /// index itself. The reserved index 0 and an index that is free already
    /// leave the table as it is.
    pub open spec fn after_free(self, value: u16) -> TableView {
        if value != 0 && self.list[value as int] == value {
            TableView { head: value, list: self.list.update(value as int, self.head) }
        } else {
            self
        }
    }

    /// The table with nothing handed out.
    pub open spec fn empty() -> TableView {
        TableView { head: 0, list: seq![0u16] }
    }
}

/// The allocator.
pub struct IndexTable {
    pub head: u16,
    pub list: Vec<u16>,
}

impl View for IndexTable {
    type V = TableView;

    open spec fn view(&self) -> TableView {
        TableView { head: self.head, list: self.list@ }
    }
}

impl IndexTable {
    pub const END_OF_LIST: u16 = 0;

    /// A table with nothing handed out.
    pub fn new() -> (t: Self)
        ensures
            t@ == TableView::empty(),
            t@.sound(),
    {
        let mut list: Vec<u16> = Vec::new();
        list.push(IndexTable::END_OF_LIST);
        let t = Self { head: IndexTable::END_OF_LIST, list };
        proof {
            assert(t@.list =~= seq![0u16]);
            lemma_empty_sound();
        }
        t
    }

    /// Forgets every index handed out so far.
    pub fn reset(&mut self)
        ensures
            final(self)@ == TableView::empty(),
            final(self)@.sound(),
    {
        self.head = IndexTable::END_OF_LIST;
        self.list.clear();
        self.list.push(IndexTable::END_OF_LIST);
        proof {
            assert(self@.list =~= seq![0u16]);
            lemma_empty_sound();
        }
    }

    /// Whether another index can be handed out.
    pub fn has_room(&self) -> (b: bool)
        ensures
            b == self@.has_room(),
    {
        self.head != IndexTable::END_OF_LIST || self.list.len() <= 0xffff
    }

    /// Hands out an index: the head of the free list if there is one, else a
    /// new slot at the end of the table. The result is never 0.
    pub fn allocate(&mut self) -> (value: u16)
        requires
            old(self)@.wf(),
            old(self)@.has_room(),
        ensures
            value == old(self)@.next_index(),
            value != 0,
            final(self)@ == old(self)@.after_allocate(),
            final(self)@.wf(),
            old(self)@.sound() ==> final(self)@.sound(),
    {
        let mut value = self.head;
        if value == IndexTable::END_OF_LIST {
            value = self.list.len() as u16;
            self.list.push(value);
        } else {
            let index: usize = value as usize;
            self.head = self.list[index];
            self.list[index] = value;
        }
        proof {
            assert(self@.list =~= old(self)@.after_allocate().list);
            lemma_allocate_wf(old(self)@);
            if old(self)@.sound() {
                lemma_allocate_sound(old(self)@);
            }
        }
        value
    }

    /// Gives `value` back: an index in use goes to the front of the free
    /// list. Giving back the reserved index 0, or an index that is free
    /// already, changes nothing, wherever on the free list that index is.
    pub fn free(&mut self, value: u16)
        requires
            old(self)@.wf(),
            value < old(self).list.len(),
        ensures
            final(self)@ == old(self)@.after_free(value),
            final(self)@.wf(),
            old(self)@.sound() ==> final(self)@.sound(),
            old(self)@.sound() && (value == 0 || old(self)@.free_seq().contains(value))
                ==> final(self)@ == old(self)@,
            old(self)@.sound() && old(self)@.is_live(value) ==> final(self)@.free_seq() == seq![
                value,
            ] + old(self)@.free_seq(),
    {
        let index: usize = value as usize;
        if value != IndexTable::END_OF_LIST && self.list[index] == value {
            self.list[index] = self.head;
            self.head = value;
        }
        proof {
            assert(self@.list =~= old(self)@.after_free(value).list);
            if old(self)@.sound() {
                lemma_free_sound(old(self)@, value);
            }
        }
    }
}

/// The empty table is sound.
pub proof fn lemma_empty_sound()
    ensures
        TableView::empty().sound(),
        TableView::empty().free_seq() == Seq::<u16>::empty(),
{
    let t = TableView::empty();
    assert(t.free_seq() =~= Seq::<u16>::empty());
}

/// Allocation keeps every link inside the table.
pub proof fn lemma_allocate_wf(t: TableView)
    requires
        t.wf(),
        t.has_room(),
    ensures
        t.after_allocate().wf(),
{
    let u = t.after_allocate();
    assert forall|i: int| 0 <= i < u.list.len() implies #[trigger] u.list[i] < u.list.len() by {
        if t.head == 0 {
            if i < t.list.len() {
                assert(t.list[i] < t.list.len());
            }
        } else {
            if i != t.head {
                assert(t.list[i] < t.list.len());
            }
        }
    }
    if t.head != 0 {
        assert(t.list[t.head as int] < t.list.len());
    }
}

/// Every index on a chain is a nonzero index of the table.
pub proof fn lemma_chain_range(list: Seq<u16>, at: u16, fuel: nat)
    ensures
        chain(list, at, fuel).len() <= fuel,
        forall|k: int|
            0 <= k < chain(list, at, fuel).len() ==> 0 < #[trigger] chain(list, at, fuel)[k]
                < list.len(),
    decreases fuel,
{
    if at == 0 || fuel == 0 || at >= list.len() {
    } else {
        lemma_chain_range(list, list[at as int], (fuel - 1) as nat);
        let rest = chain(list, list[at as int], (fuel - 1) as nat);
        assert forall|k: int| 0 <= k < chain(list, at, fuel).len() implies 0 < #[trigger] chain(
            list,
            at,
            fuel,
        )[k] < list.len() by {
            if k > 0 {
                assert(chain(list, at, fuel)[k] == rest[k - 1]);
            }
        }
    }
}

/// A chain that ended before its fuel ran out is the same with more fuel.
pub proof fn lemma_chain_fuel(list: Seq<u16>, at: u16, fuel: nat, more: nat)
    requires
        chain(list, at, fuel).len() < fuel,
        fuel <= more,
    ensures
        chain(list, at, more) == chain(list, at, fuel),
    decreases fuel,
{
    if at == 0 || fuel == 0 || at >= list.len() {
    } else {
        lemma_chain_fuel(list, list[at as int], (fuel - 1) as nat, (more - 1) as nat);
    }
}

/// A chain only depends on the links of the indices that are on it.
pub proof fn lemma_chain_frame(a: Seq<u16>, b: Seq<u16>, at: u16, fuel: nat)
    requires
        a.len() == b.len(),
        forall|i: int|
            0 <= i < a.len() && chain(a, at, fuel).contains(i as u16) ==> #[trigger] a[i] == b[i],
    ensures
        chain(b, at, fuel) == chain(a, at, fuel),
    decreases fuel,
{
    if at == 0 || fuel == 0 || at >= a.len() {
    } else {
        let rest = chain(a, a[at as int], (fuel - 1) as nat);
        let whole = chain(a, at, fuel);
        assert(whole[0] == at);
        assert(whole.contains(at));
        assert(a[at as int] == b[at as int]);
        assert forall|i: int| 0 <= i < a.len() && rest.contains(i as u16) implies #[trigger] a[i]
            == b[i] by {
            let k = choose|k: int| 0 <= k < rest.len() && rest[k] == i as u16;
            assert(whole[k + 1] == i as u16);
            assert(whole.contains(i as u16));
        }
        lemma_chain_frame(a, b, a[at as int], (fuel - 1) as nat);
    }
}

/// A sequence of distinct indices below `n` has at most `n` members.
pub proof fn lemma_distinct_len(s: Seq<u16>, n: nat)
    requires
        s.no_duplicates(),
        forall|k: int| 0 <= k < s.len() ==> #[trigger] s[k] < n,
    ensures
        s.len() <= n,
    decreases n,
{
    if n == 0 {
        if s.len() > 0 {
            assert(s[0] < n);
        }
    } else if exists|j: int| 0 <= j < s.len() && s[j] == n - 1 {
        let j = choose|j: int| 0 <= j < s.len() && s[j] == n - 1;
        let r = s.remove(j);
        assert forall|a: int, b: int| 0 <= a < r.len() && 0 <= b < r.len() && a != b implies r[a]
            != r[b] by {
            let a0 = if a < j { a } else { a + 1 };
            let b0 = if b < j { b } else { b + 1 };
            assert(r[a] == s[a0] && r[b] == s[b0]);
        }
        assert forall|k: int| 0 <= k < r.len() implies #[trigger] r[k] < (n - 1) as nat by {
            let k0 = if k < j { k } else { k + 1 };
            assert(r[k] == s[k0]);
            assert(s[k0] < n);
            assert(s[k0] != s[j]);
        }
        lemma_distinct_len(r, (n - 1) as nat);
    } else {
        assert forall|k: int| 0 <= k < s.len() implies #[trigger] s[k] < (n - 1) as nat by {
            assert(s[k] < n);
        }
        lemma_distinct_len(s, (n - 1) as nat);
    }
}

/// Allocation keeps the free list proper and takes exactly the handed-out
/// index off it.
pub proof fn lemma_allocate_sound(t: TableView)
    requires
        t.sound(),
        t.has_room(),
    ensures
        t.after_allocate().sound(),
        t.after_allocate().free_seq() == (if t.head == 0 {
            t.free_seq()
        } else {
            t.free_seq().skip(1)
        }),
        !t.is_live(t.next_index()),
        t.after_allocate().is_live(t.next_index()),
        forall|j: u16| j != t.next_index() ==> t.after_allocate().is_live(j) == t.is_live(j),
{
    let u = t.after_allocate();
    let n = t.list.len();
    lemma_allocate_wf(t);
    if t.head == 0 {
        assert(t.free_seq() =~= Seq::<u16>::empty());
        assert(u.free_seq() =~= Seq::<u16>::empty());
        assert forall|i: int| 0 <= i < u.list.len() && !u.free_seq().contains(i as u16) implies #[trigger] u.list[i]
            == i by {
            if i < n {
                assert(t.list[i] == i);
            }
        }
    } else {
        let h = t.head;
        let nx = t.list[h as int];
        let rest = chain(t.list, nx, (n - 1) as nat);
        let whole = t.free_seq();
        assert(whole == seq![h] + rest);
        assert(whole.skip(1) =~= rest);
        lemma_chain_range(t.list, nx, (n - 1) as nat);
        // the head is not on the rest of the list
        assert(!rest.contains(h)) by {
            if rest.contains(h) {
                let k = choose|k: int| 0 <= k < rest.len() && rest[k] == h;
                assert(whole[0] == h && whole[k + 1] == h);
            }
        }
        assert forall|i: int|
            0 <= i < t.list.len() && rest.contains(i as u16) implies #[trigger] t.list[i]
            == u.list[i] by {}
        lemma_chain_frame(t.list, u.list, nx, (n - 1) as nat);
        assert(chain(u.list, nx, (n - 1) as nat) == rest);
        lemma_chain_fuel(u.list, nx, (n - 1) as nat, n);
        assert(u.free_seq() == rest);
        assert forall|a: int, b: int| 0 <= a < rest.len() && 0 <= b < rest.len() && a != b implies rest[a]
            != rest[b] by {
            assert(whole[a + 1] == rest[a] && whole[b + 1] == rest[b]);
        }
        assert forall|i: int| 0 <= i < u.list.len() && !u.free_seq().contains(i as u16) implies #[trigger] u.list[i]
            == i by {
            if i != h {
                if whole.contains(i as u16) {
                    let k = choose|k: int| 0 <= k < whole.len() && whole[k] == i as u16;
                    assert(k > 0);
                    assert(rest[k - 1] == i as u16);
                }
                assert(t.list[i] == i);
            }
        }
        assert(whole[0] == h);
        assert(whole.contains(h));
        assert forall|j: u16| j != h implies u.is_live(j) == t.is_live(j) by {
            if whole.contains(j) {
                let k = choose|k: int| 0 <= k < whole.len() && whole[k] == j;
                assert(k > 0);
                assert(rest[k - 1] == j);
            }
            if rest.contains(j) {
                let k = choose|k: int| 0 <= k < rest.len() && rest[k] == j;
                assert(whole[k + 1] == j);
            }
        }
    }
}

/// On a chain that ended before its fuel ran out, every index links to the
/// one after it, and the last to 0. No index on it links to itself.
pub proof fn lemma_chain_links(list: Seq<u16>, at: u16, fuel: nat, p: int)
    requires
        forall|i: int| 0 <= i < list.len() ==> #[trigger] list[i] < list.len(),
        chain(list, at, fuel).len() < fuel,
        chain(list, at, fuel).no_duplicates(),
        0 <= p < chain(list, at, fuel).len(),
    ensures
        list[chain(list, at, fuel)[p] as int] == (if p + 1 < chain(list, at, fuel).len() {
            chain(list, at, fuel)[p + 1]
        } else {
            0
        }),
        list[chain(list, at, fuel)[p] as int] != chain(list, at, fuel)[p],
    decreases fuel,
{
    let whole = chain(list, at, fuel);
    let next = list[at as int];
    let rest = chain(list, next, (fuel - 1) as nat);
    assert(whole == seq![at] + rest);
    assert forall|a: int, b: int| 0 <= a < rest.len() && 0 <= b < rest.len() && a != b implies rest[a]
        != rest[b] by {
        assert(whole[a + 1] == rest[a] && whole[b + 1] == rest[b]);
    }
    if p == 0 {
        assert(whole[0] == at);
        if rest.len() > 0 {
            assert(rest[0] == next);
            assert(whole[1] == next);
        } else {
            assert(next < list.len());
            assert(next == 0);
        }
    } else {
        lemma_chain_links(list, next, (fuel - 1) as nat, p - 1);
        assert(whole[p] == rest[p - 1]);
        if p + 1 < whole.len() {
            assert(whole[p + 1] == rest[p]);
        }
    }
}

/// Giving an index back keeps the free list proper. The reserved index and
/// an index that is free already leave the table as it is; an index in use
/// goes to the front of the free list, and no other index changes hands.
pub proof fn lemma_free_sound(t: TableView, value: u16)
    requires
        t.sound(),
        value < t.list.len(),
    ensures
        t.after_free(value).sound(),
        value == 0 || t.free_seq().contains(value) ==> t.after_free(value) == t,
        t.is_live(value) ==> t.after_free(value).free_seq() == seq![value] + t.free_seq(),
        !t.after_free(value).is_live(value),
        forall|j: u16| j != value ==> t.after_free(value).is_live(j) == t.is_live(j),
{
    if value != 0 && t.free_seq().contains(value) {
        let p = choose|p: int| 0 <= p < t.free_seq().len() && t.free_seq()[p] == value;
        lemma_chain_links(t.list, t.head, t.list.len(), p);
        assert(t.after_free(value) == t);
    } else if value != 0 {
        assert(t.list[value as int] == value);
        lemma_free_pushes(t, value);
    }
}

/// Giving back an index in use keeps the free list proper and puts the
/// index at its front.
proof fn lemma_free_pushes(t: TableView, value: u16)
    requires
        t.sound(),
        t.is_live(value),
        t.list[value as int] == value,
    ensures
        t.after_free(value).sound(),
        t.after_free(value).free_seq() == seq![value] + t.free_seq(),
        !t.after_free(value).is_live(value),
        forall|j: u16| j != value ==> t.after_free(value).is_live(j) == t.is_live(j),
{
    let u = t.after_free(value);
    let n = t.list.len();
    let old_free = t.free_seq();
    lemma_chain_range(t.list, t.head, n);
    // the old list is short enough to leave room for one more index
    let padded = old_free.push(value).push(0);
    assert forall|a: int, b: int|
        0 <= a < padded.len() && 0 <= b < padded.len() && a != b implies padded[a]
        != padded[b] by {
        if a < old_free.len() {
            assert(old_free.contains(padded[a]));
        }
        if b < old_free.len() {
            assert(old_free.contains(padded[b]));
        }
    }
    assert forall|k: int| 0 <= k < padded.len() implies #[trigger] padded[k] < n by {
        if k < old_free.len() {
            assert(padded[k] == old_free[k]);
        }
    }
    lemma_distinct_len(padded, n);
    assert(old_free.len() + 2 <= n);
    lemma_chain_short(t.list, t.head, n, (n - 1) as nat);
    let short = chain(t.list, t.head, (n - 1) as nat);
    assert(short == old_free);
    assert forall|i: int|
        0 <= i < t.list.len() && short.contains(i as u16) implies #[trigger] t.list[i]
        == u.list[i] by {}
    lemma_chain_frame(t.list, u.list, t.head, (n - 1) as nat);
    assert(u.list[value as int] == t.head);
    assert(u.free_seq() == seq![value] + chain(u.list, t.head, (n - 1) as nat));
    assert(u.free_seq() =~= seq![value] + old_free);
    let new_free = u.free_seq();
    assert forall|a: int, b: int|
        0 <= a < new_free.len() && 0 <= b < new_free.len() && a != b implies new_free[a]
        != new_free[b] by {
        if a > 0 {
            assert(old_free.contains(new_free[a]));
        }
        if b > 0 {
            assert(old_free.contains(new_free[b]));
        }
    }
    assert(u.wf()) by {
        assert forall|i: int| 0 <= i < u.list.len() implies #[trigger] u.list[i]
            < u.list.len() by {
            if i != value {
                assert(t.list[i] < t.list.len());
            }
        }
    }
    assert(new_free[0] == value);
    assert(new_free.contains(value));
    assert forall|i: int| 0 <= i < u.list.len() && !new_free.contains(i as u16) implies #[trigger] u.list[i]
        == i by {
        if old_free.contains(i as u16) {
            let k = choose|k: int| 0 <= k < old_free.len() && old_free[k] == i as u16;
            assert(new_free[k + 1] == i as u16);
        }
        assert(t.list[i] == i);
    }
    assert forall|j: u16| j != value implies u.is_live(j) == t.is_live(j) by {
        if old_free.contains(j) {
            let k = choose|k: int| 0 <= k < old_free.len() && old_free[k] == j;
            assert(new_free[k + 1] == j);
        }
        if new_free.contains(j) {
            let k = choose|k: int| 0 <= k < new_free.len() && new_free[k] == j;
            assert(k > 0);
            assert(old_free[k - 1] == j);
        }
    }
}

/// A chain that ended before its fuel ran out is the same with any fuel
/// above its length.
pub proof fn lemma_chain_short(list: Seq<u16>, at: u16, fuel: nat, less: nat)
    requires
        chain(list, at, fuel).len() < less <= fuel,
    ensures
        chain(list, at, less) == chain(list, at, fuel),
    decreases fuel,
{
    if at == 0 || fuel == 0 || at >= list.len() {
    } else {
        lemma_chain_short(list, list[at as int], (fuel - 1) as nat, (less - 1) as nat);
    }
}

} // verus!
