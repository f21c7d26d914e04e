//! A seeded 32-bit pseudo-random generator with a 624-word state.
//!
//! The generator is a pure function of its seed: the same seed gives the same
//! words on every target. The 32x32 multiply used for seeding is written out
//! in half-word partial products so that no intermediate value ever leaves 32
//! bits.

use vstd::prelude::*;
use vstd::wrapping::u32_specs;

verus! {

/// The state of a generator as plain values.
#[verifier::ext_equal]
pub struct RngState {
    pub p: int,
    pub q: int,
    pub r: int,
    pub x: Seq<u32>,
}

/// The low 32 bits of `a * b`.
pub open spec fn spec_imul(a: u32, b: u32) -> u32 {
    u32_specs::wrapping_mul(a, b)
}

/// The seeding recurrence: the word that follows `prev` at position `i`.
pub open spec fn seed_step(prev: u32, i: u32) -> u32 {
    u32_specs::wrapping_add(spec_imul(1812433253, prev ^ (prev >> 30)), i)
}

/// Word `i` of the state that seed `s` produces.
pub open spec fn seed_word(s: u32, i: nat) -> u32
    decreases i,
{
    if i == 0 {
        s
    } else {
        seed_step(seed_word(s, (i - 1) as nat), i as u32)
    }
}

/// The state right after seeding with `s`.
pub open spec fn seeded(s: u32) -> RngState {
    RngState { p: 0, q: 1, r: 397, x: Seq::new(624, |i: int| seed_word(s, i as nat)) }
}

/// The state word that replaces `xp` when the generator advances; `xq` and
/// `xr` are the words at the two other cursors.
pub open spec fn twist(xp: u32, xq: u32, xr: u32) -> u32 {
    let y = (xp & 0x80000000u32) | (xq & 0x7fffffffu32);
    xr ^ (y >> 1) ^ (((y & 1) * 0x9908b0dfu32) as u32)
}

/// The output scrambling applied to a fresh state word.
pub open spec fn temper(w: u32) -> u32 {
    let y1 = w ^ (w >> 11);
    let y2 = y1 ^ ((y1 << 7) & 0x9d2c5680u32);
    let y3 = y2 ^ ((y2 << 15) & 0xefc60000u32);
    y3 ^ (y3 >> 18)
}

/// A cursor moved one word on, around the end of the state.
pub open spec fn bump(c: int) -> int {
    if c + 1 == 624 {
        0
    } else {
        c + 1
    }
}

/// The state after one draw.
pub open spec fn advance(st: RngState) -> RngState {
    RngState {
        p: bump(st.p),
        q: bump(st.q),
        r: bump(st.r),
        x: st.x.update(st.p, twist(st.x[st.p], st.x[st.q], st.x[st.r])),
    }
}

/// The word that one draw from `st` returns.
pub open spec fn output(st: RngState) -> u32 {
    temper(twist(st.x[st.p], st.x[st.q], st.x[st.r]))
}

/// The state after `k` draws.
pub open spec fn advance_by(st: RngState, k: nat) -> RngState
    decreases k,
{
    if k == 0 {
        st
    } else {
        advance(advance_by(st, (k - 1) as nat))
    }
}

/// The first `k` words drawn from `st`, in order.
pub open spec fn draws(st: RngState, k: nat) -> Seq<u32>
    decreases k,
{
    if k == 0 {
        Seq::empty()
    } else {
        draws(st, (k - 1) as nat).push(output(advance_by(st, (k - 1) as nat)))
    }
}

/// Whether the three cursors of `st` lie inside its 624 words.
pub open spec fn state_wf(st: RngState) -> bool {
    &&& st.x.len() == 624
    &&& 0 <= st.p < 624
    &&& 0 <= st.q < 624
    &&& 0 <= st.r < 624
}

/// The generator.
#[derive(Clone, Copy)]
pub struct MersenneTwister {
    pub p: i32,
    pub q: i32,
    pub r: i32,
    pub x: [u32; 624],
}

impl View for MersenneTwister {
    type V = RngState;

    open spec fn view(&self) -> RngState {
        RngState { p: self.p as int, q: self.q as int, r: self.r as int, x: self.x@ }
    }
}

impl MersenneTwister {
    pub const N: usize = 624;
    pub const M: i32 = 397;
    pub const UPPER_MASK: u32 = 0x80000000;
    pub const LOWER_MASK: u32 = 0x7fffffff;
    pub const MATRIX_A: u32 = 0x9908b0df;

    /// Whether the cursors lie inside the state.
    pub open spec fn wf(&self) -> bool {
        state_wf(self@)
    }

    /// The unseeded generator: every word and every cursor is zero.
    pub fn new() -> (g: Self)
        ensures
            g.wf(),
            g@ == (RngState { p: 0, q: 0, r: 0, x: Seq::new(624, |i: int| 0u32) }),
    {
        let g = Self { p: 0, q: 0, r: 0, x: [0u32; 624] };
        assert(g@.x =~= Seq::new(624, |i: int| 0u32));
        g
    }

    /// A generator seeded with zero, whatever `s` is.
    pub fn from_zero(s: u32) -> (g: Self)
        ensures
            g.wf(),
            g@ == seeded(0),
    {
        let mut r = MersenneTwister::new();
        r.set_seed(0);
        r
    }

    /// A generator seeded with `s`.
    pub fn from(s: u32) -> (g: Self)
        ensures
            g.wf(),
            g@ == seeded(s),
    {
        let mut r = MersenneTwister::new();
        r.set_seed(s);
        r
    }

    /// The low 32 bits of `a * b`, from half-word partial products.
    pub fn imul(a: u32, b: u32) -> (m: u32)
        ensures
            m == spec_imul(a, b),
    {
        let al: u32 = a & 0xffff;
        let ah: u32 = a >> 16;
        let bl: u32 = b & 0xffff;
        let bh: u32 = b >> 16;
        proof {
            lemma_split_halves(a);
            lemma_split_halves(b);
            lemma_half_products(al as int, ah as int, bl as int, bh as int);
        }
        let ml: u32 = al * bl;
        proof {
            lemma_split_halves(ml);
        }
        let t: u32 = (ml >> 16) + al * bh;
        proof {
            lemma_split_halves(t);
        }
        let u: u32 = t & 0xffff;
        let v: u32 = u + ah * bl;
        proof {
            lemma_split_halves(v);
        }
        let mh: u32 = v & 0xffff;
        let lo: u32 = ml & 0xffff;
        proof {
            lemma_join_halves(mh, lo);
            lemma_imul_halves(a as int, b as int, al as int, ah as int, bl as int, bh as int);
        }
        (mh << 16) | lo
    }

    /// Re-seeds the generator. The state afterwards depends on `s` alone.
    pub fn set_seed(&mut self, s: u32)
        ensures
            final(self).wf(),
            final(self)@ == seeded(s),
    {
        self.x[0] = s;
        let mut i: usize = 1;
        while i < 624
            invariant
                1 <= i <= 624,
                forall|k: int| 0 <= k < i ==> self.x@[k] == seed_word(s, k as nat),
            decreases 624 - i,
        {
            let prev: u32 = self.x[i - 1];
            let word: u32 = MersenneTwister::imul(1812433253, prev ^ (prev >> 30)).wrapping_add(
                i as u32,
            );
            self.x[i] = word;
            i += 1;
        }
        self.p = 0;
        self.q = 1;
        self.r = MersenneTwister::M;
        assert(self@.x =~= seeded(s).x);
    }

    /// Draws the next 32-bit word.
    pub fn next_u32(&mut self) -> (y: u32)
        requires
            old(self).wf(),
        ensures
            final(self).wf(),
            final(self)@ == advance(old(self)@),
            y == output(old(self)@),
    {
        let p: usize = self.p as usize;
        let q: usize = self.q as usize;
        let r: usize = self.r as usize;

        let mut y: u32 = (self.x[p] & MersenneTwister::UPPER_MASK) | (self.x[q]
            & MersenneTwister::LOWER_MASK);
        proof {
            lemma_low_bit(y);
        }
        let w: u32 = self.x[r] ^ (y >> 1) ^ ((y & 1) * MersenneTwister::MATRIX_A);
        self.x[p] = w;
        y = w;

        self.p += 1;
        self.q += 1;
        self.r += 1;

        if self.p == 624 {
            self.p = 0;
        }
        if self.q == 624 {
            self.q = 0;
        }
        if self.r == 624 {
            self.r = 0;
        }

        y ^= (y >> 11);
        y ^= (y << 7) & 0x9d2c5680;
        y ^= (y << 15) & 0xefc60000;
        y ^= (y >> 18);

        assert(self@.x =~= advance(old(self)@).x);
        y
    }

    /// Draws a word and keeps its `bits` highest bits.
    pub fn next_u32_bits(&mut self, bits: u32) -> (y: u32)
        requires
            old(self).wf(),
            1 <= bits <= 32,
        ensures
            final(self).wf(),
            final(self)@ == advance(old(self)@),
            y == output(old(self)@) >> ((32 - bits) as u32),
    {
        self.next_u32() >> (32 - bits)
    }

    /// Draws an integer in `0..=max` by reducing a raw word modulo `max + 1`.
    /// The reduction is not corrected for bias.
    pub fn next_from_zero(&mut self, max: i32) -> (n: i32)
        requires
            old(self).wf(),
            0 <= max < i32::MAX,
        ensures
            final(self).wf(),
            final(self)@ == advance(old(self)@),
            n == output(old(self)@) as int % (max + 1),
            0 <= n <= max,
    {
        let n: u32 = self.next_u32() % ((max + 1) as u32);
        n as i32
    }

    /// Draws an integer in `min..=max` by reducing a raw word modulo the
    /// width of the range. The reduction is not corrected for bias.
    pub fn next_range(&mut self, min: i32, max: i32) -> (n: i32)
        requires
            old(self).wf(),
            min <= max < i32::MAX,
            max + 1 - min <= i32::MAX,
        ensures
            final(self).wf(),
            final(self)@ == advance(old(self)@),
            n == min + output(old(self)@) as int % (max + 1 - min),
            min <= n <= max,
    {
        let n: u32 = self.next_u32() % ((max + 1 - min) as u32);
        (n as i32) + min
    }
}

/// The lowest bit of a word is 0 or 1.
proof fn lemma_low_bit(y: u32)
    by (bit_vector)
    ensures
        y & 1 <= 1,
{
}

/// Masking with 16 ones and shifting by 16 split a word into its halves.
proof fn lemma_split_halves(a: u32)
    by (bit_vector)
    ensures
        a & 0xffff == a % 0x10000,
        a >> 16 == a / 0x10000,
        a & 0xffff <= 0xffff,
        a >> 16 <= 0xffff,
{
}

/// Two halves put side by side.
proof fn lemma_join_halves(hi: u32, lo: u32)
    by (bit_vector)
    requires
        hi <= 0xffff,
        lo <= 0xffff,
    ensures
        (hi << 16) | lo == hi * 0x10000 + lo,
{
}

/// Products of two halves stay well inside 32 bits.
proof fn lemma_half_products(al: int, ah: int, bl: int, bh: int)
    by (nonlinear_arith)
    requires
        0 <= al <= 0xffff,
        0 <= ah <= 0xffff,
        0 <= bl <= 0xffff,
        0 <= bh <= 0xffff,
    ensures
        0 <= al * bl <= 0xfffe0001,
        0 <= al * bh <= 0xfffe0001,
        0 <= ah * bl <= 0xfffe0001,
{
}

/// The half-word partial products put together give the low 32 bits of the
/// full product.
proof fn lemma_imul_halves(a: int, b: int, al: int, ah: int, bl: int, bh: int)
    requires
        0 <= al <= 0xffff,
        0 <= ah <= 0xffff,
        0 <= bl <= 0xffff,
        0 <= bh <= 0xffff,
        a == ah * 0x10000 + al,
        b == bh * 0x10000 + bl,
    ensures
        ({
            let ml = al * bl;
            let t = ml / 0x10000 + al * bh;
            let v = t % 0x10000 + ah * bl;
            (v % 0x10000) * 0x10000 + ml % 0x10000 == (a * b) % 0x1_0000_0000
        }),
{
    let ml = al * bl;
    let lo = ml % 0x10000;
    let carry = ml / 0x10000;
    let t = carry + al * bh;
    let v = t % 0x10000 + ah * bl;
    let s = t + ah * bl;
    let mh = v % 0x10000;
    lemma_half_products(al, ah, bl, bh);
    assert(a * b == ah * bh * 0x1_0000_0000 + (ah * bl + al * bh) * 0x10000 + al * bl)
        by (nonlinear_arith)
        requires
            a == ah * 0x10000 + al,
            b == bh * 0x10000 + bl,
    ;
    assert(0 <= ah * bh) by (nonlinear_arith)
        requires
            0 <= ah,
            0 <= bh,
    ;
    assert(ml == carry * 0x10000 + lo);
    assert(v % 0x10000 == s % 0x10000) by {
        let tq = t / 0x10000;
        assert(s == v + tq * 0x10000);
        vstd::arithmetic::div_mod::lemma_mod_multiples_vanish(tq, v, 0x10000);
    }
    let sq = s / 0x10000;
    assert(s == sq * 0x10000 + mh);
    assert(a * b == (ah * bh + sq) * 0x1_0000_0000 + (mh * 0x10000 + lo)) by (nonlinear_arith)
        requires
            a * b == ah * bh * 0x1_0000_0000 + (ah * bl + al * bh) * 0x10000 + ml,
            ml == carry * 0x10000 + lo,
            s == carry + al * bh + ah * bl,
            s == sq * 0x10000 + mh,
    ;
    assert(0 <= mh * 0x10000 + lo < 0x1_0000_0000);
    vstd::arithmetic::div_mod::lemma_mod_multiples_vanish(
        ah * bh + sq,
        mh * 0x10000 + lo,
        0x1_0000_0000,
    );
    vstd::arithmetic::div_mod::lemma_small_mod((mh * 0x10000 + lo) as nat, 0x1_0000_0000);
}

/// Two generators seeded with the same value draw the same words, whatever
/// either of them held before.
pub proof fn lemma_same_seed_same_draws(a: RngState, b: RngState, s: u32, k: nat)
    requires
        a == seeded(s),
        b == seeded(s),
    ensures
        draws(a, k) == draws(b, k),
        advance_by(a, k) == advance_by(b, k),
{
}

/// Drawing keeps the cursors inside the state.
pub proof fn lemma_advance_by_wf(st: RngState, k: nat)
    requires
        state_wf(st),
    ensures
        state_wf(advance_by(st, k)),
        draws(st, k).len() == k,
    decreases k,
{
    if k > 0 {
        lemma_advance_by_wf(st, (k - 1) as nat);
    }
}

} // verus!
