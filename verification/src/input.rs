//! Player input: packed bit fields and the channels that carry them.

use vstd::prelude::*;

verus! {

/// A run of bits in a 64-bit word: the bits themselves and where the run
/// starts.
#[derive(Clone, Copy, Debug, PartialEq, Eq, Structural)]
pub struct BitMask {
    pub mask: i64,
    pub shift: usize,
}

/// The word with bits `start..end` set.
pub open spec fn bit_run(start: int, end: int) -> i64
    decreases end - start,
{
    if end <= start {
        0
    } else {
        bit_run(start, end - 1) | (1i64 << ((end - 1) as usize))
    }
}

/// Where a run that is asked to end at `end` really ends: bit 63 is never
/// part of a run.
pub open spec fn run_end(end: usize) -> usize {
    if end >= 64 {
        63
    } else {
        end
    }
}

impl BitMask {
    /// What `decode` extracts from `value`.
    pub open spec fn spec_decode(&self, value: i64) -> i64 {
        (value & self.mask) >> self.shift
    }

    /// What `encode` makes of `value`.
    pub open spec fn spec_encode(&self, value: i64) -> i64 {
        (value << self.shift) & self.mask
    }

    /// The empty run at bit 0.
    pub fn new() -> (m: Self)
        ensures
            m == (BitMask { mask: 0, shift: 0 }),
    {
        Self { mask: 0, shift: 0 }
    }

    /// The run of bits `start..end`, cut off before bit 63.
    pub fn const_from(start: usize, end: usize) -> (m: Self)
        ensures
            m.mask == bit_run(start as int, run_end(end) as int),
            m.shift == start,
    {
        let mut ender = end;
        if ender >= 64 {
            ender = 63;
        }
        let mut mask: i64 = 0x0000000000000000;
        let mut i = start;

        while i < ender
            invariant
                ender <= 63,
                start <= ender ==> start <= i <= ender,
                start > ender ==> i == start,
                mask == bit_run(start as int, i as int),
            decreases ender - i,
        {
            mask |= 1 << i;
            i += 1;
        }

        Self { mask: mask, shift: start }
    }

    /// The run of bits `start..end`, cut off before bit 63.
    pub fn from(start: usize, end: usize) -> (m: Self)
        ensures
            m.mask == bit_run(start as int, run_end(end) as int),
            m.shift == start,
    {
        let mut ender = end;
        if ender >= 64 {
            ender = 63;
        }
        let mut mask: i64 = 0x0000000000000000;
        let shift = start;
        if start < ender {
            for i in start..ender
                invariant
                    start < ender <= 63,
                    mask == bit_run(start as int, i as int),
            {
                mask |= 1 << i;
            }
        }

        Self { mask: mask, shift: shift }
    }

    /// The field of `value` that the run covers, moved down to bit 0.
    #[verifier::when_used_as_spec(spec_decode)]
    pub fn decode(&self, value: i64) -> (field: i64)
        requires
            self.shift < 64,
        ensures
            field == self.spec_decode(value),
    {
        (value & self.mask) >> self.shift
    }

    /// `value` moved up to the run and cut to it.
    #[verifier::when_used_as_spec(spec_encode)]
    pub fn encode(&self, value: i64) -> (word: i64)
        requires
            self.shift < 64,
        ensures
            word == self.spec_encode(value),
    {
        (value << self.shift) & self.mask
    }
}

impl Default for BitMask {
    fn default() -> (m: Self)
        ensures
            m == (BitMask { mask: 0, shift: 0 }),
    {
        Self { mask: 0, shift: 0 }
    }
}

/// The decoded input of one player.
#[derive(Clone, Copy, Debug, PartialEq, Eq, Structural)]
pub struct Control {
    pub state: u8,
    pub x: i16,
    pub nonEmpty: bool,
    pub left: bool,
    pub right: bool,
    pub primary: bool,
    pub debug: u32,
}

impl Default for Control {
    fn default() -> (c: Self)
        ensures
            c == Control::blank(),
    {
        Self {
            state: 0,
            x: 0,
            nonEmpty: false,
            left: false,
            right: false,
            primary: false,
            debug: 0,
        }
    }
}

impl Control {
    /// The input with nothing pressed.
    pub open spec fn blank() -> Control {
        Control {
            state: 0,
            x: 0,
            nonEmpty: false,
            left: false,
            right: false,
            primary: false,
            debug: 0,
        }
    }
}

/// One input channel: connection flags, the packed word as it arrived, and
/// what was decoded from it.
#[derive(Clone, Copy, Debug, PartialEq, Eq, Structural)]
pub struct Slot {
    pub connected: bool,
    pub connectedAtStart: bool,
    pub broken: bool,
    pub raw: i64,
    pub input: Control,
}

impl Default for Slot {
    fn default() -> (s: Self)
        ensures
            s == Slot::blank(),
    {
        Self {
            connected: false,
            connectedAtStart: false,
            broken: false,
            raw: 0,
            input: Control::default(),
        }
    }
}

impl Slot {
    /// The channel that nobody is connected to.
    pub open spec fn blank() -> Slot {
        Slot {
            connected: false,
            connectedAtStart: false,
            broken: false,
            raw: 0,
            input: Control::blank(),
        }
    }
}

/// Round-wide scalars.
#[derive(Clone, Copy, Debug, PartialEq, Eq, Structural)]
pub struct GlobalState {
    pub playing: bool,
    pub enemySpeed: i32,
    pub enemyCount: i32,
    pub textType: u16,
    pub textAnimate: i32,
}

impl Default for GlobalState {
    fn default() -> (g: Self)
        ensures
            g == (GlobalState {
                playing: false,
                enemySpeed: 0,
                enemyCount: 0,
                textType: 0,
                textAnimate: 0,
            }),
    {
        Self { playing: false, enemySpeed: 0, enemyCount: 0, textType: 0, textAnimate: 0 }
    }
}

} // verus!
