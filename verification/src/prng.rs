//! The generator that hands out broadcast ids: xoshiro256** seeded through
//! splitmix64.

use vstd::prelude::*;

verus! {

/// `x` rotated left by `k` bits.
pub open spec fn spec_rol64(x: u64, k: u64) -> u64 {
    (x << k) | (x >> ((64 - k) as u64))
}

/// The four 64-bit words of an xoshiro256** generator.
#[derive(Clone, Copy, Debug)]
pub struct Xoshiro256ss {
    pub s0: u64,
    pub s1: u64,
    pub s2: u64,
    pub s3: u64,
}

/// First word of the jump table that stands for 2^128 draws.
pub const JUMP_0: u64 = 0x180ec6d33cfd0aba;

pub const JUMP_1: u64 = 0xd5a61266f0c9392c;

pub const JUMP_2: u64 = 0xa9582618e03fc9aa;

pub const JUMP_3: u64 = 0x39abdc4529b1661c;

/// First word of the jump table that stands for 2^192 draws.
pub const LONG_JUMP_0: u64 = 0x76e15d3efefdcbbf;

pub const LONG_JUMP_1: u64 = 0xc5004e441c522fb3;

pub const LONG_JUMP_2: u64 = 0x77710069854ee241;

pub const LONG_JUMP_3: u64 = 0x39109bb02acbe635;

/// Word `i` of a four-word jump table.
pub open spec fn spec_table_word(table: (u64, u64, u64, u64), i: int) -> u64 {
    if i == 0 {
        table.0
    } else if i == 1 {
        table.1
    } else if i == 2 {
        table.2
    } else {
        table.3
    }
}

impl Xoshiro256ss {
    /// The number that the next draw returns.
    pub open spec fn spec_output(self) -> u64 {
        spec_rol64(self.s1.wrapping_mul(5), 7).wrapping_mul(9)
    }

    /// The generator after one draw.
    pub open spec fn spec_step(self) -> Xoshiro256ss {
        let t = self.s1 << 17u64;
        let s2 = self.s2 ^ self.s0;
        let s3 = self.s3 ^ self.s1;
        let s1 = self.s1 ^ s2;
        let s0 = self.s0 ^ s3;
        Xoshiro256ss { s0, s1, s2: s2 ^ t, s3: spec_rol64(s3, 45) }
    }

    /// The generator after `n` draws.
    pub open spec fn spec_advance(self, n: nat) -> Xoshiro256ss
        decreases n,
    {
        if n == 0 {
            self
        } else {
            self.spec_advance((n - 1) as nat).spec_step()
        }
    }

    /// Word-wise exclusive or.
    pub open spec fn spec_xor(self, other: Xoshiro256ss) -> Xoshiro256ss {
        Xoshiro256ss {
            s0: self.s0 ^ other.s0,
            s1: self.s1 ^ other.s1,
            s2: self.s2 ^ other.s2,
            s3: self.s3 ^ other.s3,
        }
    }

    /// The accumulator of a jump after its first `n` of 256 rounds. Round
    /// `64 * i + b` looks at bit `b` of word `i` of the table, folds the
    /// running generator into the accumulator where the bit is set, and draws
    /// once.
    pub open spec fn spec_jump_acc(self, table: (u64, u64, u64, u64), n: nat) -> Xoshiro256ss
        decreases n,
    {
        if n == 0 {
            Xoshiro256ss { s0: 0, s1: 0, s2: 0, s3: 0 }
        } else {
            let m = (n - 1) as nat;
            let acc = self.spec_jump_acc(table, m);
            let word = spec_table_word(table, (m / 64) as int);
            if word & (1u64 << ((m % 64) as u32)) != 0 {
                acc.spec_xor(self.spec_advance(m))
            } else {
                acc
            }
        }
    }

    /// The generator that a jump over `table` leaves: the exclusive or of the
    /// states that the generator passes through at the rounds whose bit is set
    /// in the table.
    pub open spec fn spec_jump(self, table: (u64, u64, u64, u64)) -> Xoshiro256ss {
        self.spec_jump_acc(table, 256)
    }

    fn rol64(x: u64, k: u64) -> (r: u64)
        requires
            0 < k < 64,
        ensures
            r == spec_rol64(x, k),
    {
        (x << k) | (x >> (64 - k))
    }

    /// Draws the next number and moves the generator on by one step.
    pub fn next(&mut self) -> (r: u64)
        ensures
            r == old(self).spec_output(),
            *final(self) == old(self).spec_step(),
    {
        let result = Self::rol64(self.s1.wrapping_mul(5), 7).wrapping_mul(9);
        let t = self.s1 << 17u64;

        self.s2 = self.s2 ^ self.s0;
        self.s3 = self.s3 ^ self.s1;
        self.s1 = self.s1 ^ self.s2;
        self.s0 = self.s0 ^ self.s3;

        self.s2 = self.s2 ^ t;
        self.s3 = Self::rol64(self.s3, 45);

        result
    }

    /// Draws `n` numbers and drops them.
    pub fn advance(&mut self, n: usize)
        ensures
            *final(self) == old(self).spec_advance(n as nat),
    {
        let mut i: usize = 0;
        while i < n
            invariant
                i <= n,
                *self == old(self).spec_advance(i as nat),
            decreases n - i,
        {
            self.next();
            i = i + 1;
        }
    }

    fn jump_inner(&mut self, j0: u64, j1: u64, j2: u64, j3: u64)
        ensures
            *final(self) == old(self).spec_jump((j0, j1, j2, j3)),
    {
        let ghost table = (j0, j1, j2, j3);
        let ghost start = *self;
        let mut acc = Xoshiro256ss { s0: 0, s1: 0, s2: 0, s3: 0 };
        let mut i: usize = 0;
        while i < 4
            invariant
                i <= 4,
                table == (j0, j1, j2, j3),
                *self == start.spec_advance((64 * i) as nat),
                acc == start.spec_jump_acc(table, (64 * i) as nat),
            decreases 4 - i,
        {
            let j = if i == 0 {
                j0
            } else if i == 1 {
                j1
            } else if i == 2 {
                j2
            } else {
                j3
            };
            let mut b: u32 = 0;
            while b < 64
                invariant
                    i < 4,
                    b <= 64,
                    j == spec_table_word(table, i as int),
                    *self == start.spec_advance((64 * i + b) as nat),
                    acc == start.spec_jump_acc(table, (64 * i + b) as nat),
                decreases 64 - b,
            {
                let ghost m = (64 * i + b) as nat;
                assert(m / 64 == i && m % 64 == b);
                if (j & (1u64 << b)) != 0 {
                    acc.s0 = acc.s0 ^ self.s0;
                    acc.s1 = acc.s1 ^ self.s1;
                    acc.s2 = acc.s2 ^ self.s2;
                    acc.s3 = acc.s3 ^ self.s3;
                }
                self.next();
                b = b + 1;
                assert(start.spec_advance((m + 1) as nat) == start.spec_advance(m).spec_step());
            }
            i = i + 1;
        }
        self.s0 = acc.s0;
        self.s1 = acc.s1;
        self.s2 = acc.s2;
        self.s3 = acc.s3;
    }

    /// The jump of xoshiro256** over the table that stands for 2^128 draws,
    /// for generators that run in parallel: the generator becomes the
    /// exclusive or of the states it passes through at the set bits of the
    /// table.
    pub fn jump(&mut self)
        ensures
            *final(self) == old(self).spec_jump((JUMP_0, JUMP_1, JUMP_2, JUMP_3)),
    {
        self.jump_inner(JUMP_0, JUMP_1, JUMP_2, JUMP_3)
    }

    /// The jump of xoshiro256** over the table that stands for 2^192 draws,
    /// for generators that run on different machines: the generator becomes
    /// the exclusive or of the states it passes through at the set bits of
    /// the table.
    pub fn long_jump(&mut self)
        ensures
            *final(self) == old(self).spec_jump(
                (LONG_JUMP_0, LONG_JUMP_1, LONG_JUMP_2, LONG_JUMP_3),
            ),
    {
        self.jump_inner(LONG_JUMP_0, LONG_JUMP_1, LONG_JUMP_2, LONG_JUMP_3)
    }
}

/// A splitmix64 generator, used only to spread a seed over the four words of
/// an xoshiro256** state.
#[derive(Clone, Copy, Debug)]
pub struct Splitmix64 {
    pub state: u64,
}

/// The splitmix64 output for a counter that already holds the increment.
pub open spec fn spec_mix(counter: u64) -> u64 {
    let z1 = (counter ^ (counter >> 30u64)).wrapping_mul(0xbf58476d1ce4e5b9);
    let z2 = (z1 ^ (z1 >> 27u64)).wrapping_mul(0x94d049bb133111eb);
    z2 ^ (z2 >> 31u64)
}

/// The counter after `n` splitmix64 draws.
pub open spec fn spec_counter(seed: u64, n: nat) -> u64
    decreases n,
{
    if n == 0 {
        seed
    } else {
        spec_counter(seed, (n - 1) as nat).wrapping_add(0x9e3779b97f4a7c15)
    }
}

impl Splitmix64 {
    /// The xoshiro256** state that a seed expands to.
    pub open spec fn spec_expand(self) -> Xoshiro256ss {
        Xoshiro256ss {
            s0: spec_mix(spec_counter(self.state, 1)),
            s1: spec_mix(spec_counter(self.state, 2)),
            s2: spec_mix(spec_counter(self.state, 3)),
            s3: spec_mix(spec_counter(self.state, 4)),
        }
    }

    pub fn new(seed: u64) -> (r: Self)
        ensures
            r.state == seed,
    {
        Splitmix64 { state: seed }
    }

    fn splitmix64(&mut self) -> (r: u64)
        ensures
            final(self).state == spec_counter(old(self).state, 1),
            r == spec_mix(final(self).state),
    {
        assert(spec_counter(self.state, 1) == spec_counter(self.state, 0).wrapping_add(
            0x9e3779b97f4a7c15,
        ));
        self.state = self.state.wrapping_add(0x9e3779b97f4a7c15);
        let mut z = self.state;
        z = (z ^ (z >> 30u64)).wrapping_mul(0xbf58476d1ce4e5b9);
        z = (z ^ (z >> 27u64)).wrapping_mul(0x94d049bb133111eb);
        z ^ (z >> 31u64)
    }

    /// Draws four numbers and makes them the words of a fresh xoshiro256**
    /// generator.
    pub fn xorshift256ss(&mut self) -> (r: Xoshiro256ss)
        ensures
            r == old(self).spec_expand(),
            final(self).state == spec_counter(old(self).state, 4),
    {
        proof {
            reveal_with_fuel(spec_counter, 5);
        }
        let s0 = self.splitmix64();
        let s1 = self.splitmix64();
        let s2 = self.splitmix64();
        let s3 = self.splitmix64();
        Xoshiro256ss { s0, s1, s2, s3 }
    }
}

} // verus!
