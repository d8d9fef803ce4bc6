//! Emulations of the C runtime `rand()` / `srand()` pairs of MSVCRT and glibc.

use vstd::prelude::*;

verus! {

/// 2^32, the modulus of `u32` wraparound.
pub open spec fn wrap32(x: int) -> u32 {
    (x % 0x1_0000_0000) as u32
}

/// MSVCRT's internal state after `n` steps from `srand(seed)`.
pub open spec fn msvc_state(seed: u32, n: nat) -> u32
    decreases n,
{
    if n == 0 {
        seed
    } else {
        wrap32(msvc_state(seed, (n - 1) as nat) * 214013 + 2531011)
    }
}

/// The `n`-th value (from 0) that MSVCRT's `rand()` returns after `srand(seed)`.
pub open spec fn msvc_rand(seed: u32, n: nat) -> u32 {
    (msvc_state(seed, n + 1) >> 16u32) & 0x7FFFu32
}

/// The `rand()` of the Microsoft C runtime: a linear congruential generator
/// whose output is bits 16..31 of its state.
pub struct CRandomWindows {
    state: u32,
    seed: Ghost<u32>,
    drawn: Ghost<nat>,
}

impl CRandomWindows {
    pub closed spec fn wf(&self) -> bool {
        self.state == msvc_state(self.seed@, self.drawn@)
    }

    /// The seed last given to `srand`.
    pub closed spec fn last_seed(&self) -> u32 {
        self.seed@
    }

    /// How many values `rand` has returned since the last `srand`.
    pub closed spec fn draws(&self) -> nat {
        self.drawn@
    }

    /// A generator in the state the C runtime starts with, as after `srand(1)`.
    pub fn new() -> (r: Self)
        ensures
            r.wf(),
            r.last_seed() == 1,
            r.draws() == 0,
    {
        CRandomWindows { state: 1, seed: Ghost(1), drawn: Ghost(0) }
    }

    pub fn srand(&mut self, seed: u32)
        ensures
            final(self).wf(),
            final(self).last_seed() == seed,
            final(self).draws() == 0,
    {
        self.state = seed;
        self.seed = Ghost(seed);
        self.drawn = Ghost(0);
    }

    pub fn rand(&mut self) -> (r: u32)
        requires
            old(self).wf(),
        ensures
            final(self).wf(),
            final(self).last_seed() == old(self).last_seed(),
            final(self).draws() == old(self).draws() + 1,
            r == msvc_rand(old(self).last_seed(), old(self).draws()),
            r < 0x8000,
    {
        let next: u64 = ((self.state as u64) * 214013 + 2531011) % 0x1_0000_0000;
        self.state = next as u32;
        self.drawn = Ghost(self.drawn@ + 1);
        let s = self.state;
        assert((s >> 16u32) & 0x7FFFu32 < 0x8000) by (bit_vector);
        (s >> 16u32) & 0x7FFFu32
    }
}


/// Division rounded toward zero, as C's `/` on signed integers.
pub open spec fn trunc_div(w: int, d: int) -> int {
    if w >= 0 {
        w / d
    } else {
        -((-w) / d)
    }
}

/// One step of glibc's seeding recurrence: `16807 * w mod (2^31 - 1)`,
/// computed with Schrage's method on 32-bit signed words.
pub open spec fn schrage(w: int) -> int {
    let hi = trunc_div(w, 127773);
    let lo = w - hi * 127773;
    let x = 16807 * lo - 2836 * hi;
    if x < 0 {
        x + 2147483647
    } else {
        x
    }
}

/// The `i`-th signed word (`i < 31`) that glibc's `srand(seed)` writes into its table;
/// a seed of 0 is taken as 1.
pub open spec fn glibc_init(seed: u32, i: nat) -> int
    decreases i,
{
    if i == 0 {
        let s: int = if seed == 0 {
            1
        } else {
            seed as int
        };
        if s < 0x8000_0000 {
            s
        } else {
            s - 0x1_0000_0000
        }
    } else {
        schrage(glibc_init(seed, (i - 1) as nat))
    }
}

/// The `i`-th word of glibc's additive feedback sequence after `srand(seed)`:
/// 31 seeded words, three repeated, then `r[i] = r[i - 31] + r[i - 3]` modulo 2^32.
pub open spec fn glibc_r(seed: u32, i: nat) -> u32
    decreases i,
{
    if i < 31 {
        wrap32(glibc_init(seed, i))
    } else if i < 34 {
        glibc_r(seed, (i - 31) as nat)
    } else {
        wrap32(glibc_r(seed, (i - 31) as nat) + glibc_r(seed, (i - 3) as nat))
    }
}

/// The `n`-th value (from 0) that glibc's `rand()` returns after `srand(seed)`:
/// the first 310 words of the feedback sequence past its 34 initial ones are discarded.
pub open spec fn glibc_rand(seed: u32, n: nat) -> u32 {
    glibc_r(seed, n + 344) >> 1u32
}

/// The 34 words of the feedback sequence from index `j` on.
pub open spec fn glibc_window(seed: u32, j: nat) -> Seq<u32> {
    Seq::new(34, |k: int| glibc_r(seed, j + k as nat))
}

proof fn lemma_window_step(seed: u32, j: nat)
    ensures
        glibc_r(seed, j + 34) == wrap32(glibc_window(seed, j)[3] + glibc_window(seed, j)[31]),
        glibc_window(seed, j + 1) =~= glibc_window(seed, j).drop_first().push(
            glibc_r(seed, j + 34),
        ),
{
}

fn schrage_step(w: i64) -> (r: i64)
    requires
        -0x8000_0000 <= w < 0x8000_0000,
    ensures
        r == schrage(w as int),
        0 <= r < 0x8000_0000,
{
    let hi: i64 = if w >= 0 {
        w / 127773
    } else {
        -((-w) / 127773)
    };
    assert(-16807 <= hi <= 16807);
    let lo: i64 = w - hi * 127773;
    assert(w >= 0 ==> 0 <= lo < 127773);
    assert(w < 0 ==> -127773 < lo <= 0);
    assert(w >= 0 ==> 0 <= hi);
    assert(w < 0 ==> hi <= 0);
    let x: i64 = 16807 * lo - 2836 * hi;
    if x < 0 {
        x + 2147483647
    } else {
        x
    }
}

/// The `rand()` of glibc: an additive feedback generator over a table of
/// 34 words, seeded by a multiplicative recurrence.
pub struct CRandomLinux {
    table: Vec<u32>,
    seed: Ghost<u32>,
    drawn: Ghost<nat>,
}

impl CRandomLinux {
    pub closed spec fn wf(&self) -> bool {
        self.table@ == glibc_window(self.seed@, self.drawn@ + 310)
    }

    /// The seed last given to `srand`.
    pub closed spec fn last_seed(&self) -> u32 {
        self.seed@
    }

    /// How many values `rand` has returned since the last `srand`.
    pub closed spec fn draws(&self) -> nat {
        self.drawn@
    }

    /// A generator in the state the C runtime starts with, as after `srand(1)`.
    pub fn new() -> (r: Self)
        ensures
            r.wf(),
            r.last_seed() == 1,
            r.draws() == 0,
    {
        let mut r = CRandomLinux { table: Vec::new(), seed: Ghost(1), drawn: Ghost(0) };
        r.srand(1);
        r
    }

    pub fn srand(&mut self, seed: u32)
        ensures
            final(self).wf(),
            final(self).last_seed() == seed,
            final(self).draws() == 0,
    {
        let s: u32 = if seed == 0 {
            1
        } else {
            seed
        };
        let mut word: i64 = if s < 0x8000_0000 {
            s as i64
        } else {
            s as i64 - 0x1_0000_0000
        };
        let mut table: Vec<u32> = Vec::new();
        table.push(s);
        assert(table@ =~= Seq::new(1, |k: int| glibc_r(seed, k as nat)));
        let mut i: usize = 1;
        while i < 31
            invariant
                1 <= i <= 31,
                word == glibc_init(seed, (i - 1) as nat),
                -0x8000_0000 <= word < 0x8000_0000,
                table@ =~= Seq::new(i as nat, |k: int| glibc_r(seed, k as nat)),
            decreases 31 - i,
        {
            word = schrage_step(word);
            table.push(word as u32);
            assert(table@ =~= Seq::new((i + 1) as nat, |k: int| glibc_r(seed, k as nat)));
            i = i + 1;
        }
        let t0 = table[0];
        table.push(t0);
        let t1 = table[1];
        table.push(t1);
        let t2 = table[2];
        table.push(t2);
        assert(table@ =~= glibc_window(seed, 0));
        let mut j: usize = 0;
        while j < 310
            invariant
                j <= 310,
                table@ == glibc_window(seed, j as nat),
            decreases 310 - j,
        {
            proof {
                lemma_window_step(seed, j as nat);
            }
            let next: u64 = (table[3] as u64 + table[31] as u64) % 0x1_0000_0000;
            table.remove(0);
            table.push(next as u32);
            j = j + 1;
        }
        self.table = table;
        self.seed = Ghost(seed);
        self.drawn = Ghost(0);
    }

    pub fn rand(&mut self) -> (r: u32)
        requires
            old(self).wf(),
        ensures
            final(self).wf(),
            final(self).last_seed() == old(self).last_seed(),
            final(self).draws() == old(self).draws() + 1,
            r == glibc_rand(old(self).last_seed(), old(self).draws()),
            r < 0x8000_0000,
    {
        proof {
            lemma_window_step(self.seed@, self.drawn@ + 310);
        }
        let next: u64 = (self.table[3] as u64 + self.table[31] as u64) % 0x1_0000_0000;
        self.table.remove(0);
        self.table.push(next as u32);
        self.drawn = Ghost(self.drawn@ + 1);
        let n = next as u32;
        assert(n >> 1u32 < 0x8000_0000) by (bit_vector);
        n >> 1u32
    }
}

} // verus!
