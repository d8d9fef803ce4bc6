//! The aribas generator: a 64-bit state of four 16-bit lanes, advanced by a
//! two-pass congruential mixing step that lets carries bleed into a wider field.

use vstd::prelude::*;

use crate::c_rand::{glibc_rand, msvc_rand, CRandomLinux, CRandomWindows};
use crate::limbs::{
    byte_len, clear16, lemma_clear_above, lemma_clear_last_digit, lemma_limbs_bound, limbs_byte_len,
    limbs_is_zero, limbs_rem, limbs_value,
};

verus! {

/// The C runtime whose `rand()` seeds the generator.
#[derive(Clone, Copy, Debug, PartialEq, Eq, Structural)]
pub enum Platform {
    Windows,
    Linux,
}

/// Truncation of an integer to 64 bits.
pub open spec fn wrap64(x: int) -> u64 {
    (x % 0x1_0000_0000_0000_0000) as u64
}

/// Lane `n` (bits `16n .. 16n + 16`) of a state word.
pub open spec fn lane(x: u64, n: u64) -> u64 {
    (x >> (n * 16)) & 0xFFFFu64
}

/// `x` with lane `n` replaced by `w`.
pub open spec fn set_lane(x: u64, n: u64, w: u16) -> u64 {
    (x & !(0xFFFFu64 << (n * 16))) | ((w as u64) << (n * 16))
}

/// `x` with lane 3 forced to 1.
pub open spec fn guard(x: u64) -> u64 {
    set_lane(x, 3, 1)
}

/// One pass of the mixing step: `a` is the new content of the narrow field.
/// If it overflowed the narrow mask, the fields up to the wide mask are replaced.
pub open spec fn mix_pass(state: u64, a: u64, narrow: u64, wide: u64, shift: u64) -> u64 {
    if (a & !narrow) >> shift == 0 {
        wrap64((state & !narrow) + a)
    } else {
        wrap64((state & !wide) + a)
    }
}

/// The mixing step: an additive pass (increment 57777), then a multiplicative
/// pass (scale 56857), then lane 3 forced to 1.
pub open spec fn mix(state: u64, narrow: u64, wide: u64, shift: u64) -> u64 {
    let t1 = mix_pass(state, wrap64((state & narrow) + 57777), narrow, wide, shift);
    let t2 = mix_pass(t1, wrap64((t1 & narrow) * 56857), narrow, wide, shift);
    guard(t2)
}

/// The three-word step: narrow field of 48 bits, wide field of 64 bits.
pub open spec fn step3(state: u64) -> u64 {
    mix(state, 0xFFFF_FFFF_FFFFu64, 0xFFFF_FFFF_FFFF_FFFFu64, 48)
}

/// The two-word step: narrow field of 32 bits, wide field of 48 bits.
pub open spec fn step2(state: u64) -> u64 {
    mix(state, 0xFFFF_FFFFu64, 0xFFFF_FFFF_FFFFu64, 32)
}

/// The first value of the platform's `rand()` after `srand(timestamp)`.
pub open spec fn platform_rand(p: Platform, timestamp: u32) -> u32 {
    match p {
        Platform::Windows => msvc_rand(timestamp, 0),
        Platform::Linux => glibc_rand(timestamp, 0),
    }
}

/// The state after seeding from a timestamp: lane 1, then lane 0, each set to
/// the low 16 bits of the platform's first `rand()` and followed by a three-word step.
pub open spec fn seeded_state(p: Platform, timestamp: u32) -> u64 {
    let w = (platform_rand(p, timestamp) % 0x10000) as u16;
    let s1 = step3(set_lane(0, 1, w));
    let s2 = step3(set_lane(s1, 0, w));
    guard(s2)
}

/// The state after seeding with an explicit 64-bit value.
pub open spec fn explicit_state(seed: u64) -> u64 {
    guard(seed)
}

/// The state after `k` three-word steps from `s`.
pub open spec fn iterate3(s: u64, k: nat) -> u64
    decreases k,
{
    if k == 0 {
        s
    } else {
        step3(iterate3(s, (k - 1) as nat))
    }
}

/// The 32 bits above lane 0 after the `k`-th (from 0) three-word step from `s`.
pub open spec fn draw_word(s: u64, k: nat) -> u32 {
    ((iterate3(s, k + 1) >> 16u64) & 0xFFFF_FFFFu64) as u32
}

/// The first `c` words drawn by three-word steps from `s`, least significant first.
pub open spec fn draw_words(s: u64, c: nat) -> Seq<u32> {
    Seq::new(c, |k: int| draw_word(s, k as nat))
}

/// How many 32-bit words a draw for a modulus of `len` bytes takes:
/// one for every two of its `ceil(len / 2)` 16-bit halves, rounded up.
pub open spec fn word_count(len: nat) -> nat {
    ((len + 1) / 2 + 1) / 2
}

/// The drawn words with the one that holds bit `8 * len`, if any, cleared
/// from that bit on for 16 bits.
pub open spec fn trim_words(ws: Seq<u32>, len: nat) -> Seq<u32> {
    if len % 4 != 0 {
        let q = (len / 4) as int;
        ws.update(q, ws[q] & !(0xFFFFu32 << ((8 * (len % 4)) as u32)))
    } else {
        ws
    }
}

/// The value of a bounded draw with modulus `m` from state `s`.
pub open spec fn draw_value(s: u64, m: nat) -> nat {
    let len = byte_len(m);
    if len <= 2 {
        if m == 0 {
            0
        } else {
            lane(step2(s), 1) as nat % m
        }
    } else {
        clear16(limbs_value(draw_words(s, word_count(len))), 8 * len) % m
    }
}

/// The state after a bounded draw with modulus `m` from state `s`.
pub open spec fn draw_state(s: u64, m: nat) -> u64 {
    let len = byte_len(m);
    if len <= 2 {
        step2(s)
    } else {
        iterate3(s, word_count(len))
    }
}

/// Clearing in the one word that holds bit `8 * len` clears the value's
/// 16 bits from bit `8 * len` on.
proof fn lemma_trim_words(ws: Seq<u32>, len: nat)
    requires
        ws.len() == word_count(len),
    ensures
        limbs_value(trim_words(ws, len)) == clear16(limbs_value(ws), 8 * len),
{
    if len % 4 != 0 {
        assert(ws.len() == len / 4 + 1);
        assert(32 * (ws.len() - 1) + 8 * (len % 4) == 8 * len);
        lemma_clear_last_digit(ws, len % 4);
    } else {
        assert(32 * ws.len() == 8 * len);
        lemma_limbs_bound(ws);
        lemma_clear_above(limbs_value(ws), 8 * len);
    }
}

proof fn lemma_guard_lane3(x: u64)
    ensures
        lane(guard(x), 3) == 1,
        guard(x) == (x & !(0xFFFFu64 << 48u64)) | (1u64 << 48u64),
{
    assert(((((x & !(0xFFFFu64 << 48u64)) | (1u64 << 48u64)) >> 48u64) & 0xFFFFu64) == 1)
        by (bit_vector);
}

fn wrapping_add64(x: u64, y: u64) -> (r: u64)
    ensures
        r == wrap64(x + y),
{
    x.wrapping_add(y)
}

fn wrapping_mul64(x: u64, y: u64) -> (r: u64)
    ensures
        r == wrap64(x * y),
{
    x.wrapping_mul(y)
}

fn mix_pass_exec(state: u64, a: u64, narrow: u64, wide: u64, shift: u8) -> (r: u64)
    requires
        shift < 64,
    ensures
        r == mix_pass(state, a, narrow, wide, shift as u64),
{
    if (a & !narrow) >> (shift as u64) == 0 {
        wrapping_add64(state & !narrow, a)
    } else {
        wrapping_add64(state & !wide, a)
    }
}

/// Seeding from a timestamp leaves lane 3 equal to 1.
pub proof fn lemma_seeded_lane3(p: Platform, timestamp: u32)
    ensures
        lane(seeded_state(p, timestamp), 3) == 1,
{
    let w = (platform_rand(p, timestamp) % 0x10000) as u16;
    lemma_guard_lane3(step3(set_lane(step3(set_lane(0, 1, w)), 0, w)));
}

/// Every mixing step, whatever its masks and shift, leaves lane 3 equal to 1.
pub proof fn lemma_mix_lane3(s: u64, narrow: u64, wide: u64, shift: u64)
    ensures
        lane(mix(s, narrow, wide, shift), 3) == 1,
{
    let t1 = mix_pass(s, wrap64((s & narrow) + 57777), narrow, wide, shift);
    let t2 = mix_pass(t1, wrap64((t1 & narrow) * 56857), narrow, wide, shift);
    lemma_guard_lane3(t2);
}

/// The values of successive bounded draws with the moduli `ms`, from state `s`.
pub open spec fn draw_run(s: u64, ms: Seq<nat>) -> Seq<nat>
    decreases ms.len(),
{
    if ms.len() == 0 {
        Seq::empty()
    } else {
        seq![draw_value(s, ms[0])] + draw_run(draw_state(s, ms[0]), ms.drop_first())
    }
}

/// Seeding from a timestamp forgets whatever state came before: two generators
/// of one platform, seeded with the same timestamp, hold the same state and
/// so return the same values for the same sequence of moduli.
pub proof fn lemma_timestamp_seeding_deterministic(
    a: AribasRandom,
    b: AribasRandom,
    timestamp: u32,
    ms: Seq<nat>,
)
    requires
        a.platform() == b.platform(),
    ensures
        seeded_state(a.platform(), timestamp) == seeded_state(b.platform(), timestamp),
        draw_run(seeded_state(a.platform(), timestamp), ms) == draw_run(
            seeded_state(b.platform(), timestamp),
            ms,
        ),
{
}

/// Seeding with an explicit value keeps its lanes 0 to 2 and sets lane 3 to 1:
/// the state read back is `(seed & !(0xFFFF << 48)) | (1 << 48)`.
pub proof fn lemma_explicit_seed_round_trip(seed: u64)
    ensures
        explicit_state(seed) == (seed & !(0xFFFFu64 << 48u64)) | (1u64 << 48u64),
        lane(explicit_state(seed), 3) == 1,
{
    lemma_guard_lane3(seed);
}

/// The aribas pseudo-random generator.
pub struct AribasRandom {
    rr: u64,
    platform: Platform,
}

impl AribasRandom {
    /// The 64-bit state.
    pub closed spec fn state(&self) -> u64 {
        self.rr
    }

    /// The platform whose `rand()` seeds the generator.
    pub closed spec fn platform(&self) -> Platform {
        self.platform
    }

    pub fn new_linux() -> (r: Self)
        ensures
            r.state() == 0,
            r.platform() == Platform::Linux,
    {
        AribasRandom { rr: 0, platform: Platform::Linux }
    }

    pub fn new_windows() -> (r: Self)
        ensures
            r.state() == 0,
            r.platform() == Platform::Windows,
    {
        AribasRandom { rr: 0, platform: Platform::Windows }
    }

    /// The first value of this platform's `rand()` after `srand(timestamp)`.
    pub fn sysrand_timestamp(&self, timestamp: u32) -> (r: u32)
        ensures
            r == platform_rand(self.platform(), timestamp),
    {
        match self.platform {
            Platform::Windows => {
                let mut r = CRandomWindows::new();
                r.srand(timestamp);
                r.rand()
            },
            Platform::Linux => {
                let mut r = CRandomLinux::new();
                r.srand(timestamp);
                r.rand()
            },
        }
    }

    /// The first value of glibc's `rand()` after `srand(timestamp)`.
    pub fn sysrand_timestamp_linux(timestamp: u32) -> (r: u32)
        ensures
            r == glibc_rand(timestamp, 0),
    {
        let mut r = CRandomLinux::new();
        r.srand(timestamp);
        r.rand()
    }

    fn set_nth_word(&mut self, n: u8, word: u16)
        requires
            n < 4,
        ensures
            final(self).state() == set_lane(old(self).state(), n as u64, word),
            final(self).platform() == old(self).platform(),
    {
        let sh: u64 = (n as u64) * 16;
        self.rr = self.rr & !(0xFFFFu64 << sh);
        self.rr = self.rr | ((word as u64) << sh);
    }

    fn nextrand_mask(&mut self, mask1: u64, mask2: u64, shift: u8)
        requires
            shift < 64,
        ensures
            final(self).state() == mix(old(self).state(), mask1, mask2, shift as u64),
            final(self).platform() == old(self).platform(),
    {
        let inc: u64 = 57777;
        let scale: u64 = 56857;
        let temp: u64 = self.rr;
        let temp = mix_pass_exec(temp, wrapping_add64(temp & mask1, inc), mask1, mask2, shift);
        let temp = mix_pass_exec(temp, wrapping_mul64(temp & mask1, scale), mask1, mask2, shift);
        self.rr = temp;
        self.set_nth_word(3, 1);
    }

    fn nextrand_3(&mut self)
        ensures
            final(self).state() == step3(old(self).state()),
            final(self).platform() == old(self).platform(),
    {
        self.nextrand_mask(0xFFFF_FFFF_FFFFu64, 0xFFFF_FFFF_FFFF_FFFFu64, 48);
    }

    fn nextrand_2(&mut self)
        ensures
            final(self).state() == step2(old(self).state()),
            final(self).platform() == old(self).platform(),
    {
        self.nextrand_mask(0xFFFF_FFFFu64, 0xFFFF_FFFF_FFFFu64, 32);
    }

    fn inirandstate_timestamp(&mut self, timestamp: u32)
        ensures
            final(self).state() == seeded_state(old(self).platform(), timestamp),
            final(self).platform() == old(self).platform(),
    {
        self.rr = 0;
        let w1 = self.sysrand_timestamp(timestamp);
        self.set_nth_word(1, (w1 % 0x10000) as u16);
        self.nextrand_3();
        let w0 = self.sysrand_timestamp(timestamp);
        self.set_nth_word(0, (w0 % 0x10000) as u16);
        self.nextrand_3();
        self.set_nth_word(3, 1);
    }

    /// Advances the state and returns a value below `m` (zero when `m` is zero),
    /// both as little-endian base-2^32 digits. A modulus of at most two bytes
    /// takes one two-word step; a larger one takes a three-word step for
    /// each 32-bit word of the result.
    pub fn random(&mut self, m: &Vec<u32>) -> (r: Vec<u32>)
        ensures
            final(self).state() == draw_state(old(self).state(), limbs_value(m@)),
            limbs_value(r@) == draw_value(old(self).state(), limbs_value(m@)),
            limbs_value(m@) > 0 ==> limbs_value(r@) < limbs_value(m@),
            limbs_value(m@) == 0 ==> limbs_value(r@) == 0,
            lane(final(self).state(), 3) == 1,
            final(self).platform() == old(self).platform(),
    {
        let ghost s0 = self.rr;
        let len = limbs_byte_len(m);
        if len <= 2 {
            self.nextrand_2();
            proof {
                lemma_mix_lane3(s0, 0xFFFF_FFFFu64, 0xFFFF_FFFF_FFFFu64, 32);
            }
            if limbs_is_zero(m) {
                return Vec::new();
            }
            let rr = self.rr;
            assert((rr >> 16u64) & 0xFFFFu64 <= 0xFFFF) by (bit_vector);
            let w = ((rr >> 16) & 0xFFFF) as u32;
            assert(w as u64 == lane(rr, 1));
            let x = vec![w];
            proof {
                assert(x@ =~= seq![w]);
                crate::limbs::lemma_limbs_single(w);
                assert(limbs_value(x@) == w as nat);
            }
            return limbs_rem(&x, m);
        }
        let len16: usize = len / 2 + len % 2;
        let mut ws: Vec<u32> = Vec::new();
        let mut i: usize = 0;
        while i < len16
            invariant
                i % 2 == 0,
                i <= len16 + 1,
                len16 == (len + 1) / 2,
                ws@ =~= draw_words(s0, (i / 2) as nat),
                self.rr == iterate3(s0, (i / 2) as nat),
                self.platform == old(self).platform,
            decreases len16 + 1 - i,
        {
            self.nextrand_3();
            let rr = self.rr;
            assert((rr >> 16u64) & 0xFFFF_FFFFu64 <= 0xFFFF_FFFF) by (bit_vector);
            let dword = ((rr >> 16) & 0xFFFF_FFFF) as u32;
            ws.push(dword);
            i = i + 2;
            assert(ws@ =~= draw_words(s0, (i / 2) as nat));
        }
        assert(i / 2 == word_count(len as nat));
        proof {
            lemma_mix_lane3(
                iterate3(s0, (i / 2 - 1) as nat),
                0xFFFF_FFFF_FFFFu64,
                0xFFFF_FFFF_FFFF_FFFFu64,
                48,
            );
        }
        if len % 4 != 0 {
            let q = len / 4;
            let o: u32 = ((len % 4) * 8) as u32;
            let v = ws[q] & !(0xFFFFu32 << o);
            ws.set(q, v);
        }
        assert(ws@ =~= trim_words(draw_words(s0, word_count(len as nat)), len as nat));
        proof {
            lemma_trim_words(draw_words(s0, word_count(len as nat)), len as nat);
        }
        limbs_rem(&ws, m)
    }

    /// The raw 64-bit state.
    pub fn get_current_seed(&self) -> (r: u64)
        ensures
            r == self.state(),
    {
        self.rr
    }

    /// Sets the state to `seed` with lane 3 forced to 1, and returns the new state.
    pub fn random_seed(&mut self, seed: u64) -> (r: u64)
        ensures
            r == final(self).state(),
            r == explicit_state(seed),
            r == (seed & !(0xFFFFu64 << 48u64)) | (1u64 << 48u64),
            lane(r, 3) == 1,
            final(self).platform() == old(self).platform(),
    {
        self.rr = seed;
        self.set_nth_word(3, 1);
        proof {
            lemma_guard_lane3(seed);
        }
        self.rr
    }

    /// Seeds the state from a timestamp through the platform's `rand()`, and
    /// returns the new state.
    pub fn random_seed_by_timestamp(&mut self, timestamp: u32) -> (r: u64)
        ensures
            r == final(self).state(),
            r == seeded_state(old(self).platform(), timestamp),
            lane(r, 3) == 1,
            final(self).platform() == old(self).platform(),
    {
        self.inirandstate_timestamp(timestamp);
        proof {
            lemma_seeded_lane3(self.platform, timestamp);
        }
        self.rr
    }
}

} // verus!
