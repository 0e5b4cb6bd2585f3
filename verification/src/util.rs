use vstd::prelude::*;
use vstd::wrapping::u64_specs;

verus! {

/// The golden-ratio increment that drives the splitmix64 counter.
pub const SPLITMIX64_GAMMA: u64 = 0x9e37_79b9_7f4a_7c15;

/// Mathematical value of the murmur finalizer: three xor-shift rounds
/// interleaved with two wrapping multiplications by fixed constants.
pub open spec fn spec_murmur64(h: u64) -> u64 {
    let a = h ^ (h >> 33);
    let b = u64_specs::wrapping_mul(a, 0xff51_afd7_ed55_8ccd);
    let c = b ^ (b >> 33);
    let d = u64_specs::wrapping_mul(c, 0xc4ce_b9fe_1a85_ec53);
    d ^ (d >> 33)
}

/// Avalanche finalizer taken from MurmurHash3.
pub fn murmur64(h: u64) -> (r: u64)
    ensures
        r == spec_murmur64(h),
{
    let a: u64 = h ^ (h >> 33);
    let b: u64 = a.wrapping_mul(0xff51_afd7_ed55_8ccd);
    let c: u64 = b ^ (b >> 33);
    let d: u64 = c.wrapping_mul(0xc4ce_b9fe_1a85_ec53);
    d ^ (d >> 33)
}

/// The counter value after one splitmix64 step.
pub open spec fn spec_splitmix_counter(c: u64) -> u64 {
    u64_specs::wrapping_add(c, SPLITMIX64_GAMMA)
}

/// The number drawn by one splitmix64 step from counter `c`.
pub open spec fn spec_splitmix_value(c: u64) -> u64 {
    let z0 = spec_splitmix_counter(c);
    let z1 = u64_specs::wrapping_mul(z0 ^ (z0 >> 30), 0xbf58_476d_1ce4_e5b9);
    let z2 = u64_specs::wrapping_mul(z1 ^ (z1 >> 27), 0x94d0_49bb_1331_11eb);
    z2 ^ (z2 >> 31)
}

/// Returns a random number and advances the seed, so that drawing again
/// continues the same deterministic sequence.
pub fn splitmix64(seed: &mut u64) -> (r: u64)
    ensures
        *final(seed) == spec_splitmix_counter(*old(seed)),
        r == spec_splitmix_value(*old(seed)),
{
    *seed = seed.wrapping_add(SPLITMIX64_GAMMA);
    let z0: u64 = *seed;
    let z1: u64 = (z0 ^ (z0 >> 30)).wrapping_mul(0xbf58_476d_1ce4_e5b9);
    let z2: u64 = (z1 ^ (z1 >> 27)).wrapping_mul(0x94d0_49bb_1331_11eb);
    z2 ^ (z2 >> 31)
}

/// The splitmix64 counter after `k` draws, starting from 1; construction
/// shares one such counter across all of its attempts.
pub open spec fn spec_counter_after(k: nat) -> u64
    decreases k,
{
    if k == 0 {
        1
    } else {
        spec_splitmix_counter(spec_counter_after((k - 1) as nat))
    }
}

/// The per-key, per-attempt hash: the murmur finalizer applied to the key
/// shifted by the seed (with wrapping addition).
pub open spec fn spec_mixsplit(key: u64, seed: u64) -> u64 {
    spec_murmur64(u64_specs::wrapping_add(key, seed))
}

pub fn mixsplit(key: u64, seed: u64) -> (r: u64)
    ensures
        r == spec_mixsplit(key, seed),
{
    murmur64(key.wrapping_add(seed))
}

/// Bitwise left rotation of `n` by `c` positions, with `c` taken modulo 64;
/// a negative `c` rotates right by the same amount.
pub open spec fn spec_rotl64(n: u64, c: i64) -> u64 {
    let s = (c & 63) as u64;
    let t = ((64 - s) as u64) & 63;
    (n << s) | (n >> t)
}

pub fn rotl64(n: u64, c: i64) -> (r: u64)
    ensures
        r == spec_rotl64(n, c),
{
    proof {
        assert(0 <= (c & 63) && (c & 63) <= 63) by (bit_vector);
    }
    let s: u64 = (c & 63) as u64;
    let d: u64 = 64 - s;
    let t: u64 = d & 63;
    proof {
        assert(d & 63 < 64) by (bit_vector);
    }
    (n << s) | (n >> t)
}

/// Lemire's multiply-shift trick: maps a 32-bit value uniformly into
/// `[0, n)` without a division.
pub open spec fn spec_reduce(hash: u32, n: u32) -> u32 {
    (((hash as int) * (n as int)) / 0x1_0000_0000) as u32
}

/// The reduction always lands strictly below `n` when `n` is positive.
pub proof fn lemma_reduce_bound(hash: u32, n: u32)
    requires
        n > 0,
    ensures
        spec_reduce(hash, n) < n,
{
    assert((hash as int) * (n as int) / 0x1_0000_0000 < n as int) by (nonlinear_arith)
        requires
            hash <= 0xffff_ffff,
            n >= 1,
    ;
}

pub fn reduce(hash: u32, n: u32) -> (r: u32)
    ensures
        r == spec_reduce(hash, n),
        n > 0 ==> r < n,
{
    let h: u64 = hash as u64;
    let p: u64 = h.wrapping_mul(n as u64);
    proof {
        assert((hash as int) * (n as int) < 0x1_0000_0000_0000_0000) by (nonlinear_arith)
            requires
                hash <= 0xffff_ffff,
                n <= 0xffff_ffff,
        ;
        assert(p == (hash as int) * (n as int));
        assert(p >> 32 == p / 0x1_0000_0000) by (bit_vector);
        if n > 0 {
            lemma_reduce_bound(hash, n);
        }
    }
    (p >> 32) as u32
}

/// The full 64-bit fingerprint of a mixed hash: the hash folded onto its
/// own upper half.
pub open spec fn spec_fingerprint(hash: u64) -> u64 {
    hash ^ (hash >> 32)
}

pub fn fingerprint(hash: u64) -> (r: u64)
    ensures
        r == spec_fingerprint(hash),
{
    hash ^ (hash >> 32)
}

/// The 8-bit fingerprint actually stored in the table.
pub open spec fn spec_fingerprint_byte(hash: u64) -> u8 {
    (spec_fingerprint(hash) % 0x100) as u8
}

pub fn fingerprint_byte(hash: u64) -> (r: u8)
    ensures
        r == spec_fingerprint_byte(hash),
{
    let f: u64 = fingerprint(hash);
    proof {
        assert(f & 0xff == f % 0x100) by (bit_vector);
    }
    (f & 0xff) as u8
}

/// The low 32 bits of a 64-bit hash.
pub open spec fn spec_low32(h: u64) -> u32 {
    (h % 0x1_0000_0000) as u32
}

pub fn low32(h: u64) -> (r: u32)
    ensures
        r == spec_low32(h),
{
    proof {
        assert(h & 0xffff_ffff == h % 0x1_0000_0000) by (bit_vector);
    }
    (h & 0xffff_ffff) as u32
}

} // verus!
