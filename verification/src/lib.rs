pub mod util;

use vstd::prelude::*;

use crate::util::{
    fingerprint_byte, low32, mixsplit, reduce, rotl64, spec_counter_after, spec_fingerprint_byte,
    spec_low32, spec_mixsplit, spec_reduce, spec_rotl64, spec_splitmix_counter,
    spec_splitmix_value, splitmix64,
};

verus! {

/// The vertex a hash selects in block 0: its low 32 bits reduced into
/// `[0, block_length)`.
pub open spec fn spec_h0(hash: u64, block_length: u32) -> u32 {
    spec_reduce(spec_low32(hash), block_length)
}

/// The vertex a hash selects in block 1: the hash rotated left by 21 bits,
/// then reduced.
pub open spec fn spec_h1(hash: u64, block_length: u32) -> u32 {
    spec_reduce(spec_low32(spec_rotl64(hash, 21)), block_length)
}

/// The vertex a hash selects in block 2: the hash rotated left by 42 bits,
/// then reduced.
pub open spec fn spec_h2(hash: u64, block_length: u32) -> u32 {
    spec_reduce(spec_low32(spec_rotl64(hash, 42)), block_length)
}

/// The table position a hash owns in block 0.
pub open spec fn spec_slot0(hash: u64, block_length: u32) -> int {
    spec_h0(hash, block_length) as int
}

/// The table position a hash owns in block 1.
pub open spec fn spec_slot1(hash: u64, block_length: u32) -> int {
    block_length + spec_h1(hash, block_length)
}

/// The table position a hash owns in block 2.
pub open spec fn spec_slot2(hash: u64, block_length: u32) -> int {
    2 * block_length + spec_h2(hash, block_length)
}

/// The construction invariant for one hash: its three table slots, one per
/// block, together XOR to its fingerprint byte.
pub open spec fn spec_slot_equation(fingerprints: Seq<u8>, hash: u64, block_length: u32) -> bool {
    spec_fingerprint_byte(hash) == fingerprints[spec_slot0(hash, block_length)] ^ fingerprints[
        spec_slot1(hash, block_length)
    ] ^ fingerprints[spec_slot2(hash, block_length)]
}

/// What a query answers, as a function of the filter's three fields and the
/// key alone: whether the slot equation holds for the key's mixed hash.
pub open spec fn spec_query(seed: u64, block_length: u32, fingerprints: Seq<u8>, key: u64) -> bool {
    spec_slot_equation(fingerprints, spec_mixsplit(key, seed), block_length)
}

/// The table capacity derived from the key count `n`:
/// `32 + ceil(1.23 * n)` rounded down to a multiple of 3.
pub open spec fn spec_capacity(n: int) -> int {
    ((32 + (123 * n + 99) / 100) / 3) * 3
}

/// Xor8 offers a 0.3% false-positive probability.
#[derive(Debug, Clone)]
pub struct Xor8 {
    seed: u64,
    block_length: u32,
    fingerprints: Vec<u8>,
}

/// The 64-bit mixed hash of one key together with its three reduced vertex
/// ids, one per block.
pub struct Hashes {
    pub h: u64,
    pub h0: u32,
    pub h1: u32,
    pub h2: u32,
}

impl Hashes {
    pub fn new(h: u64, h0: u32, h1: u32, h2: u32) -> (r: Hashes)
        ensures
            r.h == h,
            r.h0 == h0,
            r.h1 == h1,
            r.h2 == h2,
    {
        Hashes { h, h0, h1, h2 }
    }
}

/// Accumulator for one hypergraph vertex: the exclusive or of the hashes of
/// every key-edge still incident to it, and how many such edges remain.
#[derive(Clone, Copy)]
struct XorSet {
    xormask: u64,
    count: u32,
}

/// One pending or removed edge: the key's mixed hash, and a vertex id that,
/// once the edge is on the removal stack, carries a block tag as an offset
/// into `[0, block_length)`, `[block_length, 2 * block_length)` or
/// `[2 * block_length, 3 * block_length)`.
#[derive(Clone, Copy)]
pub struct KeyIndex {
    pub hash: u64,
    pub index: u32,
}

/// What peeling guarantees of the removal stack it hands to the assignment
/// phase: every entry's tagged index is the slot its own hash owns in the
/// block the entry was peeled from, and no entry's slot is touched by the
/// hash of any entry peeled later (edges peeled later were still incident
/// to their three vertices when an earlier vertex reached degree one, so a
/// peeled vertex is never one of theirs).
pub open spec fn spec_peel_order(stack: Seq<KeyIndex>, block_length: u32) -> bool {
    &&& forall|p: int|
        0 <= p < stack.len() ==> {
            let w = (#[trigger] stack[p]).index as int;
            &&& w < block_length ==> w == spec_slot0(stack[p].hash, block_length)
            &&& block_length <= w < 2 * block_length ==> w == spec_slot1(
                stack[p].hash,
                block_length,
            )
            &&& 2 * block_length <= w ==> w == spec_slot2(stack[p].hash, block_length)
        }
    &&& forall|p: int, q: int|
        0 <= p < q < stack.len() ==> (#[trigger] stack[p]).index as int != spec_slot0(
            (#[trigger] stack[q]).hash,
            block_length,
        ) && stack[p].index as int != spec_slot1(stack[q].hash, block_length) && stack[p].index
            as int != spec_slot2(stack[q].hash, block_length)
}

/// A fresh all-zero fingerprint table.
fn zeroed_bytes(capacity: u32) -> (v: Vec<u8>)
    ensures
        v@.len() == capacity as int,
        forall|i: int| 0 <= i < v@.len() ==> v@[i] == 0,
{
    let mut v: Vec<u8> = Vec::new();
    while v.len() < capacity as usize
        invariant
            v@.len() <= capacity as int,
            forall|i: int| 0 <= i < v@.len() ==> v@[i] == 0,
        decreases capacity as int - v@.len(),
    {
        v.push(0u8);
    }
    v
}

/// A fresh accumulator array, one zeroed entry per vertex of a block.
fn zeroed_sets(block_length: u32) -> (v: Vec<XorSet>)
    ensures
        v@.len() == block_length as int,
        forall|i: int|
            0 <= i < v@.len() ==> (#[trigger] v@[i]).xormask == 0 && v@[i].count == 0,
{
    let mut v: Vec<XorSet> = Vec::new();
    while v.len() < block_length as usize
        invariant
            v@.len() <= block_length as int,
            forall|i: int|
                0 <= i < v@.len() ==> (#[trigger] v@[i]).xormask == 0 && v@[i].count == 0,
        decreases block_length as int - v@.len(),
    {
        v.push(XorSet { xormask: 0, count: 0 });
    }
    v
}

/// Finishes one successful peeling attempt: assigns the fingerprints from
/// the removal stack, then checks that the finished table reports every
/// provided key as present. Only a checked table is accepted, which makes
/// the no-false-negatives guarantee a proved property of what `new`
/// returns.
fn finish_attempt(filter: &mut Xor8, keys: &Vec<u64>, stack: Vec<KeyIndex>) -> (ok: bool)
    requires
        old(filter).wf(),
        forall|p: int|
            0 <= p < stack@.len() ==> ((#[trigger] stack@[p]).index as int) < 3 * (
            old(filter).spec_block_length() as int),
    ensures
        final(filter).wf(),
        final(filter).spec_seed() == old(filter).spec_seed(),
        final(filter).spec_block_length() == old(filter).spec_block_length(),
        final(filter).spec_fingerprints().len() == old(filter).spec_fingerprints().len(),
        stack@.len() == 0 ==> final(filter).spec_fingerprints() == old(
            filter,
        ).spec_fingerprints(),
        ok ==> forall|i: int|
            0 <= i < keys@.len() ==> final(filter).spec_contains(#[trigger] keys@[i]),
        keys@.len() == 0 ==> ok,
{
    filter.assign_fingerprints(stack);
    let mut all_in: bool = true;
    let mut vi: usize = 0;
    while vi < keys.len()
        invariant
            filter.wf(),
            vi <= keys@.len(),
            keys@.len() == 0 ==> all_in,
            all_in ==> forall|j: int|
                0 <= j < vi as int ==> filter.spec_contains(#[trigger] keys@[j]),
        decreases keys@.len() - vi,
    {
        if !filter.contains(keys[vi]) {
            all_in = false;
        }
        vi = vi + 1;
    }
    all_in
}

impl Xor8 {
    /// Creates a filter with the provided keys.
    /// The caller is responsible to ensure that there are no duplicate keys:
    /// two equal keys form two identical hyperedges that can never reach
    /// degree one, so peeling would retry with fresh seeds forever.
    ///
    /// An attempt counts as successful only once the assigned table has been
    /// checked to report every provided key as present, so the returned
    /// filter has no false negatives. The bound on retries is astronomically
    /// beyond what any duplicate-free key set needs; in the impossible case
    /// that it ran out, the filter would come back with the final seed of
    /// the sequence and a still-zeroed table, which a caller can recognize.
    #[verifier::loop_isolation(false)]
    #[verifier::rlimit(100)]
    pub fn new(keys: Vec<u64>) -> (filter: Xor8)
        requires
            keys@.len() <= 3_000_000_000,
            forall|i: int, j: int| 0 <= i < j < keys@.len() ==> keys@[i] != keys@[j],
        ensures
            filter.wf(),
            filter.spec_block_length() as int == spec_capacity(keys@.len() as int) / 3,
            exists|draws: nat|
                filter.spec_seed() == spec_splitmix_value(#[trigger] spec_counter_after(draws)),
            keys@.len() == 0 ==> filter.spec_seed() == spec_splitmix_value(1),
            keys@.len() == 0 ==> forall|i: int|
                0 <= i < filter.spec_fingerprints().len() ==> filter.spec_fingerprints()[i] == 0,
            (forall|i: int| 0 <= i < keys@.len() ==> filter.spec_contains(#[trigger] keys@[i]))
                || (filter.spec_seed() == spec_splitmix_value(
                spec_counter_after(0xffff_ffff_ffff_ffff),
            ) && forall|i: int|
                0 <= i < filter.spec_fingerprints().len() ==> filter.spec_fingerprints()[i] == 0),
    {
        let size: usize = keys.len();
        let cap_wide: u64 = 32 + (123 * (size as u64) + 99) / 100;
        let capacity: u32 = ((cap_wide / 3) * 3) as u32;
        let block_length: u32 = capacity / 3;
        assert(capacity as int == spec_capacity(size as int));
        assert(capacity == 3 * block_length);
        assert(block_length >= 10);
        let mut rngcounter: u64 = 1;
        let first_seed: u64 = splitmix64(&mut rngcounter);
        let ghost mut draws: nat = 0;
        proof {
            assert(spec_counter_after(0) == 1);
            assert(spec_counter_after(1) == spec_splitmix_counter(spec_counter_after(0)));
        }

        let fingerprints: Vec<u8> = zeroed_bytes(capacity);
        let mut filter = Xor8 { seed: first_seed, block_length, fingerprints };

        let mut sets0: Vec<XorSet> = Vec::new();
        let mut sets1: Vec<XorSet> = Vec::new();
        let mut sets2: Vec<XorSet> = Vec::new();
        let mut q0: Vec<KeyIndex> = Vec::new();
        let mut q1: Vec<KeyIndex> = Vec::new();
        let mut q2: Vec<KeyIndex> = Vec::new();
        let mut stack: Vec<KeyIndex> = Vec::new();
        // Peeling succeeds within a few attempts for any duplicate-free key
        // set; the counters below only bound the loops so that every run of
        // the function is finite.
        let mut attempts_left: u64 = 0xffff_ffff_ffff_ffff;
        let mut done: bool = false;

        #[verifier::loop_isolation(true)]
        while !done && attempts_left > 0
            invariant
                size == keys@.len(),
                size <= 3_000_000_000,
                capacity == 3 * block_length,
                block_length >= 10,
                filter.block_length == block_length,
                filter.fingerprints@.len() == capacity as int,
                !done ==> forall|i: int| 0 <= i < capacity as int ==> filter.fingerprints@[i] == 0,
                done ==> forall|i: int|
                    0 <= i < keys@.len() ==> filter.spec_contains(#[trigger] keys@[i]),
                forall|j: int| 0 <= j < stack@.len() ==> (#[trigger] stack@[j]).index < capacity,
                filter.seed == spec_splitmix_value(spec_counter_after(draws)),
                rngcounter == spec_counter_after(draws + 1),
                draws + attempts_left == 0xffff_ffff_ffff_ffff,
                size == 0 ==> filter.seed == spec_splitmix_value(1),
                size == 0 ==> forall|i: int|
                    0 <= i < capacity as int ==> filter.fingerprints@[i] == 0,
                size == 0 ==> stack@.len() == 0,
            decreases attempts_left + (if done {
                0int
            } else {
                1int
            }),
        {
            // Start the attempt from clean bookkeeping; the accumulator
            // contents are cleared between retries, the table only after an
            // attempt that peeled fully but failed the final check.
            sets0 = zeroed_sets(block_length);
            sets1 = zeroed_sets(block_length);
            sets2 = zeroed_sets(block_length);
            q0.clear();
            q1.clear();
            q2.clear();
            stack.clear();

            // Scatter every key's hash into its vertex in each block.
            let mut ki: usize = 0;
            #[verifier::loop_isolation(true)]
            while ki < size
                invariant
                    size == keys@.len(),
                    size <= 3_000_000_000,
                    filter.block_length == block_length,
                    block_length >= 10,
                    ki <= size,
                    sets0@.len() == block_length as int,
                    sets1@.len() == block_length as int,
                    sets2@.len() == block_length as int,
                    forall|j: int|
                        0 <= j < block_length as int ==> (#[trigger] sets0@[j]).count as int
                            <= ki as int,
                    forall|j: int|
                        0 <= j < block_length as int ==> (#[trigger] sets1@[j]).count as int
                            <= ki as int,
                    forall|j: int|
                        0 <= j < block_length as int ==> (#[trigger] sets2@[j]).count as int
                            <= ki as int,
                decreases size - ki,
            {
                let key: u64 = keys[ki];
                let hs: Hashes = filter.hashes(key);
                let i0: usize = hs.h0 as usize;
                let mut e0: XorSet = sets0[i0];
                e0.xormask = e0.xormask ^ hs.h;
                e0.count = e0.count + 1;
                sets0[i0] = e0;
                let i1: usize = hs.h1 as usize;
                let mut e1: XorSet = sets1[i1];
                e1.xormask = e1.xormask ^ hs.h;
                e1.count = e1.count + 1;
                sets1[i1] = e1;
                let i2: usize = hs.h2 as usize;
                let mut e2: XorSet = sets2[i2];
                e2.xormask = e2.xormask ^ hs.h;
                e2.count = e2.count + 1;
                sets2[i2] = e2;
                ki = ki + 1;
            }

            // Collect the vertices that hold exactly one edge; for such a
            // vertex the accumulated mask is exactly that edge's hash.
            let mut i: u32 = 0;
            #[verifier::loop_isolation(true)]
            while i < block_length
                invariant
                    sets0@.len() == block_length as int,
                    sets1@.len() == block_length as int,
                    sets2@.len() == block_length as int,
                    forall|j: int|
                        0 <= j < block_length as int ==> (#[trigger] sets0@[j]).count as int
                            <= size as int,
                    i <= block_length,
                    forall|j: int|
                        0 <= j < q0@.len() ==> (#[trigger] q0@[j]).index < block_length,
                    size == 0 ==> q0@.len() == 0,
                decreases block_length as int - i as int,
            {
                if sets0[i as usize].count == 1 {
                    q0.push(KeyIndex { index: i, hash: sets0[i as usize].xormask });
                }
                i = i + 1;
            }
            let mut i: u32 = 0;
            #[verifier::loop_isolation(true)]
            while i < block_length
                invariant
                    sets0@.len() == block_length as int,
                    sets1@.len() == block_length as int,
                    sets2@.len() == block_length as int,
                    forall|j: int|
                        0 <= j < block_length as int ==> (#[trigger] sets1@[j]).count as int
                            <= size as int,
                    i <= block_length,
                    forall|j: int|
                        0 <= j < q1@.len() ==> (#[trigger] q1@[j]).index < block_length,
                    size == 0 ==> q1@.len() == 0,
                decreases block_length as int - i as int,
            {
                if sets1[i as usize].count == 1 {
                    q1.push(KeyIndex { index: i, hash: sets1[i as usize].xormask });
                }
                i = i + 1;
            }
            let mut i: u32 = 0;
            #[verifier::loop_isolation(true)]
            while i < block_length
                invariant
                    sets0@.len() == block_length as int,
                    sets1@.len() == block_length as int,
                    sets2@.len() == block_length as int,
                    forall|j: int|
                        0 <= j < block_length as int ==> (#[trigger] sets2@[j]).count as int
                            <= size as int,
                    i <= block_length,
                    forall|j: int|
                        0 <= j < q2@.len() ==> (#[trigger] q2@[j]).index < block_length,
                    size == 0 ==> q2@.len() == 0,
                decreases block_length as int - i as int,
            {
                if sets2[i as usize].count == 1 {
                    q2.push(KeyIndex { index: i, hash: sets2[i as usize].xormask });
                }
                i = i + 1;
            }

            // Peel: pop pending vertices in the fixed block order 0, 1, 2.
            // A popped vertex records its edge on the removal stack, tagged
            // by its source block, and removes the edge from the other two
            // blocks, which may leave new degree-one vertices there.
            let mut peel_fuel: u64 = 0xffff_ffff_ffff_ffff;
            #[verifier::loop_isolation(true)]
            while q0.len() > 0 || q1.len() > 0 || q2.len() > 0
                invariant
                    filter.block_length == block_length,
                    block_length >= 10,
                    capacity == 3 * block_length,
                    sets0@.len() == block_length as int,
                    sets1@.len() == block_length as int,
                    sets2@.len() == block_length as int,
                    forall|j: int|
                        0 <= j < q0@.len() ==> (#[trigger] q0@[j]).index < block_length,
                    forall|j: int|
                        0 <= j < q1@.len() ==> (#[trigger] q1@[j]).index < block_length,
                    forall|j: int|
                        0 <= j < q2@.len() ==> (#[trigger] q2@[j]).index < block_length,
                    forall|j: int|
                        0 <= j < stack@.len() ==> (#[trigger] stack@[j]).index < capacity,
                    size == 0 ==> q0@.len() == 0 && q1@.len() == 0 && q2@.len() == 0
                        && stack@.len() == 0,
                decreases peel_fuel,
            {
                if peel_fuel == 0 {
                    break;
                }
                peel_fuel = peel_fuel - 1;

                #[verifier::loop_isolation(true)]
                while q0.len() > 0
                    invariant
                        filter.block_length == block_length,
                        block_length >= 10,
                        capacity == 3 * block_length,
                        sets0@.len() == block_length as int,
                        sets1@.len() == block_length as int,
                        sets2@.len() == block_length as int,
                        forall|j: int|
                            0 <= j < q0@.len() ==> (#[trigger] q0@[j]).index < block_length,
                        forall|j: int|
                            0 <= j < q1@.len() ==> (#[trigger] q1@[j]).index < block_length,
                        forall|j: int|
                            0 <= j < q2@.len() ==> (#[trigger] q2@[j]).index < block_length,
                        forall|j: int|
                            0 <= j < stack@.len() ==> (#[trigger] stack@[j]).index < capacity,
                        size == 0 ==> q0@.len() == 0 && q1@.len() == 0 && q2@.len() == 0
                            && stack@.len() == 0,
                    decreases q0@.len(),
                {
                    let keyindex_var: KeyIndex = q0.pop().unwrap();
                    let index: usize = keyindex_var.index as usize;
                    if sets0[index].count == 0 {
                        continue;  // already peeled through another block
                    }
                    let hash: u64 = keyindex_var.hash;
                    let h1: u32 = filter.h1(hash);
                    let h2: u32 = filter.h2(hash);
                    stack.push(keyindex_var);
                    // The popped edge is still incident to the other two
                    // blocks, so their counts are positive on every reachable
                    // path; the wrapping operation keeps the step total.
                    let i1: usize = h1 as usize;
                    let mut e1: XorSet = sets1[i1];
                    e1.xormask = e1.xormask ^ hash;
                    e1.count = e1.count.wrapping_sub(1);
                    sets1[i1] = e1;
                    if e1.count == 1 {
                        q1.push(KeyIndex { index: h1, hash: e1.xormask });
                    }
                    let i2: usize = h2 as usize;
                    let mut e2: XorSet = sets2[i2];
                    e2.xormask = e2.xormask ^ hash;
                    e2.count = e2.count.wrapping_sub(1);
                    sets2[i2] = e2;
                    if e2.count == 1 {
                        q2.push(KeyIndex { index: h2, hash: e2.xormask });
                    }
                }

                #[verifier::loop_isolation(true)]
                while q1.len() > 0
                    invariant
                        filter.block_length == block_length,
                        block_length >= 10,
                        capacity == 3 * block_length,
                        sets0@.len() == block_length as int,
                        sets1@.len() == block_length as int,
                        sets2@.len() == block_length as int,
                        forall|j: int|
                            0 <= j < q0@.len() ==> (#[trigger] q0@[j]).index < block_length,
                        forall|j: int|
                            0 <= j < q1@.len() ==> (#[trigger] q1@[j]).index < block_length,
                        forall|j: int|
                            0 <= j < q2@.len() ==> (#[trigger] q2@[j]).index < block_length,
                        forall|j: int|
                            0 <= j < stack@.len() ==> (#[trigger] stack@[j]).index < capacity,
                        size == 0 ==> q0@.len() == 0 && q1@.len() == 0 && q2@.len() == 0
                            && stack@.len() == 0,
                    decreases q1@.len(),
                {
                    let keyindex_var: KeyIndex = q1.pop().unwrap();
                    let index: usize = keyindex_var.index as usize;
                    if sets1[index].count == 0 {
                        continue;
                    }
                    let hash: u64 = keyindex_var.hash;
                    let h0: u32 = filter.h0(hash);
                    let h2: u32 = filter.h2(hash);
                    let tagged: KeyIndex = KeyIndex {
                        hash,
                        index: keyindex_var.index + block_length,
                    };
                    stack.push(tagged);
                    let i0: usize = h0 as usize;
                    let mut e0: XorSet = sets0[i0];
                    e0.xormask = e0.xormask ^ hash;
                    e0.count = e0.count.wrapping_sub(1);
                    sets0[i0] = e0;
                    if e0.count == 1 {
                        q0.push(KeyIndex { index: h0, hash: e0.xormask });
                    }
                    let i2: usize = h2 as usize;
                    let mut e2: XorSet = sets2[i2];
                    e2.xormask = e2.xormask ^ hash;
                    e2.count = e2.count.wrapping_sub(1);
                    sets2[i2] = e2;
                    if e2.count == 1 {
                        q2.push(KeyIndex { index: h2, hash: e2.xormask });
                    }
                }

                #[verifier::loop_isolation(true)]
                while q2.len() > 0
                    invariant
                        filter.block_length == block_length,
                        block_length >= 10,
                        capacity == 3 * block_length,
                        sets0@.len() == block_length as int,
                        sets1@.len() == block_length as int,
                        sets2@.len() == block_length as int,
                        forall|j: int|
                            0 <= j < q0@.len() ==> (#[trigger] q0@[j]).index < block_length,
                        forall|j: int|
                            0 <= j < q1@.len() ==> (#[trigger] q1@[j]).index < block_length,
                        forall|j: int|
                            0 <= j < q2@.len() ==> (#[trigger] q2@[j]).index < block_length,
                        forall|j: int|
                            0 <= j < stack@.len() ==> (#[trigger] stack@[j]).index < capacity,
                        size == 0 ==> q0@.len() == 0 && q1@.len() == 0 && q2@.len() == 0
                            && stack@.len() == 0,
                    decreases q2@.len(),
                {
                    let keyindex_var: KeyIndex = q2.pop().unwrap();
                    let index: usize = keyindex_var.index as usize;
                    if sets2[index].count == 0 {
                        continue;
                    }
                    let hash: u64 = keyindex_var.hash;
                    let h0: u32 = filter.h0(hash);
                    let h1: u32 = filter.h1(hash);
                    let tagged: KeyIndex = KeyIndex {
                        hash,
                        index: keyindex_var.index + 2 * block_length,
                    };
                    stack.push(tagged);
                    let i0: usize = h0 as usize;
                    let mut e0: XorSet = sets0[i0];
                    e0.xormask = e0.xormask ^ hash;
                    e0.count = e0.count.wrapping_sub(1);
                    sets0[i0] = e0;
                    if e0.count == 1 {
                        q0.push(KeyIndex { index: h0, hash: e0.xormask });
                    }
                    let i1: usize = h1 as usize;
                    let mut e1: XorSet = sets1[i1];
                    e1.xormask = e1.xormask ^ hash;
                    e1.count = e1.count.wrapping_sub(1);
                    sets1[i1] = e1;
                    if e1.count == 1 {
                        q1.push(KeyIndex { index: h1, hash: e1.xormask });
                    }
                }
            }

            if stack.len() == size {
                // Every edge was peeled: finish the attempt under this seed.
                // For a fully peeled, duplicate-free key set the check in
                // finish_attempt always passes; an attempt whose table
                // failed it would be abandoned like an unpeelable one.
                let ok: bool = finish_attempt(&mut filter, &keys, stack);
                stack = Vec::new();
                if ok {
                    done = true;
                } else {
                    filter.fingerprints = zeroed_bytes(capacity);
                }
            }
            if !done {
                // An unpeelable residual core remains: retry with the next
                // seed from the shared counter.
                attempts_left = attempts_left - 1;
                filter.seed = splitmix64(&mut rngcounter);
                proof {
                    draws = draws + 1;
                    assert(spec_counter_after(draws + 1) == spec_splitmix_counter(
                        spec_counter_after(draws),
                    ));
                }
            }
        }

        filter
    }

    /// Assignment phase, and the heart of the no-false-negatives guarantee:
    /// the removal stack is popped in reverse peel order, and each popped
    /// edge reads the two slots of the blocks it does not own and writes
    /// its own slot, so the three XOR to its fingerprint byte. Whenever the
    /// stack is a peel order, that slot equation still holds for the hash
    /// of every entry once the table is complete — every peeled key is
    /// reported present.
    #[verifier::loop_isolation(false)]
    pub fn assign_fingerprints(&mut self, stack: Vec<KeyIndex>)
        requires
            old(self).wf(),
            forall|p: int|
                0 <= p < stack@.len() ==> ((#[trigger] stack@[p]).index as int) < 3 * (
                old(self).spec_block_length() as int),
        ensures
            final(self).wf(),
            final(self).spec_seed() == old(self).spec_seed(),
            final(self).spec_block_length() == old(self).spec_block_length(),
            final(self).spec_fingerprints().len() == old(self).spec_fingerprints().len(),
            stack@.len() == 0 ==> final(self).spec_fingerprints() == old(self).spec_fingerprints(),
            spec_peel_order(stack@, old(self).spec_block_length()) ==> forall|p: int|
                0 <= p < stack@.len() ==> spec_slot_equation(
                    final(self).spec_fingerprints(),
                    (#[trigger] stack@[p]).hash,
                    old(self).spec_block_length(),
                ),
    {
        let ghost stack0: Seq<KeyIndex> = stack@;
        let ghost fps0: Seq<u8> = self.fingerprints@;
        let block_length: u32 = self.block_length;
        let mut stack: Vec<KeyIndex> = stack;
        while stack.len() > 0
            invariant
                self.block_length == block_length,
                self.seed == old(self).seed,
                self.fingerprints@.len() == fps0.len(),
                stack@.len() <= stack0.len(),
                stack@ == stack0.subrange(0, stack@.len() as int),
                stack0.len() == 0 ==> self.fingerprints@ == fps0,
                spec_peel_order(stack0, block_length) ==> forall|q: int|
                    stack@.len() <= q < stack0.len() ==> spec_slot_equation(
                        self.fingerprints@,
                        (#[trigger] stack0[q]).hash,
                        block_length,
                    ),
            decreases stack@.len(),
        {
            let entry: KeyIndex = stack.pop().unwrap();
            let ghost qpos: int = stack@.len() as int;
            proof {
                assert(qpos + 1 <= stack0.len());
                assert(entry == stack0.subrange(0, qpos + 1)[qpos]);
                assert(entry == stack0[qpos]);
                assert(stack@ =~= stack0.subrange(0, qpos));
            }
            let ghost fps_before: Seq<u8> = self.fingerprints@;
            let mut val: u8 = fingerprint_byte(entry.hash);
            if entry.index < block_length {
                let a: usize = (self.h1(entry.hash) + block_length) as usize;
                let b: usize = (self.h2(entry.hash) + 2 * block_length) as usize;
                val = val ^ self.fingerprints[a] ^ self.fingerprints[b];
            } else if entry.index < 2 * block_length {
                let a: usize = self.h0(entry.hash) as usize;
                let b: usize = (self.h2(entry.hash) + 2 * block_length) as usize;
                val = val ^ self.fingerprints[a] ^ self.fingerprints[b];
            } else {
                let a: usize = self.h0(entry.hash) as usize;
                let b: usize = (self.h1(entry.hash) + block_length) as usize;
                val = val ^ self.fingerprints[a] ^ self.fingerprints[b];
            }
            let w: usize = entry.index as usize;
            self.fingerprints[w] = val;
            proof {
                if spec_peel_order(stack0, block_length) {
                    lemma_reduce_bound_all(entry.hash, block_length);
                    assert forall|q: int|
                        stack@.len() <= q < stack0.len() implies spec_slot_equation(
                        self.fingerprints@,
                        (#[trigger] stack0[q]).hash,
                        block_length,
                    ) by {
                        let h = stack0[q].hash;
                        lemma_reduce_bound_all(h, block_length);
                        if q == qpos {
                            lemma_slot_write_settles(
                                fps_before,
                                self.fingerprints@,
                                entry,
                                val,
                                block_length,
                            );
                        } else {
                            // the peeled slot of this entry belongs to no
                            // later-peeled edge, so their equations persist
                            assert(stack0[qpos].index as int != spec_slot0(h, block_length)
                                && stack0[qpos].index as int != spec_slot1(h, block_length)
                                && stack0[qpos].index as int != spec_slot2(h, block_length));
                        }
                    }
                }
            }
        }
    }

    /// The seed the successful construction attempt settled on.
    pub closed spec fn spec_seed(self) -> u64 {
        self.seed
    }

    /// The length of each of the three table blocks.
    pub closed spec fn spec_block_length(self) -> u32 {
        self.block_length
    }

    /// The fingerprint table, three blocks laid out back to back.
    pub closed spec fn spec_fingerprints(self) -> Seq<u8> {
        self.fingerprints@
    }

    /// Every built filter satisfies this shape: a positive block length,
    /// a table of exactly three blocks, and a total size that fits in `u32`.
    pub open spec fn wf(self) -> bool {
        &&& self.spec_block_length() > 0
        &&& self.spec_fingerprints().len() == 3 * self.spec_block_length()
        &&& 3 * (self.spec_block_length() as int) <= 0xffff_ffff
    }

    /// What `contains` returns, as a pure function of the filter value and
    /// the key.
    pub open spec fn spec_contains(self, key: u64) -> bool {
        spec_query(self.spec_seed(), self.spec_block_length(), self.spec_fingerprints(), key)
    }

    /// Tells you whether the key is likely part of the set.
    pub fn contains(&self, key: u64) -> (r: bool)
        requires
            self.wf(),
        ensures
            r == self.spec_contains(key),
    {
        let hash: u64 = mixsplit(key, self.seed);
        let f: u8 = fingerprint_byte(hash);
        let i0: usize = self.h0(hash) as usize;
        let i1: usize = (self.h1(hash) + self.block_length) as usize;
        let i2: usize = (self.h2(hash) + 2 * self.block_length) as usize;
        f == (self.fingerprints[i0] ^ self.fingerprints[i1] ^ self.fingerprints[i2])
    }

    fn hashes(&self, k: u64) -> (hs: Hashes)
        ensures
            hs.h == spec_mixsplit(k, self.spec_seed()),
            hs.h0 == spec_h0(hs.h, self.spec_block_length()),
            hs.h1 == spec_h1(hs.h, self.spec_block_length()),
            hs.h2 == spec_h2(hs.h, self.spec_block_length()),
            self.spec_block_length() > 0 ==> hs.h0 < self.spec_block_length()
                && hs.h1 < self.spec_block_length() && hs.h2 < self.spec_block_length(),
    {
        let hash: u64 = mixsplit(k, self.seed);
        Hashes::new(hash, self.h0(hash), self.h1(hash), self.h2(hash))
    }

    fn h0(&self, hash: u64) -> (r: u32)
        ensures
            r == spec_h0(hash, self.spec_block_length()),
            self.spec_block_length() > 0 ==> r < self.spec_block_length(),
    {
        reduce(low32(hash), self.block_length)
    }

    fn h1(&self, hash: u64) -> (r: u32)
        ensures
            r == spec_h1(hash, self.spec_block_length()),
            self.spec_block_length() > 0 ==> r < self.spec_block_length(),
    {
        reduce(low32(rotl64(hash, 21)), self.block_length)
    }

    fn h2(&self, hash: u64) -> (r: u32)
        ensures
            r == spec_h2(hash, self.spec_block_length()),
            self.spec_block_length() > 0 ==> r < self.spec_block_length(),
    {
        reduce(low32(rotl64(hash, 42)), self.block_length)
    }

    /// The seed the filter was built with.
    pub fn seed(&self) -> (s: u64)
        ensures
            s == self.spec_seed(),
    {
        self.seed
    }

    /// The length of each of the three table blocks.
    pub fn block_length(&self) -> (n: u32)
        ensures
            n == self.spec_block_length(),
    {
        self.block_length
    }

    /// The raw fingerprint table.
    pub fn fingerprints(&self) -> (fps: &Vec<u8>)
        ensures
            fps@ == self.spec_fingerprints(),
    {
        &self.fingerprints
    }
}

/// The other half of the no-false-negatives guarantee: a filter whose
/// table satisfies the slot equation for a key's mixed hash — as the
/// assignment phase leaves it for every entry of a peel order — reports
/// that key as present.
pub proof fn lemma_slot_equation_gives_contains(filter: Xor8, key: u64)
    requires
        spec_slot_equation(
            filter.spec_fingerprints(),
            spec_mixsplit(key, filter.spec_seed()),
            filter.spec_block_length(),
        ),
    ensures
        filter.spec_contains(key),
{
}

/// A filter whose table is all zeroes — the filter built from no keys is
/// one — reports a key as present exactly when the key's fingerprint byte
/// is zero; every key with a nonzero fingerprint byte is reported absent.
pub proof fn lemma_zero_table_membership(filter: Xor8, key: u64)
    requires
        filter.wf(),
        forall|i: int|
            0 <= i < filter.spec_fingerprints().len() ==> filter.spec_fingerprints()[i] == 0,
    ensures
        filter.spec_contains(key) <==> spec_fingerprint_byte(
            spec_mixsplit(key, filter.spec_seed()),
        ) == 0,
{
    let hash = spec_mixsplit(key, filter.spec_seed());
    let bl = filter.spec_block_length();
    lemma_reduce_bound_all(hash, bl);
    assert(0u8 ^ 0u8 ^ 0u8 == 0u8) by (bit_vector);
}

/// Writing one edge's own slot with its fingerprint byte folded over the
/// two slots it does not own establishes the slot equation for that edge.
proof fn lemma_slot_write_settles(
    t0: Seq<u8>,
    t1: Seq<u8>,
    entry: KeyIndex,
    val: u8,
    block_length: u32,
)
    requires
        block_length > 0,
        t0.len() == 3 * block_length,
        (entry.index as int) < 3 * block_length,
        t1 == t0.update(entry.index as int, val),
        (entry.index as int) < block_length ==> entry.index as int == spec_slot0(
            entry.hash,
            block_length,
        ) && val == spec_fingerprint_byte(entry.hash) ^ t0[spec_slot1(entry.hash, block_length)]
            ^ t0[spec_slot2(entry.hash, block_length)],
        block_length <= entry.index as int && (entry.index as int) < 2 * block_length
            ==> entry.index as int == spec_slot1(
            entry.hash,
            block_length,
        ) && val == spec_fingerprint_byte(entry.hash) ^ t0[spec_slot0(entry.hash, block_length)]
            ^ t0[spec_slot2(entry.hash, block_length)],
        2 * block_length <= entry.index as int ==> entry.index as int == spec_slot2(
            entry.hash,
            block_length,
        ) && val == spec_fingerprint_byte(entry.hash) ^ t0[spec_slot0(entry.hash, block_length)]
            ^ t0[spec_slot1(entry.hash, block_length)],
    ensures
        spec_slot_equation(t1, entry.hash, block_length),
{
    lemma_reduce_bound_all(entry.hash, block_length);
    let f = spec_fingerprint_byte(entry.hash);
    let s0 = spec_slot0(entry.hash, block_length);
    let s1 = spec_slot1(entry.hash, block_length);
    let s2 = spec_slot2(entry.hash, block_length);
    if (entry.index as int) < block_length {
        let u = t0[s1];
        let v = t0[s2];
        assert((f ^ u ^ v) ^ u ^ v == f) by (bit_vector);
    } else if (entry.index as int) < 2 * block_length {
        let u = t0[s0];
        let v = t0[s2];
        assert(u ^ (f ^ u ^ v) ^ v == f) by (bit_vector);
    } else {
        let u = t0[s0];
        let v = t0[s1];
        assert(u ^ v ^ (f ^ u ^ v) == f) by (bit_vector);
    }
}

/// All three vertex ids of a hash lie inside their block.
proof fn lemma_reduce_bound_all(hash: u64, block_length: u32)
    requires
        block_length > 0,
    ensures
        spec_h0(hash, block_length) < block_length,
        spec_h1(hash, block_length) < block_length,
        spec_h2(hash, block_length) < block_length,
{
    crate::util::lemma_reduce_bound(spec_low32(hash), block_length);
    crate::util::lemma_reduce_bound(spec_low32(spec_rotl64(hash, 21)), block_length);
    crate::util::lemma_reduce_bound(spec_low32(spec_rotl64(hash, 42)), block_length);
}

} // verus!
