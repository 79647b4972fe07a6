use vstd::prelude::*;
use crate::update::{
    update, incremented, valid_granularity, counter_value, byte_pow, lemma_update_adds_one,
    lemma_counter_frame, lemma_byte_pow_positive,
};
use crate::workload::AccessPattern;

verus! {

/// Number of updates after which a worker reports its progress.
pub const CHUNK_SIZE: usize = 4096;

/// The sum of a sequence of counts.
pub open spec fn total(s: Seq<usize>) -> int
    decreases s.len(),
{
    if s.len() == 0 {
        0
    } else {
        total(s.drop_last()) + s.last()
    }
}

/// The buffer after incrementing, in order, the counter of each index in `idx`.
pub open spec fn apply_all(s: Seq<u8>, g: int, idx: Seq<usize>) -> Seq<u8>
    decreases idx.len(),
{
    if idx.len() == 0 {
        s
    } else {
        incremented(apply_all(s, g, idx.drop_last()), idx.last() * g, g)
    }
}

proof fn lemma_total_push(s: Seq<usize>, x: usize)
    ensures
        total(s.push(x)) == total(s) + x,
{
    assert(s.push(x).drop_last() =~= s);
}

proof fn lemma_apply_all_push(s: Seq<u8>, g: int, idx: Seq<usize>, x: usize)
    ensures
        apply_all(s, g, idx.push(x)) == incremented(apply_all(s, g, idx), x * g, g),
{
    assert(idx.push(x).drop_last() =~= idx);
}

proof fn lemma_apply_all_len(s: Seq<u8>, g: int, idx: Seq<usize>)
    ensures
        apply_all(s, g, idx).len() == s.len(),
    decreases idx.len(),
{
    if idx.len() > 0 {
        lemma_apply_all_len(s, g, idx.drop_last());
    }
}

/// The number of times `j` occurs in `idx`.
pub open spec fn hits(idx: Seq<usize>, j: usize) -> nat
    decreases idx.len(),
{
    if idx.len() == 0 {
        0
    } else {
        hits(idx.drop_last(), j) + if idx.last() == j { 1nat } else { 0nat }
    }
}

/// With one worker, after the updates of the indices `idx` each `g`-byte
/// counter holds its starting value plus the number of times it was hit,
/// modulo `256^g`.
pub proof fn lemma_counters_count_hits(s: Seq<u8>, g: usize, idx: Seq<usize>, j: usize)
    requires
        valid_granularity(g),
        j * g + g <= s.len(),
        forall|k: int| 0 <= k < idx.len() ==> #[trigger] idx[k] * g + g <= s.len(),
    ensures
        counter_value(apply_all(s, g as int, idx), j * g, g as nat)
            == (counter_value(s, j * g, g as nat) + hits(idx, j)) % byte_pow(g as nat),
    decreases idx.len(),
{
    let p = byte_pow(g as nat);
    lemma_byte_pow_positive(g as nat);
    let a = counter_value(s, j * g, g as nat);
    if idx.len() == 0 {
        assert(a < p) by {
            lemma_counters_below(s, j * g, g as nat);
        }
        vstd::arithmetic::div_mod::lemma_small_mod(a, p);
    } else {
        let rest = idx.drop_last();
        let i = idx.last();
        assert(i * g + g <= s.len());
        lemma_counters_count_hits(s, g, rest, j);
        let t = apply_all(s, g as int, rest);
        lemma_apply_all_len(s, g as int, rest);
        let h = hits(rest, j);
        if i == j {
            lemma_update_adds_one(t, i, g);
            assert(p > 1) by {
                assert(byte_pow(g as nat) == 256 * byte_pow((g - 1) as nat));
                lemma_byte_pow_positive((g - 1) as nat);
            }
            vstd::arithmetic::div_mod::lemma_small_mod(1, p);
            vstd::arithmetic::div_mod::lemma_add_mod_noop((a + h) as int, 1, p as int);
        } else {
            assert(0 <= j * g) by (nonlinear_arith);
            assert(i * g + g <= j * g || j * g + g <= i * g) by (nonlinear_arith)
                requires i != j, g > 0;
            let t2 = incremented(t, i * g, g as int);
            assert forall|m: int| 0 <= m < g implies #[trigger] t2[j * g + m] == t[j * g + m] by {}
            lemma_counter_frame(t2, t, j * g, g as nat);
        }
    }
}

proof fn lemma_counters_below(s: Seq<u8>, off: int, k: nat)
    ensures
        counter_value(s, off, k) < byte_pow(k),
    decreases k,
{
    if k > 0 {
        let k1 = (k - 1) as nat;
        lemma_counters_below(s, off, k1);
        let b = s[off + k1] as nat;
        let v = counter_value(s, off, k1);
        let q = byte_pow(k1);
        assert(v + b * q < 256 * q) by (nonlinear_arith)
            requires v < q, b <= 255;
    }
}

/// The progress records that `updates` operations produce when each worker
/// reports every `chunk` updates: one per chunk, each of `chunk` updates but
/// the last, which holds what remains. They add up to `updates`.
pub fn batch_sizes(updates: usize, chunk: usize) -> (r: Vec<usize>)
    requires
        chunk > 0,
    ensures
        total(r@) == updates,
        r.len() == (updates + chunk - 1) / chunk as int,
        forall|i: int| 0 <= i < r.len() ==> 0 < #[trigger] r@[i] <= chunk,
        forall|i: int| 0 <= i < r.len() - 1 ==> #[trigger] r@[i] == chunk,
{
    let mut r: Vec<usize> = Vec::new();
    let mut left: usize = updates;
    while left > 0
        invariant
            chunk > 0,
            left <= updates,
            total(r@) + left == updates,
            forall|i: int| 0 <= i < r.len() ==> #[trigger] r@[i] == chunk || (i == r.len() - 1 && left == 0),
            forall|i: int| 0 <= i < r.len() ==> 0 < #[trigger] r@[i] <= chunk,
        decreases left,
    {
        let c: usize = if left < chunk { left } else { chunk };
        proof {
            lemma_total_push(r@, c);
        }
        r.push(c);
        left = left - c;
    }
    proof {
        let n = r.len() as int;
        if n == 0 {
            assert(updates == 0);
            assert((chunk - 1) / chunk as int == 0) by (nonlinear_arith)
                requires chunk > 0;
        }
        if n > 0 {
            let last = r@[n - 1];
            assert((n - 1) * chunk + last == updates) by {
                assert forall|i: int| 0 <= i < n - 1 implies #[trigger] r@[i] == chunk by {}
                lemma_total_full(r@, chunk, n - 1);
                assert(r@.drop_last() =~= r@.take(n - 1));
            }
            assert((updates + chunk - 1) / chunk as int == n) by (nonlinear_arith)
                requires (n - 1) * chunk + last == updates, 0 < last <= chunk, chunk > 0;
        }
    }
    r
}

/// A sequence whose first `k` entries are all `chunk` adds up to `k * chunk` over them.
proof fn lemma_total_full(s: Seq<usize>, chunk: usize, k: int)
    requires
        0 <= k <= s.len(),
        forall|i: int| 0 <= i < k ==> #[trigger] s[i] == chunk,
    ensures
        total(s.take(k)) == k * chunk,
    decreases k,
{
    if k > 0 {
        lemma_total_full(s, chunk, k - 1);
        assert(s.take(k).drop_last() =~= s.take(k - 1));
        assert(s.take(k).last() == chunk);
        assert(k * chunk == (k - 1) * chunk + chunk) by (nonlinear_arith);
    } else {
        assert(s.take(0) =~= Seq::<usize>::empty());
    }
}

/// Runs one chunk of updates: maps each raw sample through `pattern` and
/// increments the counter at the resulting index. Returns the progress record
/// of the chunk, its number of updates.
pub fn run_chunk(mem: &mut [u8], g: usize, pattern: &AccessPattern, raws: &Vec<usize>) -> (r: usize)
    requires
        valid_granularity(g),
        pattern.wf(),
        pattern.end() * g <= old(mem)@.len(),
        forall|i: int| 0 <= i < raws.len() ==> pattern.raw_ok(#[trigger] raws@[i]),
    ensures
        r == raws.len(),
        final(mem)@ == apply_all(
            old(mem)@,
            g as int,
            raws@.map_values(|x: usize| pattern.spec_index_of(x) as usize),
        ),
{
    let ghost old_mem = mem@;
    let ghost idx = raws@.map_values(|x: usize| pattern.spec_index_of(x) as usize);
    let mut k: usize = 0;
    while k < raws.len()
        invariant
            k <= raws.len(),
            valid_granularity(g),
            pattern.wf(),
            pattern.end() * g <= mem@.len(),
            mem@.len() == old_mem.len(),
            forall|i: int| 0 <= i < raws.len() ==> pattern.raw_ok(#[trigger] raws@[i]),
            idx == raws@.map_values(|x: usize| pattern.spec_index_of(x) as usize),
            mem@ == apply_all(old_mem, g as int, idx.take(k as int)),
        decreases raws.len() - k,
    {
        let i = pattern.index_of(raws[k]);
        assert(i * g + g <= mem@.len()) by (nonlinear_arith)
            requires i < pattern.end(), pattern.end() * g <= mem@.len(), g > 0;
        update(mem, g, i);
        proof {
            assert(idx.take(k + 1) =~= idx.take(k as int).push(i));
            lemma_apply_all_push(old_mem, g as int, idx.take(k as int), i);
        }
        k = k + 1;
    }
    assert(idx.take(raws.len() as int) =~= idx);
    raws.len()
}

} // verus!
