use vstd::prelude::*;

verus! {

/// The counter widths, in bytes, that an update can target.
pub open spec fn valid_granularity(g: usize) -> bool {
    g == 1 || g == 2 || g == 4 || g == 8 || g == 16
}

/// Whether the `k` lowest bytes of the little-endian counter at `off` are all 255,
/// so that an increment carries into byte `k`.
pub open spec fn carries_into(s: Seq<u8>, off: int, k: int) -> bool {
    forall|j: int| 0 <= j < k ==> #[trigger] s[off + j] == 255u8
}

/// Byte `k` of the counter at `off` after one wrapping increment.
pub open spec fn bumped_byte(s: Seq<u8>, off: int, k: int) -> u8 {
    if carries_into(s, off, k) {
        if s[off + k] == 255u8 {
            0u8
        } else {
            (s[off + k] + 1) as u8
        }
    } else {
        s[off + k]
    }
}

/// `new` is `old` with the `g`-byte little-endian counter at byte offset `off`
/// incremented by one, wrapping to zero past its largest value, and every other
/// byte left as it was.
pub open spec fn counter_incremented(old: Seq<u8>, new: Seq<u8>, off: int, g: int) -> bool {
    &&& new.len() == old.len()
    &&& forall|j: int| 0 <= j < new.len() && !(off <= j < off + g) ==> #[trigger] new[j] == old[j]
    &&& forall|k: int| 0 <= k < g ==> #[trigger] new[off + k] == bumped_byte(old, off, k)
}

/// `s` with the `g`-byte little-endian counter at byte offset `off` incremented.
pub open spec fn incremented(s: Seq<u8>, off: int, g: int) -> Seq<u8> {
    Seq::new(s.len(), |j: int| if off <= j < off + g { bumped_byte(s, off, j - off) } else { s[j] })
}

/// Increments the `g`-byte unsigned counter with index `i` (byte offset `i * g`),
/// wrapping at the counter's width.
///
/// Counters are little-endian. When several threads run updates on one buffer
/// at once the written values are not meaningful: only the number of updates is.
pub fn update(mem: &mut [u8], g: usize, i: usize)
    requires
        valid_granularity(g),
        i * g + g <= old(mem)@.len(),
    ensures
        counter_incremented(old(mem)@, final(mem)@, i * g, g as int),
        final(mem)@ == incremented(old(mem)@, i * g, g as int),
{
    assert(i * g + g <= mem@.len());
    let n: usize = mem.len();
    let off: usize = i * g;
    let ghost old_mem = mem@;
    let mut k: usize = 0;
    let mut carry: bool = true;
    while carry && k < g
        invariant
            off == i * g,
            off + g <= mem@.len(),
            mem@.len() == old_mem.len(),
            mem@.len() == n,
            k <= g,
            carry ==> carries_into(old_mem, off as int, k as int),
            carry ==> forall|j: int| 0 <= j < k ==> #[trigger] mem@[off + j] == 0u8,
            !carry ==> k >= 1 && carries_into(old_mem, off as int, k - 1) && old_mem[off + k - 1]
                != 255u8,
            !carry ==> forall|j: int| 0 <= j < k - 1 ==> #[trigger] mem@[off + j] == 0u8,
            !carry ==> mem@[off + k - 1] == (old_mem[off + k - 1] + 1) as u8,
            forall|j: int| 0 <= j < mem@.len() && !(off <= j < off + k) ==> #[trigger] mem@[j] == old_mem[j],
        decreases g - k,
    {
        assert(off + k < mem@.len());
        let b = mem[off + k];
        if b == 255u8 {
            mem[off + k] = 0u8;
            proof {
                assert forall|j: int| 0 <= j < k + 1 implies #[trigger] old_mem[off + j] == 255u8 by {
                    if j < k {
                        assert(old_mem[off + j] == 255u8);
                    }
                }
            }
        } else {
            mem[off + k] = b + 1;
            carry = false;
        }
        k = k + 1;
    }
    proof {
        assert forall|kk: int| 0 <= kk < g implies #[trigger] mem@[off + kk] == bumped_byte(old_mem, off as int, kk) by {
            if carry {
                assert(mem@[off + kk] == old_mem[off + kk] || kk < k);
                if kk < k {
                    assert(old_mem[off + kk] == 255u8);
                }
            } else {
                if kk < k - 1 {
                    assert(old_mem[off + kk] == 255u8);
                } else if kk >= k {
                    assert(!carries_into(old_mem, off as int, kk)) by {
                        assert(old_mem[off + (k - 1)] != 255u8);
                    }
                }
            }
        }
        assert forall|j: int| 0 <= j < mem@.len() implies mem@[j] == incremented(old_mem, off as int, g as int)[j] by {
            if off <= j < off + g {
                assert(mem@[off + (j - off)] == bumped_byte(old_mem, off as int, j - off));
            }
        }
        assert(mem@ =~= incremented(old_mem, off as int, g as int));
    }
}

/// `256^k`: one past the largest value of a `k`-byte counter.
pub open spec fn byte_pow(k: nat) -> nat
    decreases k,
{
    if k == 0 {
        1
    } else {
        256 * byte_pow((k - 1) as nat)
    }
}

/// The value of the `k` lowest bytes of the little-endian counter at `off`.
pub open spec fn counter_value(s: Seq<u8>, off: int, k: nat) -> nat
    decreases k,
{
    if k == 0 {
        0
    } else {
        counter_value(s, off, (k - 1) as nat) + s[off + k - 1] as nat * byte_pow((k - 1) as nat)
    }
}

proof fn lemma_increment_prefix(s: Seq<u8>, off: int, g: int, k: nat)
    requires
        0 <= off,
        off + g <= s.len(),
        k <= g,
    ensures
        carries_into(s, off, k as int) ==> counter_value(s, off, k) + 1 == byte_pow(k)
            && counter_value(incremented(s, off, g), off, k) == 0,
        !carries_into(s, off, k as int) ==> counter_value(incremented(s, off, g), off, k)
            == counter_value(s, off, k) + 1 && counter_value(s, off, k) + 1 < byte_pow(k),
    decreases k,
{
    let t = incremented(s, off, g);
    if k > 0 {
        let k1 = (k - 1) as nat;
        lemma_increment_prefix(s, off, g, k1);
        let p = byte_pow(k1);
        let b = s[off + k1] as nat;
        let vo = counter_value(s, off, k1);
        let vn = counter_value(t, off, k1);
        assert(t[off + k1] == bumped_byte(s, off, k1 as int));
        assert(byte_pow(k) == 256 * p);
        assert(counter_value(s, off, k) == vo + b * p);
        assert(counter_value(t, off, k) == vn + t[off + k1] as nat * p);
        if carries_into(s, off, k as int) {
            assert(carries_into(s, off, k1 as int));
            assert(s[off + k1] == 255u8);
            assert(vo + 255 * p + 1 == 256 * p) by (nonlinear_arith)
                requires vo + 1 == p;
            assert(0 * p == 0) by (nonlinear_arith);
        } else if carries_into(s, off, k1 as int) {
            if s[off + k1] == 255u8 {
                assert forall|j: int| 0 <= j < k implies #[trigger] s[off + j] == 255u8 by {
                    if j < k1 {
                    } else {
                        assert(j == k1);
                    }
                }
                assert(false);
            }
            let bb = t[off + k1] as nat;
            assert(bb == b + 1);
            assert(vo + b * p + 1 == 0 + bb * p && bb * p < 256 * p) by (nonlinear_arith)
                requires vo + 1 == p, bb == b + 1, b < 255, p > 0;
        } else {
            assert(t[off + k1] == s[off + k1]);
            assert(vo + b * p + 1 < 256 * p) by (nonlinear_arith)
                requires vo + 1 < p, b <= 255;
            assert(!carries_into(s, off, k as int));
        }
    }
}

/// A counter's value depends on its own bytes alone.
pub proof fn lemma_counter_frame(s1: Seq<u8>, s2: Seq<u8>, off: int, k: nat)
    requires
        forall|m: int| 0 <= m < k ==> #[trigger] s1[off + m] == s2[off + m],
    ensures
        counter_value(s1, off, k) == counter_value(s2, off, k),
    decreases k,
{
    if k > 0 {
        lemma_counter_frame(s1, s2, off, (k - 1) as nat);
        assert(s1[off + (k - 1)] == s2[off + (k - 1)]);
    }
}

pub proof fn lemma_byte_pow_positive(k: nat)
    ensures
        byte_pow(k) > 0,
    decreases k,
{
    if k > 0 {
        lemma_byte_pow_positive((k - 1) as nat);
    }
}

/// One update adds exactly one to the value of the `g`-byte counter it
/// targets, modulo `256^g`: a counter at its largest value wraps to zero.
pub proof fn lemma_update_adds_one(s: Seq<u8>, i: usize, g: usize)
    requires
        valid_granularity(g),
        i * g + g <= s.len(),
    ensures
        counter_value(incremented(s, i * g, g as int), i * g, g as nat)
            == (counter_value(s, i * g, g as nat) + 1) % byte_pow(g as nat),
{
    assert(0 <= i * g) by (nonlinear_arith);
    lemma_increment_prefix(s, i * g, g as int, g as nat);
    lemma_byte_pow_positive(g as nat);
    let v = counter_value(s, i * g, g as nat);
    let p = byte_pow(g as nat);
    if carries_into(s, i * g, g as int) {
        assert((v + 1) % p == 0) by {
            vstd::arithmetic::div_mod::lemma_mod_self_0(p as int);
        }
    } else {
        vstd::arithmetic::div_mod::lemma_small_mod((v + 1) as nat, p);
    }
}

} // verus!
