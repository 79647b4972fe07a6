use vstd::prelude::*;

verus! {

/// What a page table entry says of one virtual page.
#[derive(Clone, Copy, Debug, PartialEq, Eq, Structural)]
pub struct PageEntry {
    pub present: bool,
    /// The physical frame number; meaningful only when `present`.
    pub pfn: u64,
}

/// A half-open range `[start, end)` of physical frame numbers.
#[derive(Clone, Copy, Debug, PartialEq, Eq, Structural)]
pub struct PfnRange {
    pub start: u64,
    pub end: u64,
}

/// A virtual address range `[start, end)` of a mapping.
#[derive(Clone, Copy, Debug, PartialEq, Eq, Structural)]
pub struct AddrRange {
    pub start: u64,
    pub end: u64,
}

/// For one chunk of pages: how many lie in the fast tier, out of how many.
#[derive(Clone, Copy, Debug, PartialEq, Eq, Structural)]
pub struct ChunkCount {
    pub fast: usize,
    pub pages: usize,
}

/// The page is backed by a frame of the fast tier.
pub open spec fn in_fast_tier(e: PageEntry, tier: PfnRange) -> bool {
    e.present && tier.start <= e.pfn < tier.end
}

/// The number of entries of `s` backed by the fast tier.
pub open spec fn fast_pages(s: Seq<PageEntry>, tier: PfnRange) -> nat
    decreases s.len(),
{
    if s.len() == 0 {
        0
    } else {
        fast_pages(s.drop_last(), tier) + if in_fast_tier(s.last(), tier) { 1nat } else { 0nat }
    }
}

/// The entries of chunk `i` when chunks hold `per` pages: the last one may hold fewer.
pub open spec fn chunk_of(s: Seq<PageEntry>, per: nat, i: nat) -> Seq<PageEntry> {
    let lo = i * per;
    let hi = if (i + 1) * per <= s.len() { ((i + 1) * per) as int } else { s.len() as int };
    s.subrange(lo as int, hi as int)
}

/// Counts, for each consecutive chunk of `per` entries, those backed by the
/// fast tier. The chunks are in address order and cover every entry; the
/// last chunk may be shorter.
pub fn fast_tier_counts(entries: &Vec<PageEntry>, per: usize, tier: PfnRange) -> (r: Vec<ChunkCount>)
    requires
        per > 0,
    ensures
        r.len() == (entries.len() + per - 1) / per as int,
        forall|i: int|
            0 <= i < r.len() ==> {
                let c = chunk_of(entries@, per as nat, i as nat);
                &&& (#[trigger] r@[i]).pages == c.len()
                &&& r@[i].fast == fast_pages(c, tier)
            },
{
    let n: usize = entries.len();
    let mut r: Vec<ChunkCount> = Vec::new();
    let mut lo: usize = 0;
    assert(0 * per == 0) by (nonlinear_arith);
    while lo < n
        invariant
            per > 0,
            n == entries.len(),
            lo <= n,
            r.len() * per <= n ==> lo == r.len() * per,
            r.len() * per > n ==> lo == n,
            r.len() == 0 || (r.len() - 1) * per < n,
            forall|i: int|
                0 <= i < r.len() ==> {
                    let c = chunk_of(entries@, per as nat, i as nat);
                    &&& (#[trigger] r@[i]).pages == c.len()
                    &&& r@[i].fast == fast_pages(c, tier)
                },
        decreases n - lo,
    {
        let hi: usize = if n - lo <= per { n } else { lo + per };
        let mut fast: usize = 0;
        let mut j: usize = lo;
        while j < hi
            invariant
                lo <= j <= hi,
                hi <= n,
                n == entries.len(),
                fast <= j - lo,
                fast == fast_pages(entries@.subrange(lo as int, j as int), tier),
            decreases hi - j,
        {
            let e = entries[j];
            proof {
                assert(entries@.subrange(lo as int, j + 1).drop_last() =~= entries@.subrange(lo as int, j as int));
            }
            if e.present && tier.start <= e.pfn && e.pfn < tier.end {
                fast = fast + 1;
            }
            j = j + 1;
        }
        proof {
            let k = r.len() as nat;
            if k * per > n {
                assert(false);
            }
            assert(k * per == lo);
            assert((k + 1) * per == lo + per) by (nonlinear_arith)
                requires k * per == lo;
            assert(chunk_of(entries@, per as nat, k) =~= entries@.subrange(lo as int, hi as int));
        }
        r.push(ChunkCount { fast, pages: hi - lo });
        proof {
            assert(r.len() * per == (r.len() - 1) * per + per) by (nonlinear_arith);
        }
        lo = hi;
    }
    proof {
        let k = r.len() as int;
        assert((n + per - 1) / per as int == k) by (nonlinear_arith)
            requires n <= k * per, k == 0 || (k - 1) * per < n, per > 0;
        if k == 0 {
            assert(n == 0);
        }
    }
    r
}

/// The position of the first range that holds `addr`, if any.
pub fn find_region(ranges: &Vec<AddrRange>, addr: u64) -> (r: Option<usize>)
    ensures
        r is Some ==> {
            let i = r->Some_0 as int;
            &&& 0 <= i < ranges.len()
            &&& ranges@[i].start <= addr < ranges@[i].end
            &&& forall|j: int| 0 <= j < i ==> !(ranges@[j].start <= addr < #[trigger] ranges@[j].end)
        },
        r is None ==> forall|j: int|
            0 <= j < ranges.len() ==> !(ranges@[j].start <= addr < #[trigger] ranges@[j].end),
{
    let mut i: usize = 0;
    while i < ranges.len()
        invariant
            i <= ranges.len(),
            forall|j: int| 0 <= j < i ==> !(ranges@[j].start <= addr < #[trigger] ranges@[j].end),
        decreases ranges.len() - i,
    {
        if ranges[i].start <= addr && addr < ranges[i].end {
            return Some(i);
        }
        i = i + 1;
    }
    None
}

} // verus!
