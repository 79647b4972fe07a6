use vstd::prelude::*;

verus! {

/// Reduces every sample of an inner distribution into `[0, len)`.
///
/// The inner distribution is carried as is; drawing from it is left to the
/// caller, who hands each raw sample to `reduce`.
pub struct Mod<D> {
    pub distribution: D,
    pub len: usize,
}

impl<D> Mod<D> {
    pub fn new(distribution: D, len: usize) -> (r: Self)
        ensures
            r.distribution == distribution,
            r.len == len,
    {
        Mod { distribution, len }
    }

    /// The index that a raw sample `x` of the inner distribution becomes.
    pub open spec fn spec_reduce(&self, x: usize) -> usize {
        (x % self.len) as usize
    }

    pub fn reduce(&self, x: usize) -> (r: usize)
        requires
            self.len > 0,
        ensures
            r == self.spec_reduce(x),
            r < self.len,
    {
        x % self.len
    }
}

/// Mirrors every sample of an inner distribution across `minuend`:
/// a sample `x` becomes `minuend - x`.
pub struct Backwards<D> {
    pub distribution: D,
    pub minuend: usize,
}

impl<D> Backwards<D> {
    pub fn new(distribution: D, minuend: usize) -> (r: Self)
        ensures
            r.distribution == distribution,
            r.minuend == minuend,
    {
        Backwards { distribution, minuend }
    }

    /// The index that a raw sample `x` of the inner distribution becomes.
    pub open spec fn spec_reflect(&self, x: usize) -> usize {
        (self.minuend - x) as usize
    }

    pub fn reflect(&self, x: usize) -> (r: usize)
        requires
            x <= self.minuend,
        ensures
            r == self.spec_reflect(x),
            r == self.minuend - x,
            r <= self.minuend,
    {
        self.minuend - x
    }
}

/// Whatever the inner distribution yields, a `Mod` sample lies in `[0, len)`.
pub proof fn lemma_mod_in_range<D>(m: &Mod<D>, x: usize)
    requires
        m.len > 0,
    ensures
        0 <= m.spec_reduce(x) < m.len,
{
}

/// Mirroring twice across the same point gives back every sample in
/// `[0, minuend]` unchanged.
pub proof fn lemma_backwards_involution<D, E>(outer: &Backwards<E>, inner: &Backwards<D>, x: usize)
    requires
        outer.minuend == inner.minuend,
        x <= inner.minuend,
    ensures
        inner.spec_reflect(x) <= outer.minuend,
        outer.spec_reflect(inner.spec_reflect(x)) == x,
{
}

} // verus!
