use vstd::prelude::*;
use rand::Rng;
use crate::workload::{ConfigError, UniformRange, ZipfRanks};
use crate::distribution::{Backwards, Mod};

verus! {

/// The per-thread random generator that workers draw from.
#[verifier::external_type_specification]
#[verifier::external_body]
pub struct ExThreadRng(rand::rngs::ThreadRng);

/// Relies on rand's `Rng::gen_range` over an exclusive range: a value in
/// `[low, high)`; it panics on an empty range, which `requires` leaves out.
#[verifier::external_body]
fn gen_range_usize(rng: &mut rand::rngs::ThreadRng, low: usize, high: usize) -> (r: usize)
    requires
        low < high,
    ensures
        low <= r < high,
{
    rng.gen_range(low..high)
}

impl UniformRange {
    /// Draws one value of the range from `rng`.
    pub fn sample(&self, rng: &mut rand::rngs::ThreadRng) -> (r: usize)
        requires
            self.low < self.high,
        ensures
            self.low <= r < self.high,
    {
        gen_range_usize(rng, self.low, self.high)
    }
}

/// A distribution of indices that a worker can draw from.
pub trait IndexSampler {
    /// `x` is a value that the distribution can yield.
    spec fn yields(&self, x: usize) -> bool;

    fn sample_index(&self, rng: &mut rand::rngs::ThreadRng) -> (r: usize)
        requires
            self.sampler_wf(),
        ensures
            self.yields(r),
    ;

    /// The distribution's parameters are coherent.
    spec fn sampler_wf(&self) -> bool;
}

impl IndexSampler for UniformRange {
    open spec fn yields(&self, x: usize) -> bool {
        self.low <= x < self.high
    }

    open spec fn sampler_wf(&self) -> bool {
        self.low < self.high
    }

    fn sample_index(&self, rng: &mut rand::rngs::ThreadRng) -> (r: usize) {
        self.sample(rng)
    }
}

impl<D: IndexSampler> Mod<D> {
    /// Draws from the inner distribution and reduces the draw modulo `len`.
    pub fn sample(&self, rng: &mut rand::rngs::ThreadRng) -> (r: usize)
        requires
            self.len > 0,
            self.distribution.sampler_wf(),
        ensures
            exists|x: usize| self.distribution.yields(x) && r == x % self.len,
            r < self.len,
    {
        let x = self.distribution.sample_index(rng);
        self.reduce(x)
    }
}

impl<D: IndexSampler> Backwards<D> {
    /// Draws from the inner distribution and mirrors the draw across `minuend`.
    pub fn sample(&self, rng: &mut rand::rngs::ThreadRng) -> (r: usize)
        requires
            self.distribution.sampler_wf(),
            forall|x: usize| self.distribution.yields(x) ==> x <= self.minuend,
        ensures
            exists|x: usize| self.distribution.yields(x) && r == self.minuend - x,
    {
        let x = self.distribution.sample_index(rng);
        self.reflect(x)
    }
}

impl<D: IndexSampler> IndexSampler for Mod<D> {
    open spec fn yields(&self, x: usize) -> bool {
        exists|y: usize| self.distribution.yields(y) && x == y % self.len
    }

    open spec fn sampler_wf(&self) -> bool {
        self.len > 0 && self.distribution.sampler_wf()
    }

    fn sample_index(&self, rng: &mut rand::rngs::ThreadRng) -> (r: usize) {
        self.sample(rng)
    }
}

impl<D: IndexSampler> IndexSampler for Backwards<D> {
    open spec fn yields(&self, x: usize) -> bool {
        exists|y: usize| self.distribution.yields(y) && x == self.minuend - y
    }

    open spec fn sampler_wf(&self) -> bool {
        &&& self.distribution.sampler_wf()
        &&& forall|y: usize| self.distribution.yields(y) ==> y <= self.minuend
    }

    fn sample_index(&self, rng: &mut rand::rngs::ThreadRng) -> (r: usize) {
        self.sample(rng)
    }
}

/// Mirroring twice across `m` gives back what the inner distribution yields:
/// the values of `Backwards(Backwards(D, m), m)` are exactly those of `D`,
/// when `D` yields values in `[0, m]`.
pub proof fn lemma_backwards_twice_yields<D: IndexSampler>(b: Backwards<Backwards<D>>, x: usize)
    requires
        b.minuend == b.distribution.minuend,
        forall|y: usize| b.distribution.distribution.yields(y) ==> y <= b.minuend,
    ensures
        b.yields(x) <==> b.distribution.distribution.yields(x),
{
    let m = b.minuend;
    if b.distribution.distribution.yields(x) {
        let y = (m - x) as usize;
        assert(b.distribution.yields(y));
        assert(x == m - y);
    }
    if b.yields(x) {
        let y = choose|y: usize| b.distribution.yields(y) && x == m - y;
        let z = choose|z: usize| b.distribution.distribution.yields(z) && y == m - z;
        assert(x == z);
    }
}

/// A Zipfian distribution over ranks.
#[verifier::external_type_specification]
#[verifier::external_body]
pub struct ExZipfDistribution(zipf::ZipfDistribution);

/// The longest exponent text that `ZipfSampler::new` reads.
pub const MAX_EXPONENT_LEN: usize = 32;

pub open spec fn is_decimal_char(c: char) -> bool {
    (48 <= c as u32 && c as u32 <= 57) || c == '.'
}

pub open spec fn is_nonzero_digit(c: char) -> bool {
    49 <= c as u32 && c as u32 <= 57
}

/// A Zipf exponent written in plain decimal (digits and at most one point, no
/// sign, no exponent), at most `MAX_EXPONENT_LEN` characters long, with a
/// digit other than 0: a finite number above zero.
pub open spec fn exponent_text(s: Seq<char>) -> bool {
    &&& 1 <= s.len() <= MAX_EXPONENT_LEN
    &&& forall|i: int| 0 <= i < s.len() ==> is_decimal_char(#[trigger] s[i])
    &&& forall|i: int, j: int| 0 <= i < j < s.len() ==> !(#[trigger] s[i] == '.' && #[trigger] s[j] == '.')
    &&& exists|i: int| 0 <= i < s.len() && is_nonzero_digit(#[trigger] s[i])
}

/// Whether `s` is a Zipf exponent as `exponent_text` describes it.
pub fn is_exponent_text(s: &str) -> (r: bool)
    ensures
        r == exponent_text(s@),
{
    let n = s.unicode_len();
    if n == 0 || n > MAX_EXPONENT_LEN {
        return false;
    }
    let mut seen_dot: bool = false;
    let mut seen_nonzero: bool = false;
    let mut i: usize = 0;
    while i < n
        invariant
            n == s@.len(),
            i <= n,
            forall|k: int| 0 <= k < i ==> is_decimal_char(#[trigger] s@[k]),
            forall|a: int, b: int| 0 <= a < b < i ==> !(#[trigger] s@[a] == '.' && #[trigger] s@[b] == '.'),
            seen_dot <==> exists|k: int| 0 <= k < i && #[trigger] s@[k] == '.',
            seen_nonzero <==> exists|k: int| 0 <= k < i && is_nonzero_digit(#[trigger] s@[k]),
        decreases n - i,
    {
        let c = s.get_char(i);
        if c == '.' {
            if seen_dot {
                let ghost k = choose|k: int| 0 <= k < i && #[trigger] s@[k] == '.';
                assert(s@[k] == '.' && s@[i as int] == '.' && k < i);
                return false;
            }
            seen_dot = true;
        } else if '1' <= c && c <= '9' {
            seen_nonzero = true;
        } else if c != '0' {
            assert(!is_decimal_char(s@[i as int]));
            return false;
        }
        proof {
            assert forall|a: int, b: int| 0 <= a < b < i + 1 implies !(#[trigger] s@[a] == '.' && #[trigger] s@[b] == '.') by {
                if b == i && s@[b] == '.' {
                    assert(!(exists|k: int| 0 <= k < i && #[trigger] s@[k] == '.'));
                    assert(s@[a] != '.');
                }
            }
            if seen_nonzero && !is_nonzero_digit(c) {
                let k = choose|k: int| 0 <= k < i && is_nonzero_digit(#[trigger] s@[k]);
                assert(0 <= k < i + 1 && is_nonzero_digit(s@[k]));
            }
            if seen_dot && c != '.' {
                let k = choose|k: int| 0 <= k < i && #[trigger] s@[k] == '.';
                assert(0 <= k < i + 1 && s@[k] == '.');
            }
        }
        i = i + 1;
    }
    seen_nonzero
}

/// Relies on std's parsing of a floating-point number from text, which reads a
/// plain decimal as a finite value (above zero, as a digit other than 0
/// appears), and on zipf's `ZipfDistribution::new`, which fails exactly when
/// there are no ranks or the exponent is not above zero.
#[verifier::external_body]
fn zipf_new(nelems: usize, exponent: &str) -> (r: Option<zipf::ZipfDistribution>)
    requires
        exponent_text(exponent@),
    ensures
        r is Some <==> nelems > 0,
{
    match exponent.parse() {
        Ok(e) => zipf::ZipfDistribution::new(nelems, e).ok(),
        Err(_) => None,
    }
}

/// Relies on zipf's `Distribution<usize>` impl for `ZipfDistribution`: it
/// yields a rank, and ranks start at 1. It is called only on distributions
/// that `zipf_new` built, whose exponent is finite and above zero.
#[verifier::external_body]
fn zipf_rank(d: &zipf::ZipfDistribution, rng: &mut rand::rngs::ThreadRng) -> (r: usize)
    ensures
        1 <= r,
{
    rand::distributions::Distribution::sample(d, rng)
}

impl ZipfRanks {
    /// The rank `k` as a raw sample of this distribution: `None` for a rank
    /// outside `1..=nelems`.
    pub fn of_rank(&self, k: usize) -> (r: Option<usize>)
        ensures
            r == (if 1 <= k && k <= self.nelems { Some(k) } else { None::<usize> }),
    {
        if 1 <= k && k <= self.nelems {
            Some(k)
        } else {
            None
        }
    }
}

/// A Zipfian rank sampler over `ranks.nelems` ranks, with a finite exponent
/// above zero.
pub struct ZipfSampler {
    ranks: ZipfRanks,
    dist: zipf::ZipfDistribution,
}

impl ZipfSampler {
    /// The ranks that the sampler draws from.
    pub closed spec fn ranks(&self) -> ZipfRanks {
        self.ranks
    }

    /// Builds a sampler over `ranks` with the exponent that `exponent` writes
    /// in plain decimal.
    pub fn new(ranks: ZipfRanks, exponent: &str) -> (r: Result<Self, ConfigError>)
        ensures
            r is Ok <==> ranks.nelems > 0 && exponent_text(exponent@),
            r is Ok ==> r->Ok_0.ranks() == ranks,
            ranks.nelems == 0 ==> r == Err::<Self, ConfigError>(ConfigError::EmptyRegion),
            ranks.nelems > 0 && !exponent_text(exponent@) ==> r == Err::<Self, ConfigError>(
                ConfigError::InvalidExponent,
            ),
    {
        if ranks.nelems == 0 {
            return Err(ConfigError::EmptyRegion);
        }
        if !is_exponent_text(exponent) {
            return Err(ConfigError::InvalidExponent);
        }
        match zipf_new(ranks.nelems, exponent) {
            Some(dist) => Ok(ZipfSampler { ranks, dist }),
            None => Err(ConfigError::EmptyRegion),
        }
    }

    /// Draws one rank; `None` when the draw falls outside `1..=nelems`.
    pub fn sample(&self, rng: &mut rand::rngs::ThreadRng) -> (r: Option<usize>)
        ensures
            r is Some ==> 1 <= r->Some_0 <= self.ranks().nelems,
    {
        let k = zipf_rank(&self.dist, rng);
        self.ranks.of_rank(k)
    }
}

} // verus!
