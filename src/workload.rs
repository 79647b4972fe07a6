use vstd::prelude::*;
use crate::distribution::{Mod, Backwards};
use crate::update::valid_granularity;

verus! {

/// An access pattern as selected by the user. The Zipf exponent is a
/// floating-point parameter of the rank sampler and is held by whoever builds it.
#[derive(Clone, Copy, Debug, PartialEq, Eq, Structural)]
pub enum Workload {
    /// Two uniform regions, `[0, hot)` and the rest, with `weight` times more hits
    /// per unit length on the first.
    Hotset { hot: usize, weight: usize, reverse: bool },
    /// Zipfian ranks; rank 1 is the most frequent.
    Zipf { reverse: bool },
    /// Uniform over the whole region.
    Random,
}

/// Why a workload could not be composed.
#[derive(Clone, Copy, Debug, PartialEq, Eq, Structural)]
pub enum ConfigError {
    /// The granularity is not one of 1, 2, 4, 8 or 16.
    UnsupportedGranularity,
    /// The region holds no counter of the given granularity.
    EmptyRegion,
    /// The hot region holds no counter.
    HotRegionEmpty,
    /// The hot region leaves no counter for the rest of the region.
    HotRegionTooLarge,
    /// The hot region's weight is zero.
    ZeroWeight,
    /// The Zipf exponent is not a plain decimal above zero of at most
    /// `MAX_EXPONENT_LEN` characters.
    InvalidExponent,
    /// The worker pool was asked for no thread.
    NoThreads,
}

/// A uniform distribution over `[low, high)`.
#[derive(Clone, Copy, Debug, PartialEq, Eq, Structural)]
pub struct UniformRange {
    pub low: usize,
    pub high: usize,
}

/// The weighted union of `Uniform[0, split)` (weight `weight`) and
/// `Uniform[split, end)` (weight 1).
#[derive(Clone, Copy, Debug, PartialEq, Eq, Structural)]
pub struct HotsetMix {
    pub hot: UniformRange,
    pub rest: UniformRange,
    pub weight: usize,
}

/// A Zipfian distribution over the ranks `1..=nelems`.
#[derive(Clone, Copy, Debug, PartialEq, Eq, Structural)]
pub struct ZipfRanks {
    pub nelems: usize,
}

/// A composed access-index distribution. Each variant names the base
/// distribution that raw samples are drawn from and the adapters they pass through.
pub enum AccessPattern {
    Hotset(Mod<HotsetMix>),
    HotsetReversed(Backwards<Mod<HotsetMix>>),
    Zipf(ZipfRanks),
    ZipfReversed(Backwards<ZipfRanks>),
    Random(UniformRange),
}

/// The distribution that `compose` builds, or the error it reports.
pub open spec fn spec_compose(w: Workload, g: usize, len: usize) -> Result<AccessPattern, ConfigError> {
    let end = (len / g) as usize;
    if !valid_granularity(g) {
        Err(ConfigError::UnsupportedGranularity)
    } else if end == 0 {
        Err(ConfigError::EmptyRegion)
    } else {
        match w {
            Workload::Hotset { hot, weight, reverse } => {
                let split = (hot / g) as usize;
                if split == 0 {
                    Err(ConfigError::HotRegionEmpty)
                } else if split >= end {
                    Err(ConfigError::HotRegionTooLarge)
                } else if weight == 0 {
                    Err(ConfigError::ZeroWeight)
                } else {
                    let m = Mod {
                        distribution: HotsetMix {
                            hot: UniformRange { low: 0, high: split },
                            rest: UniformRange { low: split, high: end },
                            weight,
                        },
                        len: end,
                    };
                    if reverse {
                        Ok(AccessPattern::HotsetReversed(Backwards { distribution: m, minuend: (end - 1) as usize }))
                    } else {
                        Ok(AccessPattern::Hotset(m))
                    }
                }
            },
            Workload::Zipf { reverse } => {
                let z = ZipfRanks { nelems: end };
                if reverse {
                    Ok(AccessPattern::ZipfReversed(Backwards { distribution: z, minuend: (end - 1) as usize }))
                } else {
                    Ok(AccessPattern::Zipf(z))
                }
            },
            Workload::Random => Ok(AccessPattern::Random(UniformRange { low: 0, high: end })),
        }
    }
}

/// Builds the access-index distribution of workload `w` over the
/// `len / g` counters of a region of `len` bytes, or reports why it cannot.
pub fn compose(w: Workload, g: usize, len: usize) -> (r: Result<AccessPattern, ConfigError>)
    ensures
        r == spec_compose(w, g, len),
        r is Ok ==> r->Ok_0.wf() && r->Ok_0.end() == len / g,
{
    if !(g == 1 || g == 2 || g == 4 || g == 8 || g == 16) {
        return Err(ConfigError::UnsupportedGranularity);
    }
    let end: usize = len / g;
    if end == 0 {
        return Err(ConfigError::EmptyRegion);
    }
    match w {
        Workload::Hotset { hot, weight, reverse } => {
            let split: usize = hot / g;
            if split == 0 {
                Err(ConfigError::HotRegionEmpty)
            } else if split >= end {
                Err(ConfigError::HotRegionTooLarge)
            } else if weight == 0 {
                Err(ConfigError::ZeroWeight)
            } else {
                let mix = HotsetMix {
                    hot: UniformRange { low: 0, high: split },
                    rest: UniformRange { low: split, high: end },
                    weight,
                };
                let m = Mod::new(mix, end);
                if reverse {
                    Ok(AccessPattern::HotsetReversed(Backwards::new(m, end - 1)))
                } else {
                    Ok(AccessPattern::Hotset(m))
                }
            }
        },
        Workload::Zipf { reverse } => {
            let z = ZipfRanks { nelems: end };
            if reverse {
                Ok(AccessPattern::ZipfReversed(Backwards::new(z, end - 1)))
            } else {
                Ok(AccessPattern::Zipf(z))
            }
        },
        Workload::Random => Ok(AccessPattern::Random(UniformRange { low: 0, high: end })),
    }
}

impl AccessPattern {
    /// One past the largest index that the pattern yields.
    pub open spec fn end(&self) -> nat {
        match self {
            AccessPattern::Hotset(m) => m.len as nat,
            AccessPattern::HotsetReversed(b) => (b.minuend + 1) as nat,
            AccessPattern::Zipf(z) => z.nelems as nat,
            AccessPattern::ZipfReversed(b) => (b.minuend + 1) as nat,
            AccessPattern::Random(u) => u.high as nat,
        }
    }

    /// The parameters are coherent: ranges are non-empty and mirrors cover
    /// exactly the inner range.
    pub open spec fn wf(&self) -> bool {
        match self {
            AccessPattern::Hotset(m) => m.len > 0,
            AccessPattern::HotsetReversed(b) => b.distribution.len > 0 && b.minuend + 1
                == b.distribution.len,
            AccessPattern::Zipf(z) => z.nelems > 0,
            AccessPattern::ZipfReversed(b) => b.distribution.nelems > 0 && b.minuend + 1
                == b.distribution.nelems,
            AccessPattern::Random(u) => u.low < u.high,
        }
    }

    /// The raw samples that the base distribution can yield: any integer for the
    /// hot-set mixture (the modulus reduces it), a rank in `1..=nelems` for Zipf,
    /// a value in `[low, high)` for the uniform pattern.
    pub open spec fn raw_ok(&self, raw: usize) -> bool {
        match self {
            AccessPattern::Hotset(_) => true,
            AccessPattern::HotsetReversed(_) => true,
            AccessPattern::Zipf(z) => 1 <= raw <= z.nelems,
            AccessPattern::ZipfReversed(b) => 1 <= raw <= b.distribution.nelems,
            AccessPattern::Random(u) => u.low <= raw < u.high,
        }
    }

    /// The access index that raw sample `raw` of the base distribution becomes.
    pub open spec fn spec_index_of(&self, raw: usize) -> int {
        match self {
            AccessPattern::Hotset(m) => (raw as int) % (m.len as int),
            AccessPattern::HotsetReversed(b) => b.minuend - (raw as int) % (b.distribution.len as int),
            AccessPattern::Zipf(_) => raw - 1,
            AccessPattern::ZipfReversed(b) => b.minuend - (raw - 1),
            AccessPattern::Random(_) => raw as int,
        }
    }

    pub fn accepts(&self, raw: usize) -> (r: bool)
        ensures
            r == self.raw_ok(raw),
    {
        match self {
            AccessPattern::Hotset(_) => true,
            AccessPattern::HotsetReversed(_) => true,
            AccessPattern::Zipf(z) => 1 <= raw && raw <= z.nelems,
            AccessPattern::ZipfReversed(b) => 1 <= raw && raw <= b.distribution.nelems,
            AccessPattern::Random(u) => u.low <= raw && raw < u.high,
        }
    }

    /// Maps a raw sample of the base distribution through the adapters.
    pub fn index_of(&self, raw: usize) -> (r: usize)
        requires
            self.wf(),
            self.raw_ok(raw),
        ensures
            r == self.spec_index_of(raw),
            r < self.end(),
    {
        match self {
            AccessPattern::Hotset(m) => m.reduce(raw),
            AccessPattern::HotsetReversed(b) => {
                let x = b.distribution.reduce(raw);
                b.reflect(x)
            },
            AccessPattern::Zipf(_) => raw - 1,
            AccessPattern::ZipfReversed(b) => b.reflect(raw - 1),
            AccessPattern::Random(_) => raw,
        }
    }
}

/// The worker pool needs at least one thread.
pub fn check_thread_count(threads: usize) -> (r: Result<usize, ConfigError>)
    ensures
        threads == 0 ==> r == Err::<usize, ConfigError>(ConfigError::NoThreads),
        threads > 0 ==> r == Ok::<usize, ConfigError>(threads),
{
    if threads == 0 {
        Err(ConfigError::NoThreads)
    } else {
        Ok(threads)
    }
}

/// Every index that a composed pattern yields for a granularity `g` lies in
/// `[0, len / g)`.
pub proof fn lemma_indices_in_region(w: Workload, g: usize, len: usize, raw: usize)
    requires
        spec_compose(w, g, len) is Ok,
        spec_compose(w, g, len)->Ok_0.raw_ok(raw),
    ensures
        0 <= spec_compose(w, g, len)->Ok_0.spec_index_of(raw) < len / g,
{
    let p = spec_compose(w, g, len)->Ok_0;
    match p {
        AccessPattern::Hotset(m) => {},
        AccessPattern::HotsetReversed(b) => {},
        _ => {},
    }
}

} // verus!
