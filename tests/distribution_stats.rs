use gups::sample::{is_exponent_text, ZipfSampler};
use gups::workload::{compose, AccessPattern, ConfigError, HotsetMix, Workload, ZipfRanks};
use mix_distribution::Mix;
use rand::SeedableRng;

/// Drives a rand 0.7 distribution (the one mix-distribution builds on) from a
/// rand 0.8 generator.
struct Compat<'a, R: rand::RngCore>(&'a mut R);

impl<R: rand::RngCore> rand_core::RngCore for Compat<'_, R> {
    fn next_u32(&mut self) -> u32 {
        self.0.next_u32()
    }
    fn next_u64(&mut self) -> u64 {
        self.0.next_u64()
    }
    fn fill_bytes(&mut self, dest: &mut [u8]) {
        self.0.fill_bytes(dest)
    }
    fn try_fill_bytes(&mut self, dest: &mut [u8]) -> Result<(), rand_core::Error> {
        self.0.fill_bytes(dest);
        Ok(())
    }
}

fn mix_of(h: &HotsetMix) -> Mix<rand_distr::Uniform<usize>, usize, usize> {
    let dists = [
        rand_distr::Uniform::new(h.hot.low, h.hot.high),
        rand_distr::Uniform::new(h.rest.low, h.rest.high),
    ];
    Mix::new(dists, [h.weight, 1]).unwrap()
}

/// Fraction of `n` indices of a hot-set pattern that land in `[lo, hi)`.
fn hot_fraction(pattern: &AccessPattern, n: usize, lo: usize, hi: usize, seed: u64) -> f64 {
    let h = match pattern {
        AccessPattern::Hotset(m) => m.distribution,
        AccessPattern::HotsetReversed(b) => b.distribution.distribution,
        _ => panic!("expected a hot-set pattern"),
    };
    let mix = mix_of(&h);
    let mut rng = rand::rngs::StdRng::seed_from_u64(seed);
    let mut hits = 0usize;
    for _ in 0..n {
        let raw = rand_distr::Distribution::sample(&mix, &mut Compat(&mut rng));
        let i = pattern.index_of(raw);
        if lo <= i && i < hi {
            hits += 1;
        }
    }
    hits as f64 / n as f64
}

#[test]
fn hotset_ninety_percent_in_hot_region() {
    let p = compose(Workload::Hotset { hot: 100, weight: 9, reverse: false }, 1, 1000).unwrap();
    let f = hot_fraction(&p, 100000, 0, 100, 7);
    assert!((f - 0.9).abs() < 0.01, "fraction {f}");
}

#[test]
fn hotset_fraction_follows_weight() {
    let p = compose(Workload::Hotset { hot: 400, weight: 3, reverse: false }, 4, 4000).unwrap();
    let f = hot_fraction(&p, 100000, 0, 100, 11);
    assert!((f - 0.75).abs() < 0.01, "fraction {f}");
}

#[test]
fn reversed_hotset_is_at_the_far_end() {
    let p = compose(Workload::Hotset { hot: 100, weight: 9, reverse: true }, 1, 1000).unwrap();
    let f = hot_fraction(&p, 100000, 900, 1000, 13);
    assert!((f - 0.9).abs() < 0.01, "fraction {f}");
}

fn zipf_counts(reverse: bool) -> Vec<usize> {
    let p = compose(Workload::Zipf { reverse }, 1, 1000).unwrap();
    let d = zipf::ZipfDistribution::new(1000, 1.0).unwrap();
    let mut rng = rand::rngs::StdRng::seed_from_u64(17);
    let mut counts = vec![0usize; 1000];
    for _ in 0..100000 {
        let raw = rand::distributions::Distribution::sample(&d, &mut rng);
        assert!(p.accepts(raw));
        counts[p.index_of(raw)] += 1;
    }
    counts
}

#[test]
fn zipf_first_rank_most_frequent() {
    let counts = zipf_counts(false);
    assert!(counts[1..].iter().all(|&c| c < counts[0]));
}

#[test]
fn reversed_zipf_last_index_most_frequent() {
    let counts = zipf_counts(true);
    assert!(counts[..999].iter().all(|&c| c < counts[999]));
}

#[test]
fn zipf_sampler_draws_ranks() {
    let z = ZipfSampler::new(ZipfRanks { nelems: 50 }, "1.2").unwrap();
    let mut rng = rand::thread_rng();
    let mut first = 0usize;
    for _ in 0..10000 {
        let k = z.sample(&mut rng).unwrap();
        assert!((1..=50).contains(&k));
        if k == 1 {
            first += 1;
        }
    }
    assert!(first > 1000);
}

#[test]
fn zipf_exponent_text() {
    let r = ZipfRanks { nelems: 10 };
    for ok in ["1", "0.5", "1.", ".25", "00012.5000", "0.0000001"] {
        assert!(is_exponent_text(ok), "{ok}");
        assert!(ZipfSampler::new(r, ok).is_ok(), "{ok}");
    }
    let long = "1".repeat(33);
    for bad in ["", "0", "0.000", ".", "1.2.3", "-1", "+1", "1e3", "NaN", "inf", " 1", long.as_str()] {
        assert!(!is_exponent_text(bad), "{bad}");
        assert!(matches!(ZipfSampler::new(r, bad), Err(ConfigError::InvalidExponent)), "{bad}");
    }
    assert!(is_exponent_text(&"9".repeat(32)));
    assert!(matches!(ZipfSampler::new(ZipfRanks { nelems: 0 }, "1"), Err(ConfigError::EmptyRegion)));
    assert!(!is_exponent_text(&format!("{}", f64::NAN)));
    assert!(!is_exponent_text(&format!("{}", f64::INFINITY)));
}

#[test]
fn zipf_of_rank_bounds() {
    let r = ZipfRanks { nelems: 10 };
    assert_eq!(r.of_rank(0), None);
    assert_eq!(r.of_rank(1), Some(1));
    assert_eq!(r.of_rank(10), Some(10));
    assert_eq!(r.of_rank(11), None);
}
