use gups::distribution::{Backwards, Mod};
use gups::progress::{batch_sizes, run_chunk, CHUNK_SIZE};
use gups::report::{Action, Event, Reporter};
use gups::residency::{fast_tier_counts, find_region, AddrRange, ChunkCount, PageEntry, PfnRange};
use gups::pfn::parse_pfn_range;
use gups::update::update;
use gups::workload::{check_thread_count, compose, AccessPattern, ConfigError, UniformRange, Workload};

#[test]
fn mod_reduces_into_range() {
    let m = Mod::new((), 10);
    assert_eq!(m.reduce(0), 0);
    assert_eq!(m.reduce(9), 9);
    assert_eq!(m.reduce(10), 0);
    assert_eq!(m.reduce(123), 3);
    assert_eq!(m.reduce(usize::MAX), usize::MAX % 10);
}

#[test]
fn backwards_twice_is_identity() {
    let inner = Backwards::new((), 99);
    let outer = Backwards::new((), 99);
    for x in 0..=99usize {
        assert_eq!(outer.reflect(inner.reflect(x)), x);
    }
    assert_eq!(inner.reflect(0), 99);
    assert_eq!(inner.reflect(99), 0);
}

#[test]
fn byte_counter_wraps_at_255() {
    let mut mem = vec![0u8; 4];
    for _ in 0..255 {
        update(&mut mem, 1, 2);
    }
    assert_eq!(mem, vec![0, 0, 255, 0]);
    update(&mut mem, 1, 2);
    assert_eq!(mem, vec![0, 0, 0, 0]);
}

#[test]
fn wide_counters_carry_and_wrap() {
    let mut mem = vec![0u8; 32];
    update(&mut mem, 2, 1);
    assert_eq!(u16::from_le_bytes([mem[2], mem[3]]), 1);
    mem[4..8].copy_from_slice(&0x00ff_ffffu32.to_le_bytes());
    update(&mut mem, 4, 1);
    assert_eq!(u32::from_le_bytes([mem[4], mem[5], mem[6], mem[7]]), 0x0100_0000);
    mem[16..32].copy_from_slice(&u128::MAX.to_le_bytes());
    update(&mut mem, 16, 1);
    assert!(mem[16..32].iter().all(|&b| b == 0));
    assert_eq!(mem[0..2], [0, 0]);
    let mut m8 = vec![0u8; 16];
    m8[8..16].copy_from_slice(&u64::MAX.to_le_bytes());
    update(&mut m8, 8, 1);
    assert_eq!(m8, vec![0u8; 16]);
}

#[test]
fn single_worker_counts_every_hit() {
    let pattern = compose(Workload::Random, 1, 8).unwrap();
    let raws = vec![3usize, 3, 0, 7, 3];
    let mut mem = vec![0u8; 8];
    let n = run_chunk(&mut mem, 1, &pattern, &raws);
    assert_eq!(n, 5);
    assert_eq!(mem, vec![1, 0, 0, 3, 0, 0, 0, 1]);
}

#[test]
fn compose_errors() {
    let hot = |hot, weight| Workload::Hotset { hot, weight, reverse: false };
    assert!(matches!(compose(Workload::Random, 3, 100), Err(ConfigError::UnsupportedGranularity)));
    assert!(matches!(compose(Workload::Random, 16, 15), Err(ConfigError::EmptyRegion)));
    assert!(matches!(compose(hot(1, 9), 2, 100), Err(ConfigError::HotRegionEmpty)));
    assert!(matches!(compose(hot(100, 9), 1, 100), Err(ConfigError::HotRegionTooLarge)));
    assert!(matches!(compose(hot(10, 0), 1, 100), Err(ConfigError::ZeroWeight)));
    assert_eq!(check_thread_count(0), Err(ConfigError::NoThreads));
    assert_eq!(check_thread_count(4), Ok(4));
}

#[test]
fn composed_indices_stay_in_region() {
    for g in [1usize, 2, 4, 8, 16] {
        let len = 4096usize;
        let end = len / g;
        let workloads = [
            Workload::Random,
            Workload::Zipf { reverse: false },
            Workload::Zipf { reverse: true },
            Workload::Hotset { hot: 64, weight: 9, reverse: false },
            Workload::Hotset { hot: 64, weight: 9, reverse: true },
        ];
        for w in workloads {
            let p = compose(w, g, len).unwrap();
            for raw in [0usize, 1, end - 1, end, end + 1, usize::MAX] {
                if p.accepts(raw) {
                    assert!(p.index_of(raw) < end);
                }
            }
        }
    }
}

#[test]
fn reversed_patterns_mirror() {
    let p = compose(Workload::Zipf { reverse: true }, 1, 100).unwrap();
    assert_eq!(p.index_of(1), 99);
    assert_eq!(p.index_of(100), 0);
    assert!(!p.accepts(0));
    assert!(!p.accepts(101));
    let z = compose(Workload::Zipf { reverse: false }, 1, 100).unwrap();
    assert_eq!(z.index_of(1), 0);
    let h = compose(Workload::Hotset { hot: 10, weight: 3, reverse: true }, 1, 100).unwrap();
    assert_eq!(h.index_of(0), 99);
    assert_eq!(h.index_of(105), 94);
    match h {
        AccessPattern::HotsetReversed(b) => {
            assert_eq!(b.minuend, 99);
            assert_eq!(b.distribution.len, 100);
            assert_eq!(b.distribution.distribution.hot, UniformRange { low: 0, high: 10 });
            assert_eq!(b.distribution.distribution.rest, UniformRange { low: 10, high: 100 });
            assert_eq!(b.distribution.distribution.weight, 3);
        }
        _ => panic!("expected a reversed hot set"),
    }
}

#[test]
fn batches_add_up_to_updates() {
    let b = batch_sizes(10000, CHUNK_SIZE);
    assert_eq!(b, vec![4096, 4096, 1808]);
    assert_eq!(b.iter().sum::<usize>(), 10000);
    assert_eq!(batch_sizes(0, CHUNK_SIZE), Vec::<usize>::new());
    assert_eq!(batch_sizes(8192, CHUNK_SIZE), vec![4096, 4096]);
    for threads_chunk in [1usize, 7, 4096] {
        assert_eq!(batch_sizes(100000, threads_chunk).iter().sum::<usize>(), 100000);
    }
}

#[test]
fn reporting_loop_emits_one_final() {
    let mut r = Reporter::new();
    let mut actions = Vec::new();
    for c in batch_sizes(10000, CHUNK_SIZE) {
        actions.push(r.step(Event::Progress(c)));
    }
    actions.push(r.step(Event::Closed));
    assert!(r.finished);
    let finals: Vec<_> = actions.iter().filter(|a| matches!(a, Action::Final { .. })).collect();
    assert_eq!(finals.len(), 1);
    assert_eq!(*actions.last().unwrap(), Action::Final { total: 10000 });
}

#[test]
fn reporting_tick_resets_period() {
    let mut r = Reporter::new();
    assert_eq!(r.step(Event::Progress(5)), Action::Continue);
    assert_eq!(r.step(Event::Tick), Action::Throughput { total: 5, period: 5 });
    assert_eq!(r.step(Event::Progress(3)), Action::Continue);
    assert_eq!(r.step(Event::Tick), Action::Throughput { total: 8, period: 3 });
    assert_eq!(r.step(Event::Closed), Action::Final { total: 8 });
}

#[test]
fn fast_tier_counts_per_chunk() {
    let e = |present, pfn| PageEntry { present, pfn };
    let entries = vec![e(true, 5), e(true, 20), e(false, 5), e(true, 9), e(true, 10)];
    let tier = PfnRange { start: 5, end: 10 };
    let r = fast_tier_counts(&entries, 2, tier);
    assert_eq!(
        r,
        vec![
            ChunkCount { fast: 1, pages: 2 },
            ChunkCount { fast: 1, pages: 2 },
            ChunkCount { fast: 0, pages: 1 },
        ]
    );
    assert_eq!(fast_tier_counts(&Vec::new(), 3, tier), Vec::new());
}

#[test]
fn region_lookup_takes_first_match() {
    let ranges = vec![
        AddrRange { start: 0x1000, end: 0x2000 },
        AddrRange { start: 0x3000, end: 0x5000 },
        AddrRange { start: 0x4000, end: 0x6000 },
    ];
    assert_eq!(find_region(&ranges, 0x1000), Some(0));
    assert_eq!(find_region(&ranges, 0x2000), None);
    assert_eq!(find_region(&ranges, 0x4800), Some(1));
    assert_eq!(find_region(&ranges, 0x5800), Some(2));
}

#[test]
fn pfn_range_parsing() {
    assert_eq!(parse_pfn_range(b"0 4194304\n"), Some(PfnRange { start: 0, end: 4194304 }));
    assert_eq!(parse_pfn_range(b"  \t12\n\n34 56"), Some(PfnRange { start: 12, end: 34 }));
    assert_eq!(parse_pfn_range(b"12"), None);
    assert_eq!(parse_pfn_range(b""), None);
    assert_eq!(parse_pfn_range(b"12 x4"), None);
    assert_eq!(parse_pfn_range(b"-1 4"), None);
    assert_eq!(
        parse_pfn_range(b"18446744073709551615 1"),
        Some(PfnRange { start: u64::MAX, end: 1 })
    );
    assert_eq!(parse_pfn_range(b"18446744073709551616 1"), None);
}

#[test]
fn uniform_samples_in_range() {
    let mut rng = rand::thread_rng();
    let u = UniformRange { low: 10, high: 13 };
    let mut seen = [false; 3];
    for _ in 0..1000 {
        let x = u.sample(&mut rng);
        assert!((10..13).contains(&x));
        seen[x - 10] = true;
    }
    assert!(seen.iter().all(|&s| s));
}

#[test]
fn random_workload_end_to_end() {
    let mut rng = rand::thread_rng();
    let pattern = compose(Workload::Random, 1, 4096).unwrap();
    let u = match &pattern {
        AccessPattern::Random(u) => *u,
        _ => panic!("expected a uniform pattern"),
    };
    let mut mem = vec![0u8; 4096];
    let mut delivered = 0usize;
    let mut hits = 0u64;
    for size in batch_sizes(10000, CHUNK_SIZE) {
        let raws: Vec<usize> = (0..size).map(|_| u.sample(&mut rng)).collect();
        for &raw in &raws {
            assert!(pattern.index_of(raw) < 4096);
        }
        delivered += run_chunk(&mut mem, 1, &pattern, &raws);
    }
    assert_eq!(delivered, 10000);
    // Byte counters may wrap, so count modulo 256 per byte.
    for &b in &mem {
        hits += b as u64;
    }
    assert_eq!(hits % 256, 10000 % 256);
}

#[test]
fn mod_sample_wraps_uniform_draws() {
    let mut rng = rand::thread_rng();
    let m = Mod::new(UniformRange { low: 100, high: 110 }, 7);
    let mut seen = [false; 7];
    for _ in 0..2000 {
        let x = m.sample(&mut rng);
        assert!(x < 7);
        seen[x] = true;
    }
    // 100..110 mod 7 covers every residue
    assert!(seen.iter().all(|&s| s));
}

#[test]
fn backwards_twice_samples_inner_range() {
    let mut rng = rand::thread_rng();
    let once = Backwards::new(UniformRange { low: 3, high: 6 }, 9);
    let twice = Backwards::new(Backwards::new(UniformRange { low: 3, high: 6 }, 9), 9);
    for _ in 0..1000 {
        let a = once.sample(&mut rng);
        assert!((4..=6).contains(&a));
        let b = twice.sample(&mut rng);
        assert!((3..6).contains(&b));
    }
}
