use zoa::shapes::particles::{burst_size, xorshift, RNG_SEED};
use zoa::shapes::sdf::lattice_hash;
use zoa::text::{parse_decimal, split_words, trim};
use zoa::{ParticlePreset, SdfPreset, TimeSpan};

#[test]
fn xorshift_matches_shift_xor_steps() {
    let mut x = RNG_SEED;
    x ^= x << 13;
    x ^= x >> 17;
    x ^= x << 5;
    assert_eq!(xorshift(RNG_SEED), x);
    assert_eq!(xorshift(1), 270369);
    assert_eq!(xorshift(0), 0);
    let mut s = RNG_SEED;
    for _ in 0..1000 {
        s = xorshift(s);
        assert_ne!(s, 0);
    }
}

#[test]
fn lattice_hash_wraps() {
    let expect = |x: i32, y: i32| {
        let n = x.wrapping_mul(374761393).wrapping_add(y.wrapping_mul(668265263));
        (n ^ (n >> 13)).wrapping_mul(1274126177)
    };
    assert_eq!(lattice_hash(0, 0), 0);
    assert_eq!(lattice_hash(1, 0), expect(1, 0));
    assert_eq!(lattice_hash(-7, 123456), expect(-7, 123456));
    assert_eq!(lattice_hash(i32::MAX, i32::MIN), expect(i32::MAX, i32::MIN));
}

#[test]
fn bursts_fill_up_to_the_limit() {
    assert_eq!(burst_size(0, 1000, 100), 100);
    assert_eq!(burst_size(950, 1000, 100), 50);
    assert_eq!(burst_size(1000, 1000, 100), 0);
    assert_eq!(burst_size(1200, 1000, 5), 0);
}

#[test]
fn presets_cycle() {
    let mut p = ParticlePreset::Fire;
    for _ in 0..8 {
        p = p.next();
    }
    assert_eq!(p, ParticlePreset::Fire);
    assert_eq!(ParticlePreset::Matrix.name(), "Matrix");
    let mut s = SdfPreset::Metaballs;
    for _ in 0..6 {
        s = s.next();
    }
    assert_eq!(s, SdfPreset::Metaballs);
}

#[test]
fn time_spans() {
    let a = TimeSpan::new(1, 1_500_000_000);
    assert_eq!(a.as_secs(), 2);
    assert_eq!(a.subsec_nanos(), 500_000_000);
    assert_eq!(a.as_millis(), 2500);
    assert_eq!(TimeSpan::from_nanos(1_000_000_001).subsec_nanos(), 1);
    assert!(TimeSpan::from_millis(999).shorter_than(&TimeSpan::from_secs(1)));
    assert_eq!(TimeSpan::from_secs(u64::MAX).checked_add(&TimeSpan::from_secs(1)), None);
    assert_eq!(a.minus(&TimeSpan::from_millis(500)), TimeSpan::from_secs(2));
}

#[test]
fn text_helpers() {
    let w = split_words(&" a  bc\u{2003}d\n".chars().collect::<Vec<_>>());
    let w: Vec<String> = w.iter().map(|x| x.iter().collect()).collect();
    assert_eq!(w, ["a", "bc", "d"]);
    assert_eq!(parse_decimal(&['+', '4', '2']), Some(42));
    assert_eq!(parse_decimal(&['4', 'x']), None);
    assert_eq!(parse_decimal(&['+']), None);
    assert_eq!(parse_decimal(&"18446744073709551616".chars().collect::<Vec<_>>()), None);
    assert_eq!(trim(&[' ', 'a', ' ', 'b', '\t']), vec!['a', ' ', 'b']);
}
