use vis_parser::context::Context;
use vis_parser::number::{power_of_two, Number};

fn n(v: f64) -> Number {
    Number::from_bits(v.to_bits())
}

#[test]
fn bits_round_trip() {
    assert_eq!(n(1.5).to_bits(), 1.5f64.to_bits());
    assert_eq!(Number::zero().to_bits(), 0.0f64.to_bits());
    assert_eq!(Number::one().to_bits(), 1.0f64.to_bits());
}

#[test]
fn finite_is_neither_infinite_nor_nan() {
    assert!(n(0.0).is_finite());
    assert!(n(-1.0e300).is_finite());
    assert!(n(f64::MAX).is_finite());
    assert!(!n(f64::INFINITY).is_finite());
    assert!(!n(f64::NEG_INFINITY).is_finite());
    assert!(!n(f64::NAN).is_finite());
    assert!(n(f64::NAN).is_nan_value());
    assert!(!n(f64::INFINITY).is_nan_value());
}

#[test]
fn equality_follows_the_values() {
    assert!(n(2.0).same_value(&n(2.0)));
    assert!(n(0.0).same_value(&n(-0.0)));
    assert!(!n(2.0).same_value(&n(2.5)));
    assert!(!n(f64::NAN).same_value(&n(f64::NAN)));
    assert!(n(f64::INFINITY).same_value(&n(f64::INFINITY)));
}

#[test]
fn order_follows_the_values() {
    let samples = [
        f64::NEG_INFINITY,
        -1.0e10,
        -2.5,
        -1.0e-310,
        -0.0,
        0.0,
        1.0e-310,
        0.5,
        1.0,
        3.0,
        1.0e300,
        f64::INFINITY,
    ];
    for a in samples.iter() {
        for b in samples.iter() {
            assert_eq!(n(*a).less_than(&n(*b)), a < b, "{} < {}", a, b);
            assert_eq!(n(*a).same_value(&n(*b)), a == b, "{} == {}", a, b);
        }
        assert!(!n(*a).less_than(&n(f64::NAN)));
        assert!(!n(f64::NAN).less_than(&n(*a)));
        assert!(n(*a).sort_rank() < n(f64::NAN).sort_rank());
    }
}

#[test]
fn max_ignores_nan() {
    assert_eq!(n(1.0).max(n(2.0)), n(2.0));
    assert_eq!(n(2.0).max(n(1.0)), n(2.0));
    assert_eq!(n(f64::NAN).max(n(1.0)), n(1.0));
    assert_eq!(n(1.0).max(n(f64::NAN)), n(1.0));
    assert_eq!(n(-1.0).max(n(0.0)), n(0.0));
}

#[test]
fn count_rounds_toward_zero() {
    assert_eq!(n(0.0).to_count(), 0);
    assert_eq!(n(0.99).to_count(), 0);
    assert_eq!(n(1.0).to_count(), 1);
    assert_eq!(n(2.0).to_count(), 2);
    assert_eq!(n(2.9).to_count(), 2);
    assert_eq!(n(3.0).to_count(), 3);
    assert_eq!(n(1.0e6).to_count(), 1_000_000);
    assert_eq!(n(4503599627370496.0).to_count(), 4503599627370496);
    assert_eq!(n(9007199254740993.0).to_count(), 9007199254740993.0f64 as u64);
    assert_eq!(n(1.0e19).to_count(), 10_000_000_000_000_000_000);
    assert_eq!(n(-3.0).to_count(), 0);
    assert_eq!(n(f64::NAN).to_count(), 0);
    assert_eq!(n(f64::INFINITY).to_count(), u64::MAX);
    assert_eq!(n(1.0e30).to_count(), u64::MAX);
    assert_eq!(n(5.0e-324).to_count(), 0);
}

#[test]
fn count_agrees_with_the_cast() {
    let samples = [0.0, 0.5, 1.0, 1.5, 7.999, 8.0, 255.0, 1024.75, 1.0e15, 1.8e19, 1.9e19, -0.5];
    for v in samples.iter() {
        assert_eq!(n(*v).to_count(), *v as u64, "{}", v);
    }
}

#[test]
fn whole_numbers_are_told() {
    assert!(n(0.0).is_whole_number(0));
    assert!(n(-0.0).is_whole_number(0));
    assert!(!n(0.5).is_whole_number(0));
    assert!(n(1.0).is_whole_number(1));
    assert!(!n(1.0).is_whole_number(2));
    assert!(!n(1.5).is_whole_number(1));
    assert!(n(2.0).is_whole_number(2));
    assert!(n(3.0).is_whole_number(3));
    assert!(!n(-3.0).is_whole_number(3));
    assert!(n(1.0e15).is_whole_number(1_000_000_000_000_000));
    assert!(n(9007199254740992.0).is_whole_number(9007199254740992));
    assert!(!n(9007199254740992.0).is_whole_number(9007199254740993));
    assert!(n(18446744073709549568.0).is_whole_number(18446744073709549568));
    assert!(!n(f64::INFINITY).is_whole_number(u64::MAX));
    assert!(!n(f64::NAN).is_whole_number(0));
    assert!(!n(1.0e30).is_whole_number(u64::MAX));
}

#[test]
fn powers_of_two() {
    assert_eq!(power_of_two(0), 1);
    assert_eq!(power_of_two(1), 2);
    assert_eq!(power_of_two(10), 1024);
    assert_eq!(power_of_two(63), 1u64 << 63);
}

#[test]
fn clock_starts_at_zero() {
    let ctx = Context::default();
    assert_eq!(ctx.current_time, n(0.0));
    assert_eq!(ctx.max_time_ever, n(-1.0));
}

#[test]
fn update_time_keeps_the_latest() {
    let mut ctx = Context::default();
    ctx.update_time(n(4.0));
    assert_eq!(ctx.current_time, n(4.0));
    assert_eq!(ctx.max_time_ever, n(4.0));
    ctx.update_time(n(2.0));
    assert_eq!(ctx.current_time, n(2.0));
    assert_eq!(ctx.max_time_ever, n(4.0));
    ctx.update_time(n(7.5));
    assert_eq!(ctx.max_time_ever, n(7.5));
}

#[test]
fn max_time_never_decreases() {
    let mut ctx = Context::default();
    let times = [3.0, 1.0, 3.0, -5.0, 10.0, 9.0];
    let mut last = ctx.max_time_ever;
    for t in times.iter() {
        ctx.update_time(n(*t));
        assert!(!ctx.max_time_ever.less_than(&last));
        last = ctx.max_time_ever;
    }
    assert_eq!(last, n(10.0));
}

#[test]
fn named_numbers() {
    assert_eq!(Number::thousand(), n(1000.0));
    assert!(Number::thousand().is_whole_number(1000));
    assert!(Number::one().is_whole_number(1));
    assert_eq!(vis_parser::number::MINUS_ONE_BITS, (-1.0f64).to_bits());
}

#[test]
fn bit_patterns_behave_as_their_values() {
    let mut state: u64 = 0x9e37_79b9_7f4a_7c15;
    let mut patterns: Vec<u64> = vec![
        0,
        1,
        0x8000_0000_0000_0000,
        0x7ff0_0000_0000_0000,
        0xfff0_0000_0000_0000,
        0x7ff8_0000_0000_0000,
        0x7ff0_0000_0000_0001,
        0xffff_ffff_ffff_ffff,
        0x000f_ffff_ffff_ffff,
        0x0010_0000_0000_0000,
        0x43e0_0000_0000_0000,
        0x43ef_ffff_ffff_ffff,
        0x43f0_0000_0000_0000,
        0x4330_0000_0000_0000,
        0x433f_ffff_ffff_ffff,
        0x4340_0000_0000_0001,
        0x3fef_ffff_ffff_ffff,
        0x3ff0_0000_0000_0001,
    ];
    for i in 0..4000u64 {
        state = state.wrapping_mul(6364136223846793005).wrapping_add(1442695040888963407);
        let mut bits = state;
        if i % 3 == 0 {
            // Keep the exponent near the whole numbers.
            bits = (bits & 0x800f_ffff_ffff_ffff) | ((1000 + (state >> 57)) << 52);
        }
        patterns.push(bits);
    }
    for (k, a) in patterns.iter().enumerate() {
        let x = f64::from_bits(*a);
        let nx = Number::from_bits(*a);
        assert_eq!(nx.is_finite(), x.is_finite(), "{:x}", a);
        assert_eq!(nx.is_nan_value(), x.is_nan(), "{:x}", a);
        assert_eq!(nx.to_count(), x as u64, "{:x}", a);
        let whole = x as u64;
        let is_whole = x == whole as f64 && (whole as f64) < 18446744073709551616.0;
        assert_eq!(nx.is_whole_number(whole), is_whole, "{:x}", a);
        if whole < u64::MAX {
            assert!(!nx.is_whole_number(whole + 1) || (whole + 1) as f64 == x && x.fract() == 0.0, "{:x}", a);
        }
        let b = patterns[(k * 7 + 3) % patterns.len()];
        let y = f64::from_bits(b);
        let ny = Number::from_bits(b);
        assert_eq!(nx.same_value(&ny), x == y, "{:x} {:x}", a, b);
        assert_eq!(nx.less_than(&ny), x < y, "{:x} {:x}", a, b);
        assert_eq!(nx.same_value(&nx), x == x, "{:x}", a);
        if !x.is_nan() && !y.is_nan() {
            assert_eq!(f64::from_bits(nx.max(ny).to_bits()), x.max(y), "{:x} {:x}", a, b);
            assert_eq!(nx.sort_rank() < ny.sort_rank(), x < y, "{:x} {:x}", a, b);
        }
    }
}
