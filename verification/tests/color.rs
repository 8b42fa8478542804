use drawing_canvas::color::{
    power_2_4, srgb_to_linear, srgb_to_linear_rgba, srgb_u8_to_linear_f32, SRGB_KNEE,
};

const ONE: i32 = 65536;

fn fx(v: f64) -> i32 {
    (v * 65536.0).round() as i32
}

fn as_float(v: i32) -> f32 {
    (v as f64 / 65536.0) as f32
}

fn reference(c: f64) -> f64 {
    if c <= 0.04045 {
        c / 12.92
    } else {
        ((c + 0.055) / 1.055).powf(2.4)
    }
}

#[test]
fn test_srgb_to_linear() {
    // Test black
    assert_eq!(as_float(srgb_to_linear(fx(0.0))), 0.0);

    // Test white
    assert!((as_float(srgb_to_linear(fx(1.0))) - 1.0).abs() < 0.001);

    // Test middle gray (sRGB 0.5 ≈ linear 0.214)
    let linear = as_float(srgb_to_linear(fx(0.5)));
    assert!((linear - 0.214).abs() < 0.01);
}

#[test]
fn test_flutter_paper_color() {
    // paper colour #F4F3EF (244, 243, 239)
    let linear = srgb_u8_to_linear_f32(244, 243, 239, fx(1.0));

    // lighter colours are close to 1.0; the curve gives 0.905, 0.896 and 0.863
    assert!(as_float(linear[0]) > 0.9 && as_float(linear[0]) <= 1.0);
    assert!((as_float(linear[1]) - 0.8963).abs() < 0.001 && as_float(linear[1]) <= 1.0);
    assert!((as_float(linear[2]) - 0.8632).abs() < 0.001 && as_float(linear[2]) <= 1.0);
    assert_eq!(as_float(linear[3]), 1.0);
}

#[test]
fn test_flutter_brush_color() {
    // brush colour #A302DE (163, 2, 222)
    let linear = srgb_u8_to_linear_f32(163, 2, 222, fx(1.0));

    // Verify alpha is preserved
    assert_eq!(as_float(linear[3]), 1.0);

    // Verify color components are in valid range
    assert!(as_float(linear[0]) >= 0.0 && as_float(linear[0]) <= 1.0);
    assert!(as_float(linear[1]) >= 0.0 && as_float(linear[1]) <= 1.0);
    assert!(as_float(linear[2]) >= 0.0 && as_float(linear[2]) <= 1.0);
}

#[test]
fn black_and_white_are_exact() {
    assert_eq!(srgb_to_linear(0), 0);
    assert_eq!(srgb_to_linear(ONE), ONE);
}

#[test]
fn linear_segment_divides_by_twelve_point_nine_two_and_rounds_to_nearest() {
    assert_eq!(srgb_to_linear(1292), 100);
    // 2650 / 12.92 is 205.1; 514 / 12.92 is 39.8
    assert_eq!(srgb_to_linear(SRGB_KNEE), 205);
    assert_eq!(srgb_to_linear(514), 40);
    assert_eq!(srgb_to_linear(6), 0);
    assert_eq!(srgb_to_linear(7), 1);
    assert_eq!(srgb_to_linear(-1292), -100);
    assert_eq!(srgb_to_linear(-514), -40);
    assert_eq!(srgb_to_linear(i32::MIN), -((2 * (1i64 << 31) * 25 + 323) / 646) as i32);
    for c in -3000..=SRGB_KNEE {
        let got = srgb_to_linear(c) as f64;
        assert!((got - c as f64 / 12.92).abs() <= 0.5, "channel {c}");
    }
}

#[test]
fn dark_green_of_the_default_brush_is_within_a_hundred_thousandth() {
    let linear = srgb_u8_to_linear_f32(163, 2, 222, fx(1.0));
    assert!((as_float(linear[0]) - 0.3663).abs() < 1e-3);
    assert!((as_float(linear[1]) - 0.000607).abs() < 1e-5);
    assert!((as_float(linear[2]) - 0.7305).abs() < 1e-3);
    assert_eq!(linear[3], ONE);
}

#[test]
fn channels_above_one_follow_the_curve() {
    // 2.0 gives 4.95
    let two = srgb_to_linear(2 * ONE) as f64 / 65536.0;
    assert!((two - reference(2.0)).abs() < 1e-3, "{two}");
    assert!((two - 4.9538).abs() < 1e-3, "{two}");
    assert!(srgb_to_linear(ONE + 1) >= ONE);
    for c in [1.0001, 1.5, 3.0, 10.0, 50.0, 79.0] {
        let got = srgb_to_linear(fx(c)) as f64 / 65536.0;
        let want = reference(fx(c) as f64 / 65536.0);
        assert!((got - want).abs() < want * 1e-4, "channel {c}: {got} against {want}");
    }
}

#[test]
fn channel_saturates_only_where_the_format_ends() {
    // the curve reaches 32768 between 80.2 and 80.3
    assert!(srgb_to_linear(fx(80.2)) < i32::MAX);
    assert!((srgb_to_linear(fx(80.2)) as f64 / 65536.0 - reference(80.2)).abs() < 4.0);
    assert_eq!(srgb_to_linear(fx(80.3)), i32::MAX);
    assert_eq!(srgb_to_linear(i32::MAX), i32::MAX);
}

#[test]
fn every_channel_follows_the_curve_within_four_units() {
    let mut c = 0;
    while c <= ONE {
        let got = srgb_to_linear(c) as f64 / 65536.0;
        let want = reference(c as f64 / 65536.0);
        assert!((got - want).abs() < 3.5 / 65536.0, "channel {c}: {got} against {want}");
        c += 7;
    }
}

#[test]
fn curve_never_falls() {
    let mut last = srgb_to_linear(0);
    let mut c = 1;
    while c <= 2 * ONE {
        let now = srgb_to_linear(c);
        assert!(now >= last, "falls at {c}");
        last = now;
        c += if c < 4000 { 1 } else { 13 };
    }
}

#[test]
fn power_is_the_exact_floor() {
    for u in [0u32, 1, 2, 100, 4681, 34476, 40000, 65535, 65536, 65537, 127654, 4_987_000, u32::MAX] {
        let r = power_2_4(u) as u128;
        let u12 = num_pow(u as u128, 12);
        let mut low = num_pow(r, 5);
        low = num_mul_small(&low, 1u128 << 56);
        low = num_mul_small(&low, 1u128 << 56);
        let mut high = num_pow(r + 1, 5);
        high = num_mul_small(&high, 1u128 << 56);
        high = num_mul_small(&high, 1u128 << 56);
        assert!(num_le(&low, &u12), "base {u}");
        assert!(!num_le(&high, &u12), "base {u}");
    }
    assert_eq!(power_2_4(0), 0);
    assert_eq!(power_2_4(65536), 65536);
    assert_eq!(power_2_4(32768), (0.5f64.powf(2.4) * 65536.0).floor() as u64);
    assert_eq!(power_2_4(2 * 65536), (2.0f64.powf(2.4) * 65536.0).floor() as u64);
}

/// `base` to the power `exp` as little-endian 64-bit limbs.
fn num_pow(base: u128, exp: u32) -> Vec<u64> {
    let mut acc: Vec<u64> = vec![1];
    for _ in 0..exp {
        acc = num_mul_small(&acc, base);
    }
    acc
}

fn num_mul_small(a: &[u64], b: u128) -> Vec<u64> {
    assert!(b < 1u128 << 64);
    let mut out = Vec::new();
    let mut carry: u128 = 0;
    for limb in a {
        let wide = *limb as u128 * b + carry;
        out.push(wide as u64);
        carry = wide >> 64;
    }
    while carry > 0 {
        out.push(carry as u64);
        carry >>= 64;
    }
    out
}

/// Whether `a <= b` for multi-limb numbers.
fn num_le(a: &[u64], b: &[u64]) -> bool {
    let n = a.len().max(b.len());
    for i in (0..n).rev() {
        let x = a.get(i).copied().unwrap_or(0);
        let y = b.get(i).copied().unwrap_or(0);
        if x != y {
            return x < y;
        }
    }
    true
}

#[test]
fn alpha_passes_through() {
    let out = srgb_to_linear_rgba([fx(0.5), 0, ONE, 12345]);
    assert_eq!(out, [srgb_to_linear(fx(0.5)), 0, ONE, 12345]);
    let out = srgb_to_linear_rgba([0, 0, 0, -7]);
    assert_eq!(out[3], -7);
}

#[test]
fn bytes_are_fractions_of_255() {
    let out = srgb_u8_to_linear_f32(255, 0, 128, 77);
    assert_eq!(out[0], ONE);
    assert_eq!(out[1], 0);
    assert_eq!(out[2], srgb_to_linear(128 * 65536 / 255));
    assert_eq!(out[3], 77);
}
