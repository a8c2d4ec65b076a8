use hms_render::config;
use hms_render::f32bits;
use hms_render::sort;
use hms_render::words;

#[test]
fn order_key_sorts_like_the_numbers() {
    let xs: Vec<f32> = vec![-3.5, -0.0, 0.0, 1e-40, 0.5, 2.0, f32::INFINITY, f32::NEG_INFINITY, -1e-40];
    for a in &xs {
        for b in &xs {
            let (ka, kb) = (f32bits::order_key(a.to_bits()), f32bits::order_key(b.to_bits()));
            assert_eq!(ka < kb, a < b, "{} {}", a, b);
            assert_eq!(ka == kb, a == b, "{} {}", a, b);
            assert_eq!(f32bits::less(a.to_bits(), b.to_bits()), a < b);
        }
    }
    assert!(!f32bits::less(f32::NAN.to_bits(), 1.0f32.to_bits()));
    assert!(!f32bits::less(1.0f32.to_bits(), f32::NAN.to_bits()));
}

#[test]
fn clamp_and_at_least_follow_the_library_functions() {
    for x in [-2.0f32, 0.005, 0.01, 1.0, 16.0, 99.0, f32::INFINITY, f32::NEG_INFINITY] {
        assert_eq!(
            f32bits::clamp(x.to_bits(), 0.01f32.to_bits(), 16.0f32.to_bits()),
            x.clamp(0.01, 16.0).to_bits()
        );
        assert_eq!(f32bits::at_least(x.to_bits(), 0.1f32.to_bits()), x.max(0.1).to_bits());
    }
    let nan = f32::NAN.to_bits();
    assert_eq!(f32bits::clamp(nan, 0, 0x3f80_0000), nan);
    assert_eq!(f32bits::at_least(nan, 0x3f80_0000), 0x3f80_0000);
}

#[test]
fn near_one_is_a_ten_thousandth() {
    for x in [1.0f32, 1.00005, 0.99995, 1.0001, 0.9999, 1.0002, 0.9998, -1.0, 0.0, 8.0, f32::INFINITY] {
        assert_eq!(f32bits::near_one(x.to_bits()), (x - 1.0).abs() < 1e-4, "{}", x);
    }
    assert!(!f32bits::near_one(f32::NAN.to_bits()));
    let mut b = 0x3f7f_0000u32;
    while b < 0x3f81_0000 {
        let x = f32::from_bits(b);
        assert_eq!(f32bits::near_one(b), (x - 1.0).abs() < 1e-4, "{}", x);
        b += 1;
    }
}

#[test]
fn times_eight_is_exact() {
    for x in [0.0f32, -0.0, 1.0, -1.5, 0.37, 1e-45, 1e-41, 1e-38, 3e37, 1e38, -3.4e38, f32::INFINITY] {
        assert_eq!(f32bits::times_eight(x.to_bits()), (x * 8.0).to_bits(), "{}", x);
    }
    assert!(f32::from_bits(f32bits::times_eight(f32::NAN.to_bits())).is_nan());
}

#[test]
fn half_precision_widens_exactly() {
    // 1, -2, the largest, the smallest normal, both subnormal ends, infinity
    assert_eq!(f32bits::f16_to_f32(0x3c00), 1.0f32.to_bits());
    assert_eq!(f32bits::f16_to_f32(0xc000), (-2.0f32).to_bits());
    assert_eq!(f32bits::f16_to_f32(0x7bff), 65504.0f32.to_bits());
    assert_eq!(f32bits::f16_to_f32(0x0400), (1.0f32 / 16384.0).to_bits());
    assert_eq!(f32bits::f16_to_f32(0x0001), (1.0f32 / 16777216.0).to_bits());
    assert_eq!(f32bits::f16_to_f32(0x03ff), (1023.0f32 / 16777216.0).to_bits());
    assert_eq!(f32bits::f16_to_f32(0x8000), (-0.0f32).to_bits());
    assert_eq!(f32bits::f16_to_f32(0x7c00), f32::INFINITY.to_bits());
    assert!(f32::from_bits(f32bits::f16_to_f32(0x7e01)).is_nan());
}

#[test]
fn half_precision_agrees_with_the_half_crate() {
    for h in 0..=0xffffu16 {
        let want = half::f16::from_bits(h).to_f32();
        let got = f32::from_bits(f32bits::f16_to_f32(h));
        if want.is_nan() {
            assert!(got.is_nan());
        } else {
            assert_eq!(got.to_bits(), want.to_bits(), "{:#x}", h);
        }
    }
}

#[test]
fn upload_bytes_are_the_machine_bytes() {
    let w = [1u32, 0xdead_beef, 0, u32::MAX];
    let mut want: Vec<u8> = Vec::new();
    for x in w {
        want.extend_from_slice(&x.to_ne_bytes());
    }
    assert_eq!(words::upload_bytes(&w), &want[..]);
    assert_eq!(words::upload_bytes(&[]).len(), 0);
}

#[test]
fn vectors_become_words_in_lane_order() {
    let v = vec![words::Vec4 { x: 1, y: 2, z: 3, w: 4 }, words::Vec3 { x: 5, y: 6, z: 7 }.extend(8)];
    assert_eq!(words::words_of(&v), vec![1, 2, 3, 4, 5, 6, 7, 8]);
    assert_eq!(words::words_of(&vec![words::zero4()]), vec![0, 0, 0, 0]);
    assert_eq!(words::read_le(&[9, 0x78, 0x56, 0x34, 0x12], 1), 0x1234_5678);
}

#[test]
fn numbers_parse_like_the_standard_parser() {
    for t in [
        "0", "7", "+12", "-3", "", "+", "-", "4294967295", "4294967296", "00012", " 1", "1 ", "0x10", "1.0", "99999999999999999999",
        "2147483647", "2147483648", "-2147483648", "-2147483649", "++1", "-0",
    ] {
        assert_eq!(config::parse_u32(t), t.parse::<u32>().ok(), "{:?}", t);
        assert_eq!(config::parse_i32(t), t.parse::<i32>().ok(), "{:?}", t);
    }
}

#[test]
fn settings_have_defaults_and_limits() {
    assert_eq!(config::rays_per_thread(None), 2);
    assert_eq!(config::rays_per_thread(Some("0")), 1);
    assert_eq!(config::rays_per_thread(Some("3")), 3);
    assert_eq!(config::rays_per_thread(Some("9")), 4);
    assert_eq!(config::rays_per_thread(Some("x")), 2);
    assert_eq!(config::max_probes(None), 16_384);
    assert_eq!(config::max_probes(Some("1")), 64);
    assert_eq!(config::max_probes(Some("99999")), 32_768);
    assert_eq!(config::probes_per_frame(None), 4096);
    assert_eq!(config::probes_per_frame(Some("17")), 17);
    assert_eq!(config::debug_lane(Some("-4")), -4);
    assert_eq!(config::debug_lane(Some("q")), 0);
    assert_eq!(config::debug_lane(None), 0);
}

#[test]
fn legacy_sky_is_any_text_but_zero() {
    assert!(!config::sky_legacy(None));
    assert!(!config::sky_legacy(Some("0")));
    assert!(config::sky_legacy(Some("1")));
    assert!(config::sky_legacy(Some("")));
    assert!(config::sky_legacy(Some("00")));
    assert!(config::sky_legacy(Some("é")));
}

#[test]
fn stable_order_keeps_ties_in_place() {
    let keys = vec![5u64, 1, 5, 0, 1, u64::MAX, 0];
    assert_eq!(sort::stable_order(&keys), vec![3, 6, 1, 4, 0, 2, 5]);
    assert_eq!(sort::stable_order(&vec![]), Vec::<usize>::new());
    let many: Vec<u64> = (0..1000u64).map(|i| (i * 7919) % 13).collect();
    let mut want: Vec<usize> = (0..1000).collect();
    want.sort_by_key(|&i| many[i]);
    assert_eq!(sort::stable_order(&many), want);
}
