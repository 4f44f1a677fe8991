use ptx_conformance::sin::{
    bits_are_nan, flush_to_zero, Sin, MIN_POSITIVE_SUBNORMAL, NAN, NEG_INFINITY, NEG_ZERO,
    POS_INFINITY, RANGE_MAX,
};

#[test]
fn sin_negative_infinity_expects_nan() {
    let t = Sin { ftz: false };
    let r = t.host_verify_special(f32::NEG_INFINITY.to_bits(), 0);
    match r {
        Some(Err(e)) => assert!(f32::from_bits(e).is_nan()),
        other => panic!("unexpected {:?}", other),
    }
    assert_eq!(t.host_verify_special(NEG_INFINITY, 0x7fc0_0001), Some(Ok(())));
    assert_eq!(t.host_verify_special(NEG_INFINITY, 0xffff_ffff), Some(Ok(())));
}

#[test]
fn sin_negative_zero_expects_negative_zero() {
    for ftz in [false, true] {
        let t = Sin { ftz };
        assert_eq!(t.host_verify_special((-0.0f32).to_bits(), NEG_ZERO), Some(Ok(())));
        assert_eq!(t.host_verify_special(NEG_ZERO, 0), Some(Err(NEG_ZERO)));
    }
}

#[test]
fn sin_min_positive_subnormal_expects_positive_zero() {
    for ftz in [false, true] {
        let t = Sin { ftz };
        assert_eq!(t.host_verify_special(MIN_POSITIVE_SUBNORMAL, 0), Some(Ok(())));
        assert_eq!(t.host_verify_special(MIN_POSITIVE_SUBNORMAL, NEG_ZERO), Some(Err(0)));
    }
}

#[test]
fn sin_negative_subnormal_expects_negative_zero() {
    let t = Sin { ftz: false };
    assert_eq!(t.host_verify_special(0x807f_ffff, NEG_ZERO), Some(Ok(())));
    assert_eq!(t.host_verify_special(0x807f_ffff, 0), Some(Err(NEG_ZERO)));
}

#[test]
fn sin_nan_and_infinity_expect_nan() {
    let t = Sin { ftz: true };
    assert_eq!(t.host_verify_special(POS_INFINITY, NAN), Some(Ok(())));
    assert_eq!(t.host_verify_special(NAN, 0x7f80_0001), Some(Ok(())));
    assert_eq!(t.host_verify_special(NAN, POS_INFINITY), Some(Err(NAN)));
}

#[test]
fn sin_ordinary_value_left_to_tolerance() {
    let t = Sin { ftz: false };
    let quarter_pi = std::f32::consts::FRAC_PI_4.to_bits();
    assert_eq!(t.host_verify_special(quarter_pi, 0), None);
    assert_eq!(t.host_verify_special(0x3f80_0000, 0x3f80_0000), None);
}

#[test]
fn sin_generate_range_then_edge_table() {
    let t = Sin { ftz: false };
    assert_eq!(t.max_value(), std::f32::consts::FRAC_PI_2.to_bits() as u64 + 36);
    assert_eq!(RANGE_MAX, std::f32::consts::FRAC_PI_2.to_bits());
    assert_eq!(t.generate(0), 0);
    assert_eq!(t.generate(12345), 12345);
    assert_eq!(t.generate(RANGE_MAX), RANGE_MAX);
    assert_eq!(t.generate(RANGE_MAX + 1), f32::NEG_INFINITY.to_bits());
    assert_eq!(t.generate(RANGE_MAX + 2), 0x8000_0001);
    assert_eq!(t.generate(RANGE_MAX + 3), (-0.0f32).to_bits());
    assert_eq!(t.generate(RANGE_MAX + 4), 0.0f32.to_bits());
    assert_eq!(t.generate(RANGE_MAX + 5), 1);
    assert_eq!(t.generate(RANGE_MAX + 6), f32::INFINITY.to_bits());
    assert!(f32::from_bits(t.generate(RANGE_MAX + 7)).is_nan());
    assert_eq!(t.generate(RANGE_MAX + 8), 0);
    assert_eq!(t.generate(RANGE_MAX + 35), 0);
}

#[test]
fn flush_to_zero_keeps_sign_of_subnormals() {
    assert_eq!(flush_to_zero(0x0000_0001, true), 0);
    assert_eq!(flush_to_zero(0x807f_ffff, true), NEG_ZERO);
    assert_eq!(flush_to_zero(0x807f_ffff, false), 0x807f_ffff);
    assert_eq!(flush_to_zero(0x0080_0000, true), 0x0080_0000);
    assert_eq!(flush_to_zero(NEG_ZERO, true), NEG_ZERO);
}

#[test]
fn sin_ftz_flushes_input_first() {
    let t = Sin { ftz: true };
    assert_eq!(t.host_verify_special(0x0000_0005, 0), Some(Ok(())));
    assert_eq!(t.host_verify_special(0x8000_0005, NEG_ZERO), Some(Ok(())));
}

#[test]
fn nan_bits_recognised() {
    assert!(bits_are_nan(f32::NAN.to_bits()));
    assert!(bits_are_nan(0xff80_0001));
    assert!(!bits_are_nan(f32::INFINITY.to_bits()));
    assert!(!bits_are_nan(1.5f32.to_bits()));
}

#[test]
fn sin_ptx_modifier_follows_ftz() {
    assert!(Sin { ftz: true }.ptx().contains("sin.approx.ftz.f32 y, x;"));
    assert!(Sin { ftz: false }.ptx().contains("sin.approx.f32 y, x;"));
    assert_eq!(Sin { ftz: false }.ptx_args(), vec!["input_a", "output"]);
}

#[test]
fn sin_quarter_pi_follows_tolerance_decision() {
    let t = Sin { ftz: false };
    let x = std::f32::consts::FRAC_PI_4;
    let host = ((x as f64).sin() as f32).to_bits();
    assert_eq!(t.host_verify(x.to_bits(), host, true, host), Ok(()));
    assert_eq!(t.host_verify(x.to_bits(), 0, false, host), Err(host));
}

#[test]
fn sin_special_input_ignores_tolerance_decision() {
    let t = Sin { ftz: false };
    assert_eq!(t.host_verify(NEG_ZERO, 0, true, 0), Err(NEG_ZERO));
    assert_eq!(t.host_verify(NEG_ZERO, NEG_ZERO, false, 0), Ok(()));
}

#[test]
fn sin_ftz_flushes_device_output() {
    let t = Sin { ftz: true };
    assert_eq!(t.host_verify_special(NEG_ZERO, 0x8000_0001), Some(Ok(())));
    assert_eq!(t.host_verify_special(0, 0x0000_0003), Some(Ok(())));
    assert_eq!(t.host_verify_special(MIN_POSITIVE_SUBNORMAL, 0x007f_ffff), Some(Ok(())));
    assert_eq!(t.host_verify_special(0, 0x8000_0003), Some(Err(0)));
    let plain = Sin { ftz: false };
    assert_eq!(plain.host_verify_special(0, 0x0000_0003), Some(Err(0)));
}
