use field_compute::sample::{channel_value, rounded_quotient, FULL_LEVEL};

fn reference_level(s: f32) -> u8 {
    let datum_mapped = (s + 1.) * 128.;
    datum_mapped.min(255.).max(0.) as u8
}

fn check(bits: u32) {
    let s = f32::from_bits(bits);
    assert_eq!(
        channel_value(bits),
        reference_level(s),
        "bits {:#010x}, sample {:e}",
        bits,
        s
    );
}

#[test]
fn zero_maps_to_128() {
    assert_eq!(channel_value(0.0f32.to_bits()), 128);
    assert_eq!(channel_value((-0.0f32).to_bits()), 128);
}

#[test]
fn minus_one_and_below_map_to_0() {
    for s in [-1.0f32, -1.0000001, -1.5, -2.0, -1.0e10, f32::MIN, f32::NEG_INFINITY] {
        assert_eq!(channel_value(s.to_bits()), 0, "sample {}", s);
    }
}

#[test]
fn one_and_above_map_to_255() {
    for s in [1.0f32, 1.0000001, 1.5, 2.0, 1.0e10, f32::MAX, f32::INFINITY] {
        assert_eq!(channel_value(s.to_bits()), 255, "sample {}", s);
    }
}

#[test]
fn full_level_is_255() {
    assert_eq!(FULL_LEVEL, 255);
}

#[test]
fn formula_on_exact_values() {
    assert_eq!(channel_value(0.5f32.to_bits()), 192);
    assert_eq!(channel_value((-0.5f32).to_bits()), 64);
    assert_eq!(channel_value(0.25f32.to_bits()), 160);
    assert_eq!(channel_value((-0.75f32).to_bits()), 32);
    assert_eq!(channel_value(0.9921875f32.to_bits()), 255);
    assert_eq!(channel_value(0.984375f32.to_bits()), 254);
    assert_eq!(channel_value((-0.9921875f32).to_bits()), 1);
    assert_eq!(channel_value((-0.99f32).to_bits()), 1);
    assert_eq!(channel_value((-0.993f32).to_bits()), 0);
}

#[test]
fn not_a_number_maps_to_full_level() {
    assert_eq!(channel_value(f32::NAN.to_bits()), 255);
    assert_eq!(channel_value(0x7f80_0001), 255);
    assert_eq!(channel_value(0xffc0_0000), 255);
    assert_eq!(channel_value(0xff80_0001), 255);
    check(0x7fc0_0000);
    check(0xffff_ffff);
}

#[test]
fn rounding_of_the_sum_is_single_precision() {
    // just below zero the sum rounds up to one
    let s = -f32::from_bits(0x3080_0000); // -2^-30
    assert_eq!(channel_value(s.to_bits()), 128);
    // the largest sample below a level's threshold rounds up onto it
    let below = f32::from_bits(0.5f32.to_bits() - 1);
    assert_eq!(reference_level(below), 192);
    assert_eq!(channel_value(below.to_bits()), 192);
    let below = f32::from_bits(0.25f32.to_bits() - 1);
    assert_eq!(channel_value(below.to_bits()), reference_level(below));
}

#[test]
fn subnormals_map_to_128() {
    for bits in [1u32, 2, 0x7f_ffff, 0x8000_0001, 0x807f_ffff, 0x0080_0000, 0x8080_0000] {
        assert_eq!(channel_value(bits), 128);
        check(bits);
    }
}

#[test]
fn agrees_with_float_arithmetic_around_every_threshold() {
    for k in 0..=256u32 {
        let s = (k as f32) / 128.0 - 1.0;
        let centre = s.to_bits();
        for d in 0..200u32 {
            check(centre.wrapping_add(d));
            check(centre.wrapping_sub(d));
        }
    }
}

#[test]
fn agrees_with_float_arithmetic_on_every_exponent() {
    for sign in [0u32, 0x8000_0000] {
        for e in 0..=255u32 {
            for f in [0u32, 1, 2, 3, 0x40_0000, 0x3f_ffff, 0x40_0001, 0x7f_fffe, 0x7f_ffff, 0x12_3456, 0x55_5555, 0x2a_aaaa] {
                check(sign | (e << 23) | f);
            }
        }
    }
}

#[test]
fn agrees_with_float_arithmetic_on_a_sweep() {
    let mut bits: u32 = 0;
    loop {
        check(bits);
        match bits.checked_add(7919) {
            Some(next) => bits = next,
            None => break,
        }
    }
}

#[test]
fn agrees_with_float_arithmetic_on_scattered_patterns() {
    let mut x: u32 = 0x1234_5678;
    for _ in 0..2_000_000 {
        x ^= x << 13;
        x ^= x >> 17;
        x ^= x << 5;
        check(x);
        // the same fraction with an exponent in the range where the sum is rounded
        check((x & 0x807f_ffff) | ((100 + (x >> 23) % 28) << 23));
    }
}

#[test]
fn agrees_with_float_arithmetic_on_ties() {
    // samples whose sum with one lies halfway between two single-precision values
    for e in 100..127u32 {
        for sign in [0u32, 0x8000_0000] {
            for f in 0..4096u32 {
                check(sign | (e << 23) | (f << 11));
                check(sign | (e << 23) | ((f << 11) + 1));
                check(sign | (e << 23) | ((f << 11).wrapping_sub(1) & 0x7f_ffff));
            }
        }
    }
}

#[test]
fn rounded_quotient_goes_to_nearest_and_ties_to_even() {
    assert_eq!(rounded_quotient(0, 4), 0);
    assert_eq!(rounded_quotient(1, 4), 0);
    assert_eq!(rounded_quotient(2, 4), 0);
    assert_eq!(rounded_quotient(3, 4), 1);
    assert_eq!(rounded_quotient(4, 4), 1);
    assert_eq!(rounded_quotient(5, 4), 1);
    assert_eq!(rounded_quotient(6, 4), 2);
    assert_eq!(rounded_quotient(7, 4), 2);
    assert_eq!(rounded_quotient(10, 4), 2);
    assert_eq!(rounded_quotient(14, 4), 4);
    assert_eq!(rounded_quotient(7, 1), 7);
    assert_eq!(rounded_quotient(7, 3), 2);
    assert_eq!(rounded_quotient(8, 3), 3);
}
