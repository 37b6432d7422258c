use unified_being::q88::{
    q88_add, q88_div, q88_ema_update, q88_from_i32, q88_mul, q88_sub, Q8_8, Xorshift32, Q88_SCALE,
};

/// Round a real number to the nearest Q8.8 value, saturating.
fn q(f: f32) -> Q8_8 {
    let r = (f * 256.0).round();
    Q8_8::from_raw(r.clamp(i16::MIN as f32, i16::MAX as f32) as i16)
}

fn to_f32(v: Q8_8) -> f32 {
    v.raw as f32 / 256.0
}

#[test]
fn saturation() {
    assert_eq!(q(200.0).add(q(200.0)).raw, i16::MAX);
}

#[test]
fn sqrt_half() {
    // sqrt(0.5) ~= 0.707
    let r = q(0.5).sqrt();
    assert!((to_f32(r) - 0.707).abs() < 0.02, "got {}", to_f32(r));
}

#[test]
fn ema_moves_toward_target() {
    let v = q88_ema_update(0, Q88_SCALE, Q88_SCALE / 10);
    assert!(v > 0 && v < Q88_SCALE);
}

#[test]
fn ema_exact_steps() {
    assert_eq!(q88_ema_update(0, 256, 25), 25);
    // The difference saturates, so a huge gap is closed only part of the way.
    assert_eq!(q88_ema_update(-30000, 30000, 256), 2767);
    assert_eq!(q88_ema_update(100, -100, 128), 0);
    // Weight zero leaves the value where it is.
    assert_eq!(q88_ema_update(77, -500, 0), 77);
}

#[test]
fn raw_add_sub_saturate() {
    assert_eq!(q88_add(100, 28), 128);
    assert_eq!(q88_add(i16::MAX, 1), i16::MAX);
    assert_eq!(q88_add(i16::MIN, -1), i16::MIN);
    assert_eq!(q88_sub(i16::MIN, 1), i16::MIN);
    assert_eq!(q88_sub(0, i16::MIN), i16::MAX);
    assert_eq!(q88_sub(5, 7), -2);
}

#[test]
fn raw_mul_rounds_down_and_saturates() {
    assert_eq!(q88_mul(256, 256), 256);
    assert_eq!(q88_mul(-1, 1), -1);
    assert_eq!(q88_mul(384, -640), -960);
    assert_eq!(q88_mul(i16::MAX, i16::MAX), i16::MAX);
    assert_eq!(q88_mul(i16::MIN, i16::MAX), i16::MIN);
}

#[test]
fn raw_div_truncates_and_handles_zero() {
    assert_eq!(q88_div(256, 0), i16::MAX);
    assert_eq!(q88_div(0, 0), i16::MAX);
    assert_eq!(q88_div(-5, 0), i16::MIN);
    assert_eq!(q88_div(256, 512), 128);
    assert_eq!(q88_div(-256, 512), -128);
    assert_eq!(q88_div(1, -3), -85);
    assert_eq!(q88_div(i16::MAX, 1), i16::MAX);
}

#[test]
fn from_i32_scales_and_saturates() {
    assert_eq!(q88_from_i32(2), 512);
    assert_eq!(q88_from_i32(-3), -768);
    assert_eq!(q88_from_i32(200), i16::MAX);
    assert_eq!(q88_from_i32(-200), i16::MIN);
    assert_eq!(q88_from_i32(i32::MAX), i16::MAX);
}

#[test]
fn struct_faces_match_raw_helpers() {
    let a = Q8_8::from_raw(-700);
    let b = Q8_8::from_raw(333);
    assert_eq!(a.add(b).raw, q88_add(-700, 333));
    assert_eq!(a.sub(b).raw, q88_sub(-700, 333));
    assert_eq!(a.mul(b).raw, q88_mul(-700, 333));
    assert_eq!(a.div(b).raw, q88_div(-700, 333));
    assert_eq!(Q8_8::lerp(a, b, Q8_8::from_raw(64)).raw, q88_ema_update(-700, 333, 64));
}

#[test]
fn mul_add_div_i16_abs_neg() {
    let x = Q8_8::from_raw(512);
    assert_eq!(x.mul_add(Q8_8::from_raw(128), Q8_8::from_raw(10)).raw, 266);
    assert_eq!(Q8_8::from_raw(-7).div_i16(2).raw, -3);
    assert_eq!(Q8_8::from_raw(7).div_i16(-2).raw, -3);
    assert_eq!(Q8_8::from_raw(99).div_i16(0).raw, 0);
    // The one out-of-range quotient saturates.
    assert_eq!(Q8_8::from_raw(i16::MIN).div_i16(-1).raw, i16::MAX);
    assert_eq!(Q8_8::from_raw(i16::MIN).div_i16(1).raw, i16::MIN);
    assert_eq!(Q8_8::from_raw(i16::MIN).abs().raw, i16::MAX);
    assert_eq!(Q8_8::from_raw(-9).abs().raw, 9);
    assert_eq!(Q8_8::from_raw(i16::MIN).neg().raw, i16::MAX);
    assert_eq!(Q8_8::from_raw(9).neg().raw, -9);
}

#[test]
fn min_max_clamp() {
    let a = Q8_8::from_raw(-3);
    let b = Q8_8::from_raw(4);
    assert_eq!(a.min(b).raw, -3);
    assert_eq!(a.max(b).raw, 4);
    assert_eq!(Q8_8::from_raw(900).clamp(a, b).raw, 4);
    assert_eq!(Q8_8::from_raw(-900).clamp(a, b).raw, -3);
    assert_eq!(Q8_8::from_raw(1).clamp(a, b).raw, 1);
}

#[test]
fn lerp_endpoints_and_midpoint() {
    let a = Q8_8::from_raw(-100);
    let b = Q8_8::from_raw(300);
    assert_eq!(Q8_8::lerp(a, b, Q8_8::from_raw(0)).raw, -100);
    assert_eq!(Q8_8::lerp(a, b, Q8_8::from_raw(256)).raw, 300);
    assert_eq!(Q8_8::lerp(a, b, Q8_8::from_raw(64)).raw, 0);
    // When b - a does not fit, the weight-1 end is not reached.
    assert_eq!(Q8_8::lerp(Q8_8::from_raw(i16::MIN), Q8_8::from_raw(i16::MAX), Q8_8::from_raw(256)).raw, -1);
}

#[test]
fn sqrt_exact_values() {
    assert_eq!(Q8_8::from_raw(256).sqrt().raw, 256);
    assert_eq!(Q8_8::from_raw(1024).sqrt().raw, 512);
    assert_eq!(Q8_8::from_raw(128).sqrt().raw, 181);
    assert_eq!(Q8_8::from_raw(i16::MAX).sqrt().raw, 2896);
    assert_eq!(Q8_8::from_raw(1).sqrt().raw, 16);
    assert_eq!(Q8_8::from_raw(0).sqrt().raw, 0);
    assert_eq!(Q8_8::from_raw(-500).sqrt().raw, 0);
}

#[test]
fn sigmoid_exact_bounded_monotone() {
    assert_eq!(Q8_8::from_raw(0).sigmoid().raw, 128);
    assert_eq!(Q8_8::from_raw(256).sigmoid().raw, 192);
    assert_eq!(Q8_8::from_raw(-256).sigmoid().raw, 64);
    assert_eq!(Q8_8::from_raw(1000).sigmoid().raw, 229);
    assert_eq!(Q8_8::from_raw(i16::MAX).sigmoid().raw, 255);
    assert_eq!(Q8_8::from_raw(i16::MIN).sigmoid().raw, 1);
    let mut prev = Q8_8::from_raw(i16::MIN).sigmoid().raw;
    let mut x: i32 = i16::MIN as i32;
    while x <= i16::MAX as i32 {
        let s = Q8_8::from_raw(x as i16).sigmoid().raw;
        assert!(s > 0 && s < 256);
        assert!(s >= prev);
        prev = s;
        x += 97;
    }
}

#[test]
fn xorshift_sequence() {
    let mut r = Xorshift32::new(1);
    assert_eq!(r.next_u32(), 270369);
    assert_eq!(r.next_u32(), 67634689);
    assert_eq!(r.next_u32(), 2647435461);
    let mut s = Xorshift32::new(123456789);
    assert_eq!(s.next_u32(), 2714967881);
}

#[test]
fn xorshift_zero_seed_is_lifted_to_one() {
    let mut z = Xorshift32::new(0);
    let mut o = Xorshift32::new(1);
    for _ in 0..50 {
        let a = z.next_u32();
        assert_eq!(a, o.next_u32());
        assert_ne!(a, 0);
    }
}

#[test]
fn noise_is_bounded_and_exact() {
    let mut r = Xorshift32::new(1);
    // 270369 % 21 - 10
    assert_eq!(r.noise(10), 5);
    // A non-positive amplitude gives 0 and does not advance the generator.
    assert_eq!(r.noise(0), 0);
    assert_eq!(r.noise(-4), 0);
    assert_eq!(r.next_u32(), 67634689);
    let mut g = Xorshift32::new(99);
    for _ in 0..500 {
        let n = g.noise(37);
        assert!(n >= -37 && n <= 37);
    }
}
