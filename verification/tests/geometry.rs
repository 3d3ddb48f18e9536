use asteroids_core::geom::{Vec2i, dist_sq, div_trunc, isqrt, normalize, sin_fp, cos_fp, rotate_units};

#[test]
fn isqrt_exact_values() {
    assert_eq!(isqrt(0), 0);
    assert_eq!(isqrt(1), 1);
    assert_eq!(isqrt(2), 1);
    assert_eq!(isqrt(3), 1);
    assert_eq!(isqrt(4), 2);
    assert_eq!(isqrt(24), 4);
    assert_eq!(isqrt(25), 5);
    assert_eq!(isqrt(25000000), 5000);
    assert_eq!(isqrt(u64::MAX), 0xFFFF_FFFF);
}

#[test]
fn div_trunc_rounds_toward_zero() {
    assert_eq!(div_trunc(7, 2), 3);
    assert_eq!(div_trunc(-7, 2), -3);
    assert_eq!(div_trunc(6, 3), 2);
    assert_eq!(div_trunc(-6, 3), -2);
    assert_eq!(div_trunc(0, 5), 0);
}

#[test]
fn dist_sq_exact() {
    let a = Vec2i::new(3000, 4000);
    let b = Vec2i::new(0, 0);
    assert_eq!(dist_sq(a, b), 25_000_000);
}

#[test]
fn normalize_three_four_five() {
    let d = normalize(Vec2i::new(3000, 4000));
    assert_eq!(d.x, 600);
    assert_eq!(d.y, 800);
    let d2 = normalize(Vec2i::new(-3000, 4000));
    assert_eq!(d2.x, -600);
    assert_eq!(d2.y, 800);
}

#[test]
fn trig_table_cardinal_directions() {
    // step 0 is 0 degrees, step 12 a quarter turn, and so on.
    assert_eq!(sin_fp(0), 0);
    assert_eq!(cos_fp(0), 1000);
    assert_eq!(sin_fp(12), 1000);
    assert_eq!(cos_fp(12), 0);
    assert_eq!(sin_fp(24), 0);
    assert_eq!(cos_fp(24), -1000);
    assert_eq!(sin_fp(36), -1000);
    assert_eq!(cos_fp(36), 0);
    assert_eq!(sin_fp(6), 707);
    assert_eq!(cos_fp(6), 707);
}

#[test]
fn trig_table_is_nearly_unit_length() {
    let mut k: u32 = 0;
    while k < 48 {
        let s = sin_fp(k);
        let c = cos_fp(k);
        let n = s * s + c * c;
        assert!(n >= 995_000 && n <= 1_005_000, "step {k}: {n}");
        k += 1;
    }
}

#[test]
fn rotate_units_quarter_turn() {
    // Rotating (22, 27) by a quarter turn gives (-27, 22), in milli-units.
    let r = rotate_units(22, 27, 12);
    assert_eq!(r.x, -27000);
    assert_eq!(r.y, 22000);
    // Rotating by zero leaves the direction, scaled to milli-units.
    let r0 = rotate_units(22, 27, 0);
    assert_eq!(r0.x, 22000);
    assert_eq!(r0.y, 27000);
}
