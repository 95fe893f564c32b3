use notation_canvas::fixed::{saturate_i32, saturate_u32, Fixed, SCALE};
use notation_canvas::geometry::{normalized_rect, Rect, Transform};

/// The fixed-point number nearest to `v`.
fn fixed(v: f64) -> Fixed {
    Fixed { raw: (v * 1e9).round() as i64 }
}

#[test]
fn one_is_a_billion_raw_units() {
    assert_eq!(SCALE, 1_000_000_000);
    assert_eq!(Fixed::one().raw, 1_000_000_000);
    assert_eq!(Fixed::zero().raw, 0);
    assert_eq!(Fixed::from_int(-3).raw, -3_000_000_000);
    assert_eq!(Fixed::from_int(i32::MAX).raw, 2_147_483_647_000_000_000);
    assert_eq!(Fixed::from_int(i32::MIN).raw, -2_147_483_648_000_000_000);
    assert_eq!(Fixed::from_raw(17).raw, 17);
}

#[test]
fn sums_saturate() {
    assert_eq!(fixed(1.5).plus(fixed(2.25)), fixed(3.75));
    assert_eq!(fixed(1.5).minus(fixed(2.25)), fixed(-0.75));
    assert_eq!(Fixed { raw: i64::MAX }.plus(Fixed { raw: 1 }).raw, i64::MAX);
    assert_eq!(Fixed { raw: i64::MIN }.plus(Fixed { raw: -1 }).raw, i64::MIN);
    assert_eq!(Fixed { raw: i64::MIN }.minus(Fixed { raw: 1 }).raw, i64::MIN);
    assert_eq!(Fixed { raw: 0 }.minus(Fixed { raw: i64::MIN }).raw, i64::MAX);
    assert_eq!(Fixed { raw: i64::MIN }.negated().raw, i64::MAX);
    assert_eq!(Fixed { raw: i64::MAX }.negated().raw, -i64::MAX);
    assert_eq!(Fixed { raw: i64::MIN }.magnitude().raw, i64::MAX);
    assert_eq!(fixed(-2.5).magnitude(), fixed(2.5));
    assert_eq!(fixed(2.5).magnitude(), fixed(2.5));
    assert_eq!(fixed(-2.5).larger(fixed(-3.0)), fixed(-2.5));
    assert_eq!(fixed(3.0).larger(fixed(4.0)), fixed(4.0));
}

#[test]
fn products_round_down() {
    assert_eq!(fixed(1.5).times(fixed(2.0)), fixed(3.0));
    assert_eq!(fixed(-1.5).times(fixed(2.0)), fixed(-3.0));
    assert_eq!(Fixed { raw: 1 }.times(fixed(0.5)).raw, 0);
    assert_eq!(Fixed { raw: -1 }.times(fixed(0.5)).raw, -1);
    assert_eq!(Fixed { raw: 3 }.times(fixed(0.5)).raw, 1);
    assert_eq!(Fixed { raw: -3 }.times(fixed(0.5)).raw, -2);
    assert_eq!(Fixed::one().times(Fixed { raw: 123_456_789_012 }).raw, 123_456_789_012);
    assert_eq!(Fixed { raw: i64::MAX }.times(fixed(2.0)).raw, i64::MAX);
    assert_eq!(Fixed { raw: i64::MAX }.times(fixed(-2.0)).raw, i64::MIN);
    assert_eq!(Fixed { raw: i64::MIN }.times(Fixed { raw: i64::MIN }).raw, i64::MAX);
}

#[test]
fn quotients_round_down() {
    assert_eq!(fixed(3.0).over(fixed(2.0)), fixed(1.5));
    assert_eq!(fixed(-3.0).over(fixed(2.0)), fixed(-1.5));
    assert_eq!(fixed(1.0).over(fixed(3.0)).raw, 333_333_333);
    assert_eq!(fixed(-1.0).over(fixed(3.0)).raw, -333_333_334);
    assert_eq!(Fixed::one().over(Fixed { raw: 1 }).raw, 1_000_000_000_000_000_000);
    assert_eq!(fixed(10.0).over(Fixed { raw: 1 }).raw, i64::MAX);
    assert_eq!(fixed(-10.0).over(Fixed { raw: 1 }).raw, i64::MIN);
}

#[test]
fn a_number_is_its_floor_and_its_fraction() {
    assert_eq!(fixed(2.75).floor(), 2);
    assert_eq!(fixed(2.75).ceil(), 3);
    assert_eq!(fixed(2.75).fraction(), fixed(0.75));
    assert_eq!(fixed(-2.75).floor(), -3);
    assert_eq!(fixed(-2.75).ceil(), -2);
    assert_eq!(fixed(-2.75).fraction(), fixed(0.25));
    assert_eq!(fixed(5.0).floor(), 5);
    assert_eq!(fixed(5.0).ceil(), 5);
    assert_eq!(fixed(5.0).fraction().raw, 0);
    assert_eq!(fixed(-5.0).floor(), -5);
    assert_eq!(fixed(-5.0).ceil(), -5);
    assert_eq!(Fixed { raw: i64::MAX }.floor(), 9_223_372_036);
    assert_eq!(Fixed { raw: i64::MAX }.ceil(), 9_223_372_037);
    assert_eq!(Fixed { raw: i64::MIN }.floor(), -9_223_372_037);
    assert_eq!(Fixed { raw: i64::MIN }.ceil(), -9_223_372_036);
    assert_eq!(Fixed { raw: i64::MIN }.fraction().raw, 145_224_192);
    assert_eq!(Fixed { raw: -1 }.floor(), -1);
    assert_eq!(Fixed { raw: -1 }.fraction().raw, 999_999_999);
}

#[test]
fn narrowing_saturates() {
    assert_eq!(saturate_i32(5), 5);
    assert_eq!(saturate_i32(i64::MAX), i32::MAX);
    assert_eq!(saturate_i32(i64::MIN), i32::MIN);
    assert_eq!(saturate_i32(-2_147_483_649), i32::MIN);
    assert_eq!(saturate_u32(-1), 0);
    assert_eq!(saturate_u32(4_294_967_295), u32::MAX);
    assert_eq!(saturate_u32(4_294_967_296), u32::MAX);
    assert_eq!(saturate_u32(7), 7);
}

#[test]
fn negative_extents_turn_the_rectangle_around() {
    assert_eq!(
        normalized_rect(fixed(10.0), fixed(20.0), fixed(-4.0), fixed(-5.0)),
        Rect { x: fixed(6.0), y: fixed(15.0), width: fixed(4.0), height: fixed(5.0) }
    );
    assert_eq!(
        normalized_rect(fixed(10.0), fixed(20.0), fixed(4.0), fixed(-5.0)),
        Rect { x: fixed(10.0), y: fixed(15.0), width: fixed(4.0), height: fixed(5.0) }
    );
    assert_eq!(
        normalized_rect(fixed(10.0), fixed(20.0), fixed(4.0), fixed(5.0)),
        Rect { x: fixed(10.0), y: fixed(20.0), width: fixed(4.0), height: fixed(5.0) }
    );
    assert_eq!(
        normalized_rect(fixed(1.0), fixed(2.0), fixed(0.0), fixed(0.0)),
        Rect { x: fixed(1.0), y: fixed(2.0), width: fixed(0.0), height: fixed(0.0) }
    );
}

#[test]
fn mirrored_rectangle_is_the_same_rectangle() {
    let cases = [(3.5, -2.0, 4.25, 1.0), (0.0, 0.0, 1e-9, 1e-9), (-7.0, 9.0, 100.0, 0.5)];
    for (x, y, w, h) in cases {
        let (x, y, w, h) = (fixed(x), fixed(y), fixed(w), fixed(h));
        assert_eq!(
            normalized_rect(x, y, w.negated(), h.negated()),
            normalized_rect(x.minus(w), y.minus(h), w, h)
        );
    }
    let far = Fixed { raw: i64::MIN + 5 };
    let w = Fixed { raw: 100 };
    assert_eq!(
        normalized_rect(far, far, w.negated(), w.negated()),
        normalized_rect(far.minus(w), far.minus(w), w, w)
    );
}

#[test]
fn scaling_follows_the_transform() {
    let t = Transform {
        sx: fixed(1.2),
        ky: fixed(3.4),
        kx: fixed(-5.6),
        sy: fixed(-7.8),
        tx: fixed(1.2),
        ty: fixed(3.4),
    };
    assert_eq!(
        t.post_scale(fixed(2.0), fixed(-4.0)),
        Transform {
            sx: fixed(2.4),
            ky: fixed(-13.6),
            kx: fixed(-11.2),
            sy: fixed(31.2),
            tx: fixed(2.4),
            ty: fixed(-13.6),
        }
    );
    assert_eq!(
        t.post_translate(fixed(10.0), fixed(-1.0)),
        Transform { tx: fixed(11.2), ty: fixed(2.4), ..t }
    );
    assert_eq!(Transform::identity().post_scale(fixed(1.5), fixed(1.5)).sx, fixed(1.5));
    assert_eq!(Transform::identity().post_scale(fixed(1.5), fixed(1.5)).tx, fixed(0.0));
}

#[test]
fn composition_is_a_matrix_product() {
    let t = Transform {
        sx: fixed(2.0),
        kx: fixed(0.0),
        ky: fixed(0.0),
        sy: fixed(3.0),
        tx: fixed(5.0),
        ty: fixed(7.0),
    };
    let quarter_turn = Transform::rotation(fixed(0.0), fixed(1.0));
    assert_eq!(
        quarter_turn,
        Transform {
            sx: fixed(0.0),
            kx: fixed(-1.0),
            ky: fixed(1.0),
            sy: fixed(0.0),
            tx: fixed(0.0),
            ty: fixed(0.0),
        }
    );
    assert_eq!(
        t.post_concat(&quarter_turn),
        Transform {
            sx: fixed(0.0),
            kx: fixed(-3.0),
            ky: fixed(2.0),
            sy: fixed(0.0),
            tx: fixed(-7.0),
            ty: fixed(5.0),
        }
    );
    assert_eq!(t.post_concat(&Transform::identity()), t);
    assert_eq!(Transform::identity().post_concat(&t), t);
    let scale = Transform::identity().post_scale(fixed(2.0), fixed(-4.0));
    assert_eq!(t.post_concat(&scale), t.post_scale(fixed(2.0), fixed(-4.0)));
}

#[test]
fn coefficients_come_in_a_fixed_order() {
    let t = Transform {
        sx: fixed(1.0),
        kx: fixed(2.0),
        ky: fixed(3.0),
        sy: fixed(4.0),
        tx: fixed(5.0),
        ty: fixed(6.0),
    };
    assert_eq!(
        t.coefficients(),
        vec![fixed(1.0), fixed(2.0), fixed(3.0), fixed(4.0), fixed(5.0), fixed(6.0)]
    );
    assert_eq!(Transform::from_coefficients(&t.coefficients()), t);
    let mut longer = t.coefficients();
    longer.push(fixed(99.0));
    assert_eq!(Transform::from_coefficients(&longer), t);
    assert_eq!(
        Transform::identity().coefficients(),
        vec![fixed(1.0), fixed(0.0), fixed(0.0), fixed(1.0), fixed(0.0), fixed(0.0)]
    );
}
