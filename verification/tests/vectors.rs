use physics2d::scalar::Scalar;
use physics2d::vec2d::Joint;
use physics2d::vec2d::Link;
use physics2d::vec2d::Vec2D;

fn v(x: i64, y: i64) -> Vec2D {
    Vec2D::new(Scalar::from_int(x), Scalar::from_int(y))
}

fn micro(x: i64, y: i64) -> Vec2D {
    Vec2D::new(Scalar::from_raw(x), Scalar::from_raw(y))
}

fn raws(p: Vec2D) -> (i64, i64) {
    (p.x.raw(), p.y.raw())
}

#[test]
fn new_keeps_the_components() {
    let p = Vec2D::new(Scalar::from_ratio(3, 2), Scalar::from_int(-2));
    assert_eq!(raws(p), (1_500_000, -2_000_000));
    assert_eq!(raws(Vec2D::zero()), (0, 0));
}

#[test]
fn sum_difference_and_opposite() {
    assert_eq!(v(1, 2).add(&v(3, -5)), v(4, -3));
    assert_eq!(v(1, 2).sub(&v(3, -5)), v(-2, 7));
    assert_eq!(v(1, -2).neg(), v(-1, 2));
}

#[test]
fn sums_are_pinned_component_by_component() {
    let far = v(900_000, -900_000);
    assert_eq!(raws(far.add(&far)), (1_000_000_000_000, -1_000_000_000_000));
}

#[test]
fn scaling_rounds_each_component_down() {
    assert_eq!(v(3, -4).mult(Scalar::from_ratio(1, 2)), micro(1_500_000, -2_000_000));
    assert_eq!(micro(1, -1).mult(Scalar::from_ratio(1, 2)), micro(0, -1));
}

#[test]
fn dot_and_cross_products() {
    assert_eq!(v(1, 2).dot(&v(3, 4)).raw(), 11_000_000);
    assert_eq!(v(1, 2).cross(&v(3, 4)).raw(), -2_000_000);
    assert_eq!(v(2, 0).cross(&v(0, 3)).raw(), 6_000_000);
    assert_eq!(micro(1, 0).dot(&micro(1, 0)).raw(), 0);
    assert_eq!(micro(-1, 0).dot(&micro(1, 0)).raw(), -1);
}

#[test]
fn length_of_a_three_four_five_triangle() {
    assert_eq!(v(3, 4).mag().raw(), 5_000_000);
    assert_eq!(v(-3, 4).mag().raw(), 5_000_000);
    assert_eq!(v(1, 1).mag().raw(), 1_414_213);
    assert_eq!(Vec2D::zero().mag().raw(), 0);
}

#[test]
fn length_is_pinned_to_the_limit() {
    assert_eq!(v(1_000_000, 1_000_000).mag().raw(), 1_000_000_000_000);
}

#[test]
fn unit_vector_and_unit_of_zero() {
    assert_eq!(v(3, 4).unit(), micro(600_000, 800_000));
    assert_eq!(v(0, -7).unit(), v(0, -1));
    assert_eq!(Vec2D::zero().unit(), Vec2D::zero());
}

#[test]
fn projection_and_rejection() {
    assert_eq!(v(3, 4).proj_on(&v(2, 0)), v(3, 0));
    assert_eq!(v(3, 4).reject_on(&v(2, 0)), v(0, 4));
    assert_eq!(v(1, 1).proj_on(&v(-20, 0)), v(1, 0));
    assert_eq!(v(2, 0).proj_on(&v(1, 1)), v(1, 1));
    assert_eq!(v(1, 0).proj_on(&v(1, 2)), micro(200_000, 400_000));
}

#[test]
fn projection_on_zero_is_zero() {
    assert_eq!(v(3, 4).proj_on(&Vec2D::zero()), Vec2D::zero());
    assert_eq!(v(3, 4).reject_on(&Vec2D::zero()), v(3, 4));
}

#[test]
fn perpendicular_is_a_quarter_turn_counter_clockwise() {
    assert_eq!(v(1, 0).perp(), v(0, 1));
    assert_eq!(v(0, 1).perp(), v(-1, 0));
    assert_eq!(v(3, -4).perp(), v(4, 3));
}

#[test]
fn rotation_by_quarter_turns() {
    let quarter = Scalar::from_raw(1_570_796);
    assert_eq!(v(1, 0).rotated(quarter, &Vec2D::zero()), v(0, 1));
    assert_eq!(v(2, 1).rotated(quarter, &v(1, 1)), v(1, 2));
    assert_eq!(v(2, 1).rotated(quarter.neg(), &v(1, 1)), v(1, 0));
    assert_eq!(v(5, -3).rotated(Scalar::zero(), &v(1, 1)), v(5, -3));
}

#[test]
fn rotation_by_a_sixth_of_a_turn() {
    let p = v(1, 0).rotated(Scalar::from_raw(1_047_197), &Vec2D::zero());
    assert_eq!(p, micro(500_000, 866_025));
    let q = v(-2, 0).rotated(Scalar::from_raw(1_047_197), &Vec2D::zero());
    assert_eq!(q, micro(-1_000_001, -1_732_050));
}

#[test]
fn rotation_there_and_back_returns_within_three_units() {
    let pivot = v(1, -2);
    let mut angle: i64 = -6_000_000;
    while angle <= 6_000_000 {
        let a = Scalar::from_raw(angle);
        let p = micro(123_456_789, -987_654_321);
        let back = p.rotated(a, &pivot).rotated(a.neg(), &pivot);
        assert!((back.x.raw() - p.x.raw()).abs() <= 3, "{} {:?}", angle, back);
        assert!((back.y.raw() - p.y.raw()).abs() <= 3, "{} {:?}", angle, back);
        angle += 7_919;
    }
}

#[test]
fn joints_and_links_hold_what_they_are_given() {
    let joint = Joint::new(false, v(1, 2));
    assert!(!joint.is_dynamic);
    assert_eq!(joint.position, v(1, 2));
    let link = Link { object1_id: 1, object2_id: 2, anchor1_id: 3, anchor2_id: 4 };
    assert_eq!((link.object1_id, link.object2_id, link.anchor1_id, link.anchor2_id), (1, 2, 3, 4));
}

#[test]
fn a_turn_keeps_the_distance_of_two_points_within_twenty_units() {
    let pivot = v(3, -4);
    let p = micro(123_456_789_012, -98_765_432_109);
    let q = micro(-200_000_000_003, 150_000_000_007);
    let before = p.sub(&q).mag().raw();
    let mut angle: i64 = -6_000_000;
    while angle <= 6_000_000 {
        let a = Scalar::from_raw(angle);
        let after = p.rotated(a, &pivot).sub(&q.rotated(a, &pivot)).mag().raw();
        assert!((after - before).abs() <= 20, "{} {} {}", angle, before, after);
        angle += 7_919;
    }
}
