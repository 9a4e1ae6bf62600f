use physics2d::model::Color;
use physics2d::scalar::Scalar;
use physics2d::shapes::Body;
use physics2d::shapes::Circle;
use physics2d::shapes::Group;
use physics2d::shapes::Line;
use physics2d::vec2d::Joint;
use physics2d::vec2d::Vec2D;

fn s(n: i64) -> Scalar {
    Scalar::from_int(n)
}

fn v(x: i64, y: i64) -> Vec2D {
    Vec2D::new(Scalar::from_int(x), Scalar::from_int(y))
}

fn micro(x: i64, y: i64) -> Vec2D {
    Vec2D::new(Scalar::from_raw(x), Scalar::from_raw(y))
}

fn circle_of(body: &Body) -> &Circle {
    match body {
        Body::Circle(circle) => circle,
        _ => panic!("not a circle"),
    }
}

fn line_of(body: &Body) -> &Line {
    match body {
        Body::Line(line) => line,
        _ => panic!("not a segment"),
    }
}

#[test]
fn a_new_circle() {
    let circle = Circle::new(s(3), v(5, 5), Scalar::from_ratio(2, 5));
    assert_eq!(circle.get_mass(), s(3));
    assert_eq!(circle.get_com(), v(5, 5));
    assert_eq!(circle.radius.raw(), 400_000);
    assert_eq!(circle.get_velocity(), Vec2D::zero());
    assert_eq!(circle.get_ang_velocity(), Scalar::zero());
    assert_eq!(circle.get_friction(), Scalar::zero());
    assert!(!circle.get_static());
    assert_eq!(circle.get_id(), 0);
    assert!(circle.get_pivot().is_dynamic);
    assert_eq!(circle.get_pivot().position, v(5, 5));
    assert!(circle.get_anchors().is_empty());
    assert_eq!(circle.color, Color { r: 0, g: 0, b: 0, a: 255 });
}

#[test]
fn a_new_segment() {
    let line = Line::new(v(1, 1), v(1, -5));
    assert_eq!(line.get_mass(), s(1));
    assert_eq!(line.get_com(), v(1, -2));
    assert!(line.get_static());
    assert_eq!(line.get_id(), 0);
    assert!(line.get_pivot().is_dynamic);
    assert_eq!(line.get_pivot().position, v(1, -2));
    assert_eq!(line.get_velocity(), Vec2D::zero());
    assert!(line.get_anchors().is_empty());
}

#[test]
fn the_midpoint_of_a_segment_rounds_down() {
    let line = Line::new(micro(0, 0), micro(1, -1));
    assert_eq!(line.get_com(), micro(0, -1));
}

#[test]
fn a_new_group() {
    let group = Group::new();
    assert!(group.objects.is_empty());
    assert_eq!(group.get_mass(), Scalar::zero());
    assert_eq!(group.get_com(), Vec2D::zero());
    assert!(!group.get_static());
    assert_eq!(group.get_id(), 0);
    assert!(group.get_pivot().is_dynamic);
    assert_eq!(group.get_pivot().position, Vec2D::zero());
}

#[test]
fn setters_change_what_they_name() {
    let mut circle = Circle::new(s(1), v(0, 0), s(1));
    circle.set_mass(s(7));
    circle.set_velocity(&v(1, 2));
    circle.set_friction(Scalar::from_ratio(1, 2));
    circle.set_static(true);
    circle.set_id(9);
    circle.set_pivot(Joint::new(false, v(3, 3)));
    circle.set_ang_velocity(s(2));
    assert_eq!(circle.get_mass(), s(7));
    assert_eq!(circle.get_velocity(), v(1, 2));
    assert_eq!(circle.get_friction().raw(), 500_000);
    assert!(circle.get_static());
    assert_eq!(circle.get_id(), 9);
    assert_eq!(circle.get_pivot(), Joint::new(false, v(3, 3)));
    assert_eq!(circle.get_ang_velocity(), s(2));
    assert_eq!(circle.get_com(), v(0, 0));
}

#[test]
fn setters_of_a_segment_and_a_body() {
    let mut line = Line::new(v(0, 0), v(2, 0));
    line.set_mass(s(7));
    line.set_static(false);
    line.set_velocity(&v(0, 1));
    assert_eq!(line.get_mass(), s(7));
    assert!(!line.get_static());
    let mut body = Body::Line(line);
    body.set_friction(s(1));
    body.set_id(4);
    body.set_ang_velocity(s(3));
    body.set_pivot(Joint::new(false, v(0, 0)));
    body.set_mass(s(2));
    body.set_static(true);
    body.set_velocity(&v(5, 5));
    assert_eq!(body.get_friction(), s(1));
    assert_eq!(body.get_id(), 4);
    assert_eq!(body.get_ang_velocity(), s(3));
    assert_eq!(body.get_pivot(), Joint::new(false, v(0, 0)));
    assert_eq!(body.get_mass(), s(2));
    assert!(body.get_static());
    assert_eq!(body.get_velocity(), v(5, 5));
    assert_eq!(body.get_com(), v(1, 0));
}

#[test]
fn the_mass_of_a_group_cannot_be_set() {
    let mut group = Group::new();
    group.add_object(Body::Circle(Circle::new(s(3), v(0, 0), s(1))));
    group.set_mass(s(50));
    assert_eq!(group.get_mass(), s(3));
    let mut body = Body::Group(group);
    body.set_mass(s(50));
    assert_eq!(body.get_mass(), s(3));
}

#[test]
fn anchors_are_kept_by_id() {
    let mut circle = Circle::new(s(1), v(0, 0), s(1));
    assert_eq!(circle.get_anchor(1), None);
    circle.add_anchor(1, v(1, 0));
    circle.add_anchor(2, v(0, 1));
    circle.add_anchor(1, v(-1, 0));
    assert_eq!(circle.get_anchor(1), Some(&v(-1, 0)));
    assert_eq!(circle.get_anchor(2), Some(&v(0, 1)));
    assert_eq!(circle.get_anchor(3), None);
    assert_eq!(circle.get_anchors().len(), 2);
}

#[test]
fn moving_a_circle_moves_its_anchors_and_its_dynamic_joint() {
    let mut circle = Circle::new(s(1), v(1, 1), s(1));
    circle.add_anchor(7, v(2, 1));
    circle.set_com(&v(4, 5));
    assert_eq!(circle.get_com(), v(4, 5));
    assert_eq!(circle.get_anchor(7), Some(&v(5, 5)));
    assert_eq!(circle.get_pivot().position, v(4, 5));
}

#[test]
fn a_joint_that_is_not_dynamic_stays_when_the_body_moves_or_turns() {
    let mut line = Line::new(v(-1, 0), v(1, 0));
    line.set_pivot(Joint::new(false, v(9, 9)));
    line.set_com(&v(3, 3));
    line.rotate(Scalar::from_raw(1_570_796), v(0, 0));
    assert_eq!(line.get_pivot(), Joint::new(false, v(9, 9)));
}

#[test]
fn moving_a_segment_moves_both_ends() {
    let mut line = Line::new(v(0, 0), v(2, 4));
    line.add_anchor(1, v(2, 4));
    line.set_com(&v(0, 0));
    assert_eq!(line.start_point, v(-1, -2));
    assert_eq!(line.end_point, v(1, 2));
    assert_eq!(line.get_anchor(1), Some(&v(1, 2)));
    assert_eq!(line.get_pivot().position, v(0, 0));
}

#[test]
fn setting_the_centre_twice_is_setting_it_once() {
    let mut once = Line::new(v(0, 0), v(2, 4));
    once.add_anchor(1, v(5, 5));
    let mut twice = Line::new(v(0, 0), v(2, 4));
    twice.add_anchor(1, v(5, 5));
    once.set_com(&v(-7, 3));
    twice.set_com(&v(100, 100));
    twice.set_com(&v(-7, 3));
    assert_eq!(once.start_point, twice.start_point);
    assert_eq!(once.end_point, twice.end_point);
    assert_eq!(once.get_anchor(1), twice.get_anchor(1));
    assert_eq!(once.get_pivot(), twice.get_pivot());
}

#[test]
fn turning_a_segment_by_a_quarter_turn() {
    let mut line = Line::new(v(1, 0), v(3, 0));
    line.add_anchor(1, v(2, 1));
    line.rotate(Scalar::from_raw(1_570_796), v(1, 0));
    assert_eq!(line.start_point, v(1, 0));
    assert_eq!(line.end_point, v(1, 2));
    assert_eq!(line.get_anchor(1), Some(&v(0, 1)));
    assert_eq!(line.get_pivot().position, v(1, 1));
}

#[test]
fn fifty_turns_keep_the_length_of_a_segment_within_fifty_units() {
    let mut line = Line::new(v(-3, 1), v(4, 2));
    let before = line.end_point.sub(&line.start_point).mag().raw();
    let mut k = 0;
    while k < 50 {
        line.rotate(Scalar::from_raw(123_457), v(1, 1));
        k += 1;
    }
    let after = line.end_point.sub(&line.start_point).mag().raw();
    assert!((after - before).abs() <= 50, "{} {}", before, after);
}

#[test]
fn moment_of_inertia_of_a_disc() {
    let circle = Circle::new(s(2), v(0, 0), s(3));
    assert_eq!(circle.get_i_com(), s(9));
    let unit = Circle::new(s(1), v(0, 0), s(1));
    assert_eq!(unit.get_i_com().raw(), 500_000);
}

#[test]
fn moment_of_inertia_of_a_rod() {
    let mut line = Line::new(v(0, 0), v(0, 2));
    line.set_mass(s(3));
    assert_eq!(line.get_i_com(), s(1));
    let diagonal = Line::new(v(0, 0), v(3, 4));
    assert_eq!(diagonal.get_i_com().raw(), 2_083_333);
}

#[test]
fn moment_of_inertia_of_a_group_adds_the_distance_terms() {
    let mut group = Group::new();
    group.add_object(Body::Circle(Circle::new(s(1), v(-1, 0), s(1))));
    group.add_object(Body::Circle(Circle::new(s(1), v(1, 0), s(1))));
    assert_eq!(group.get_com(), v(0, 0));
    assert_eq!(group.get_i_com(), s(3));
    assert_eq!(Group::new().get_i_com(), Scalar::zero());
}

#[test]
fn an_impulse_changes_only_the_angular_velocity() {
    let mut circle = Circle::new(s(2), v(0, 0), s(1));
    circle.set_velocity(&v(1, 1));
    circle.apply_impulse(&v(0, 3), &v(2, 0), &v(0, 0));
    assert_eq!(circle.get_ang_velocity(), s(6));
    assert_eq!(circle.get_velocity(), v(1, 1));
    assert_eq!(circle.get_com(), v(0, 0));
}

#[test]
fn an_impulse_about_a_pivot_off_the_centre_uses_the_parallel_axis() {
    let mut circle = Circle::new(s(2), v(0, 0), s(1));
    circle.apply_impulse(&v(0, 3), &v(3, 0), &v(1, 0));
    assert_eq!(circle.get_ang_velocity(), s(2));
}

#[test]
fn an_impulse_on_a_body_without_inertia_changes_nothing() {
    let mut group = Group::new();
    group.apply_impulse(&v(0, 3), &v(3, 0), &v(0, 0));
    assert_eq!(group.get_ang_velocity(), Scalar::zero());
}

#[test]
fn moving_a_group_moves_its_children() {
    let mut group = Group::new();
    group.add_object(Body::Circle(Circle::new(s(1), v(0, 0), s(1))));
    group.add_object(Body::Circle(Circle::new(s(3), v(2, 0), s(1))));
    assert_eq!(group.get_mass(), s(4));
    assert_eq!(group.get_com(), micro(1_500_000, 0));
    assert_eq!(group.get_pivot().position, micro(1_500_000, 0));
    group.set_com(&v(5, 5));
    assert_eq!(group.get_com(), v(5, 5));
    assert_eq!(group.objects[0].get_com(), micro(3_500_000, 5_000_000));
    assert_eq!(group.objects[1].get_com(), micro(5_500_000, 5_000_000));
    assert_eq!(group.get_pivot().position, v(5, 5));
}

#[test]
fn moving_a_group_without_children_changes_nothing() {
    let mut group = Group::new();
    group.add_anchor(1, v(1, 1));
    group.set_com(&v(3, 4));
    assert_eq!(group.get_com(), v(0, 0));
    assert!(group.objects.is_empty());
    assert_eq!(group.get_mass(), Scalar::zero());
    assert_eq!(group.get_pivot(), Joint::new(true, v(0, 0)));
    assert_eq!(group.get_anchor(1), Some(&v(1, 1)));
    let mut body = Body::Group(group);
    body.set_com(&v(-5, 6));
    assert_eq!(body.get_com(), v(0, 0));
}

#[test]
fn a_group_takes_the_anchors_of_its_children() {
    let mut first = Circle::new(s(1), v(0, 0), s(1));
    first.add_anchor(1, v(1, 0));
    let mut second = Circle::new(s(1), v(4, 0), s(1));
    second.add_anchor(1, v(5, 0));
    second.add_anchor(2, v(4, 1));
    let mut group = Group::new();
    group.add_anchor(3, v(9, 9));
    group.add_object(Body::Circle(first));
    assert_eq!(group.get_anchor(1), Some(&v(1, 0)));
    group.add_object(Body::Circle(second));
    assert_eq!(group.get_anchor(1), Some(&v(5, 0)));
    assert_eq!(group.get_anchor(2), Some(&v(4, 1)));
    assert_eq!(group.get_anchor(3), Some(&v(9, 9)));
    assert_eq!(group.get_anchors().len(), 3);
}

#[test]
fn a_group_with_a_fixed_joint_keeps_it_when_a_child_is_added() {
    let mut group = Group::new();
    group.set_pivot(Joint::new(false, v(7, 7)));
    group.add_object(Body::Circle(Circle::new(s(1), v(2, 2), s(1))));
    assert_eq!(group.get_com(), v(2, 2));
    assert_eq!(group.get_pivot(), Joint::new(false, v(7, 7)));
}

#[test]
fn turning_a_group_turns_its_children_about_the_same_point() {
    let mut group = Group::new();
    group.add_object(Body::Circle(Circle::new(s(1), v(1, 0), s(1))));
    group.add_object(Body::Line(Line::new(v(2, 0), v(4, 0))));
    group.rotate(Scalar::from_raw(1_570_796), v(0, 0));
    assert_eq!(group.objects[0].get_com(), v(0, 1));
    assert_eq!(line_of(&group.objects[1]).start_point, v(0, 2));
    assert_eq!(line_of(&group.objects[1]).end_point, v(0, 4));
    assert_eq!(group.get_com(), v(0, 2));
}

#[test]
fn nested_groups_move_together() {
    let mut inner = Group::new();
    inner.add_object(Body::Circle(Circle::new(s(1), v(0, 0), s(1))));
    inner.add_object(Body::Circle(Circle::new(s(1), v(2, 0), s(1))));
    let mut outer = Group::new();
    outer.add_object(Body::Group(inner));
    outer.add_object(Body::Circle(Circle::new(s(2), v(1, 4), s(1))));
    assert_eq!(outer.get_mass(), s(4));
    assert_eq!(outer.get_com(), v(1, 2));
    outer.set_com(&v(11, 12));
    match &outer.objects[0] {
        Body::Group(group) => {
            assert_eq!(group.get_com(), v(11, 10));
            assert_eq!(circle_of(&group.objects[0]).center, v(10, 10));
            assert_eq!(circle_of(&group.objects[1]).center, v(12, 10));
        },
        _ => panic!("not a group"),
    }
    assert_eq!(circle_of(&outer.objects[1]).center, v(11, 14));
}

#[test]
fn polygon_construction() {
    let group = Group::create_polygon(vec![v(1, 0), v(0, 1), v(-1, 0), v(0, -1), v(1, 0)], s(4));
    assert_eq!(group.objects.len(), 4);
    let mut k = 0;
    while k < 4 {
        assert_eq!(group.objects[k].get_mass(), s(1));
        assert!(!group.objects[k].get_static());
        assert!(matches!(group.objects[k], Body::Line(_)));
        k += 1;
    }
    assert_eq!(group.get_mass(), s(4));
    assert_eq!(group.get_com(), v(0, 0));
    assert_eq!(line_of(&group.objects[0]).start_point, v(1, 0));
    assert_eq!(line_of(&group.objects[0]).end_point, v(0, 1));
    assert_eq!(line_of(&group.objects[3]).start_point, v(0, -1));
    assert_eq!(line_of(&group.objects[3]).end_point, v(1, 0));
}

#[test]
fn an_open_polyline_is_not_closed() {
    let group = Group::create_polygon(vec![v(0, 0), v(2, 0), v(2, 2)], s(3));
    assert_eq!(group.objects.len(), 2);
    assert_eq!(group.objects[0].get_mass().raw(), 1_500_000);
    assert_eq!(group.get_mass(), s(3));
    assert_eq!(group.get_com(), micro(1_500_000, 500_000));
}

#[test]
fn fewer_than_two_points_give_an_empty_group() {
    assert!(Group::create_polygon(vec![], s(4)).objects.is_empty());
    let single = Group::create_polygon(vec![v(1, 1)], s(4));
    assert!(single.objects.is_empty());
    assert_eq!(single.get_mass(), Scalar::zero());
}

#[test]
fn moving_a_body_keeps_the_differences_of_its_points() {
    let mut line = Line::new(micro(-3_000_001, 1_000_007), micro(4_000_003, 2_000_011));
    line.add_anchor(1, micro(123_456, -654_321));
    line.add_anchor(2, micro(-1, 999_999));
    let span = line.end_point.sub(&line.start_point);
    let between = line.get_anchor(1).unwrap().sub(line.get_anchor(2).unwrap());
    let from_start = line.get_anchor(1).unwrap().sub(&line.start_point);
    let targets = [v(100, -100), micro(7, 13), v(-5000, 0), micro(-999_999_999, 123_456_789)];
    let mut k = 0;
    while k < targets.len() {
        line.set_com(&targets[k]);
        assert_eq!(line.get_com(), targets[k]);
        assert_eq!(line.end_point.sub(&line.start_point), span);
        assert_eq!(line.get_anchor(1).unwrap().sub(line.get_anchor(2).unwrap()), between);
        assert_eq!(line.get_anchor(1).unwrap().sub(&line.start_point), from_start);
        k += 1;
    }
}

#[test]
fn turning_a_body_there_and_back_returns_it_within_three_units_a_turn() {
    let mut group = Group::new();
    let mut ball = Circle::new(s(1), micro(1_234_567, -7_654_321), s(1));
    ball.add_anchor(1, micro(2_000_000, -7_000_000));
    group.add_object(Body::Circle(ball));
    group.add_object(Body::Line(Line::new(micro(-3_000_001, 1_000_007), micro(4_000_003, 2_000_011))));
    let pivot = micro(500_000, 250_000);
    let angles = [1i64, 777_777, 1_570_796, 3_000_000, -2_345_678];
    let mut k = 0;
    while k < angles.len() {
        let angle = Scalar::from_raw(angles[k]);
        group.rotate(angle, pivot);
        group.rotate(angle.neg(), pivot);
        k += 1;
    }
    let close = |p: Vec2D, x: i64, y: i64| (p.x.raw() - x).abs() <= 15 && (p.y.raw() - y).abs() <= 15;
    assert!(close(circle_of(&group.objects[0]).center, 1_234_567, -7_654_321));
    assert!(close(*group.get_anchor(1).unwrap(), 2_000_000, -7_000_000));
    assert!(close(line_of(&group.objects[1]).start_point, -3_000_001, 1_000_007));
    assert!(close(line_of(&group.objects[1]).end_point, 4_000_003, 2_000_011));
}

#[test]
fn a_turning_group_stays_centred_on_its_children_within_a_few_units() {
    let mut group = Group::new();
    group.add_object(Body::Circle(Circle::new(s(1), v(0, 0), s(1))));
    group.add_object(Body::Circle(Circle::new(s(3), v(2, 0), s(1))));
    group.add_object(Body::Line(Line::new(v(0, 3), v(4, 5))));
    let mut k = 0;
    while k < 100 {
        group.rotate(Scalar::from_raw(98_765), v(-1, 2));
        let target = group.get_com().add(&micro(12_345, -6_789));
        group.set_com(&target);
        k += 1;
    }
    let mut mx: i128 = 0;
    let mut my: i128 = 0;
    let mut mass: i128 = 0;
    let mut k = 0;
    while k < group.objects.len() {
        let m = group.objects[k].get_mass().raw() as i128;
        mx += m * group.objects[k].get_com().x.raw() as i128;
        my += m * group.objects[k].get_com().y.raw() as i128;
        mass += m;
        k += 1;
    }
    assert_eq!(mass, group.get_mass().raw() as i128);
    assert!((mx.div_euclid(mass) - group.get_com().x.raw() as i128).abs() <= 100);
    assert!((my.div_euclid(mass) - group.get_com().y.raw() as i128).abs() <= 100);
}
