use physics2d::dynamics::advance;
use physics2d::dynamics::elastic_velocity;
use physics2d::dynamics::exchange;
use physics2d::dynamics::resolve_pair;
use physics2d::dynamics::respond;
use physics2d::scalar::Scalar;
use physics2d::shapes::Body;
use physics2d::shapes::Circle;
use physics2d::shapes::Group;
use physics2d::shapes::Line;
use physics2d::vec2d::Joint;
use physics2d::vec2d::Vec2D;

fn s(n: i64) -> Scalar {
    Scalar::from_int(n)
}

fn v(x: i64, y: i64) -> Vec2D {
    Vec2D::new(Scalar::from_int(x), Scalar::from_int(y))
}

fn micro(x: i64, y: i64) -> Vec2D {
    Vec2D::new(Scalar::from_raw(x), Scalar::from_raw(y))
}

fn ball(mass: i64, x: i64, y: i64, vx: i64, vy: i64) -> Body {
    let mut circle = Circle::new(s(mass), v(x, y), s(1));
    circle.set_velocity(&v(vx, vy));
    Body::Circle(circle)
}

#[test]
fn equal_masses_exchange_their_velocities() {
    assert_eq!(elastic_velocity(&v(1, 0), &v(-1, 0), s(1), s(1)), v(-1, 0));
    assert_eq!(elastic_velocity(&v(3, 4), &v(0, 0), s(5), s(5)), v(0, 0));
}

#[test]
fn a_light_mass_bounces_off_a_heavy_one() {
    assert_eq!(elastic_velocity(&v(2, 0), &v(0, 0), s(1), s(3)), v(-1, 0));
    assert_eq!(elastic_velocity(&v(0, 0), &v(2, 0), s(3), s(1)), v(1, 0));
    assert_eq!(elastic_velocity(&v(1, 0), &v(0, 0), s(1), s(2)), micro(-333_334, 0));
}

#[test]
fn masses_that_sum_to_zero_give_no_velocity() {
    assert_eq!(elastic_velocity(&v(2, 0), &v(1, 0), s(1), s(-1)), v(0, 0));
}

#[test]
fn the_velocity_of_a_point_of_a_turning_body() {
    let mut body = ball(1, 0, 0, 1, 0);
    body.set_ang_velocity(s(2));
    assert_eq!(body.velocity_at(&v(0, 1)), v(-1, 0));
    assert_eq!(body.velocity_at(&v(0, 0)), v(1, 0));
    assert_eq!(body.velocity_at(&v(3, 0)), v(1, 6));
}

#[test]
fn the_damped_impulse_turns_a_body() {
    let mut line = Line::new(v(-1, 0), v(1, 0));
    line.set_pivot(Joint::new(false, v(0, 0)));
    let body = Body::Line(line);
    let turned = body.kicked(&v(0, 0), &v(0, -1), &micro(500_000, 0));
    assert_eq!(turned.raw(), -75_001);
    let unmoved = body.kicked(&v(0, 0), &v(0, -1), &v(0, 0));
    assert_eq!(unmoved.raw(), 0);
}

#[test]
fn a_dynamic_joint_moves_to_the_contact_point() {
    let body = ball(1, 0, 0, 0, 0);
    assert_eq!(body.joint_at(&v(3, 4)), Joint::new(true, v(3, 4)));
    let mut pinned = ball(1, 0, 0, 0, 0);
    pinned.set_pivot(Joint::new(false, v(1, 1)));
    assert_eq!(pinned.joint_at(&v(3, 4)), Joint::new(false, v(1, 1)));
}

#[test]
fn a_static_body_stops_and_a_movable_one_is_reflected() {
    let mut wall = Body::Line(Line::new(v(10, -10), v(10, 10)));
    wall.set_velocity(&v(5, 5));
    wall.set_ang_velocity(s(1));
    let stopped = wall.bounce(&v(-20, 0), &v(10, 10));
    assert_eq!(stopped.velocity, v(0, 0));
    assert_eq!(stopped.ang_velocity, s(1));
    assert_eq!(stopped.pivot, wall.get_pivot());
    let body = ball(1, 10, 10, 1, 1);
    let reflected = body.bounce(&v(-20, 0), &v(10, 10));
    assert_eq!(reflected.velocity, v(-1, 1));
    assert_eq!(reflected.ang_velocity, s(0));
    assert_eq!(reflected.pivot, Joint::new(true, v(10, 10)));
}

#[test]
fn a_reflection_off_centre_turns_the_body() {
    let body = ball(2, 0, 0, 0, -1);
    let reflected = body.bounce(&v(0, 1), &v(1, 0));
    assert_eq!(reflected.velocity, v(0, 1));
    assert_eq!(reflected.ang_velocity.raw(), 200_000);
    assert_eq!(reflected.pivot, Joint::new(true, v(1, 0)));
}

#[test]
fn head_on_exchange_between_two_movable_bodies() {
    let a = ball(1, -1, 0, 1, 0);
    let b = ball(1, 1, 0, -1, 0);
    let after = exchange(&a, &b, &v(2, 0), &v(0, 0));
    assert_eq!(after, (v(-1, 0), v(1, 0)));
    let motions = respond(&a, &b, &v(2, 0), &v(0, 0));
    assert_eq!(motions.0.velocity, v(-1, 0));
    assert_eq!(motions.1.velocity, v(1, 0));
    assert_eq!(motions.0.ang_velocity, s(0));
    assert_eq!(motions.1.ang_velocity, s(0));
    assert_eq!(motions.0.pivot, Joint::new(true, v(0, 0)));
    assert_eq!(motions.1.pivot, Joint::new(true, v(0, 0)));
}

#[test]
fn the_part_of_the_velocity_across_the_normal_stays() {
    let a = ball(1, -1, 0, 1, 5);
    let b = ball(1, 1, 0, -1, -7);
    let after = exchange(&a, &b, &v(2, 0), &v(0, 0));
    assert_eq!(after, (v(-1, 5), v(1, -7)));
}

#[test]
fn a_body_with_a_fixed_joint_keeps_its_velocity_when_struck() {
    let mut a = ball(1, -1, 0, 1, 0);
    a.set_pivot(Joint::new(false, v(-1, 0)));
    let struck = a.struck(&v(-1, 0), &v(0, 0));
    assert_eq!(struck.velocity, v(1, 0));
    assert_eq!(struck.pivot, Joint::new(false, v(-1, 0)));
    let free = ball(1, -1, 0, 1, 0).struck(&v(-1, 0), &v(0, 0));
    assert_eq!(free.velocity, v(-1, 0));
}

#[test]
fn bodies_that_do_not_overlap_keep_their_motion() {
    let a = ball(1, -5, 0, 1, 0);
    let b = ball(1, 5, 0, -1, 0);
    let motions = resolve_pair(&a, &b);
    assert_eq!(motions.0.velocity, v(1, 0));
    assert_eq!(motions.1.velocity, v(-1, 0));
    assert_eq!(motions.0.pivot, a.get_pivot());
    assert_eq!(motions.1.pivot, b.get_pivot());
}

#[test]
fn overlapping_bodies_are_resolved() {
    let a = ball(1, 0, 0, 1, 0);
    let b = ball(3, 1, 0, 0, 0);
    let motions = resolve_pair(&a, &b);
    assert_eq!(motions.0.velocity, micro(-500_000, 0));
    assert_eq!(motions.1.velocity, micro(500_000, 0));
    let wall = Body::Line(Line::new(v(0, -5), v(0, 5)));
    let motions = resolve_pair(&ball(1, 0, 0, 2, 3), &wall);
    assert_eq!(motions.0.velocity, v(-2, 3));
    assert_eq!(motions.1.velocity, v(0, 0));
}

#[test]
fn friction_stop() {
    let mut circle = Circle::new(s(2), v(0, 0), s(1));
    circle.set_velocity(&v(3, 0));
    circle.set_friction(Scalar::from_ratio(1, 2));
    let mut body = Body::Circle(circle);
    advance(&mut body, s(10), s(1));
    assert_eq!(body.get_velocity(), v(0, 0));
    assert_eq!(body.get_com(), v(0, 0));
}

#[test]
fn friction_that_takes_exactly_the_speed_stops_the_body() {
    let mut circle = Circle::new(s(1), v(0, 0), s(1));
    circle.set_velocity(&v(3, 4));
    circle.set_friction(Scalar::from_ratio(1, 2));
    let mut body = Body::Circle(circle);
    advance(&mut body, s(-10), s(1));
    assert_eq!(body.get_velocity(), v(0, 0));
}

#[test]
fn friction_shortens_the_velocity() {
    let mut circle = Circle::new(s(1), v(0, 0), s(1));
    circle.set_velocity(&v(3, 4));
    circle.set_friction(Scalar::from_ratio(1, 10));
    let mut body = Body::Circle(circle);
    advance(&mut body, s(10), s(1));
    assert_eq!(body.get_velocity(), micro(2_400_000, 3_200_000));
    assert_eq!(body.get_com(), micro(2_400_000, 3_200_000));
}

#[test]
fn gravity_pulls_nothing_down() {
    let mut body = ball(1, 0, 0, 0, 0);
    advance(&mut body, s(10), s(1));
    assert_eq!(body.get_velocity(), v(0, 0));
    assert_eq!(body.get_com(), v(0, 0));
}

#[test]
fn a_tick_moves_a_body_by_its_velocity_times_the_timestep() {
    let mut body = ball(1, 1, 1, 2, -4);
    advance(&mut body, s(0), Scalar::from_ratio(1, 2));
    assert_eq!(body.get_com(), v(2, -1));
    assert_eq!(body.get_velocity(), v(2, -4));
    assert_eq!(body.get_pivot(), Joint::new(true, v(2, -1)));
}

#[test]
fn a_tick_turns_a_body_that_does_not_move_about_its_joint() {
    let mut line = Line::new(v(0, 0), v(2, 0));
    line.set_static(false);
    line.set_ang_velocity(Scalar::from_raw(1_570_796));
    line.set_pivot(Joint::new(true, v(0, 0)));
    let mut body = Body::Line(line);
    advance(&mut body, s(0), s(1));
    match &body {
        Body::Line(line) => {
            assert_eq!(line.start_point, v(0, 0));
            assert_eq!(line.end_point, v(0, 2));
        },
        _ => panic!("not a segment"),
    }
    assert_eq!(body.get_pivot(), Joint::new(true, v(0, 1)));
    assert_eq!(body.get_ang_velocity().raw(), 1_570_796);
}

#[test]
fn a_tick_keeps_a_group_centred_on_its_children() {
    let mut group = Group::new();
    group.add_object(ball(1, 0, 0, 0, 0));
    group.add_object(ball(3, 2, 0, 0, 0));
    group.set_velocity(&micro(100_000, 200_000));
    let mut body = Body::Group(group);
    let mut k = 0;
    while k < 10 {
        advance(&mut body, s(0), Scalar::from_ratio(1, 2));
        k += 1;
    }
    assert_eq!(body.get_com(), micro(2_000_000, 1_000_000));
    match &body {
        Body::Group(group) => {
            assert_eq!(group.objects[0].get_com(), micro(500_000, 1_000_000));
            assert_eq!(group.objects[1].get_com(), micro(2_500_000, 1_000_000));
        },
        _ => panic!("not a group"),
    }
}

#[test]
fn a_tick_moves_a_body_and_then_turns_it_about_its_joint_where_the_move_left_it() {
    let mut circle = Circle::new(s(1), v(0, 0), s(1));
    circle.set_velocity(&v(1, 0));
    circle.set_ang_velocity(Scalar::from_raw(1_570_796));
    circle.add_anchor(1, v(1, 0));
    let mut body = Body::Circle(circle);
    advance(&mut body, s(0), s(1));
    assert_eq!(body.get_com(), v(1, 0));
    assert_eq!(body.get_velocity(), v(1, 0));
    assert_eq!(body.get_ang_velocity().raw(), 1_570_796);
    assert_eq!(body.get_pivot(), Joint::new(true, v(1, 0)));
    assert_eq!(body.get_anchor(1), Some(&v(1, 1)));
}

#[test]
fn a_tick_turns_a_body_about_a_fixed_joint_where_it_is() {
    let mut line = Line::new(v(1, 0), v(3, 0));
    line.set_static(false);
    line.set_velocity(&v(0, 1));
    line.set_ang_velocity(Scalar::from_raw(1_570_796));
    line.set_pivot(Joint::new(false, v(1, 1)));
    let mut body = Body::Line(line);
    advance(&mut body, s(0), s(1));
    match &body {
        Body::Line(line) => {
            assert_eq!(line.start_point, v(1, 1));
            assert_eq!(line.end_point, v(1, 3));
        },
        _ => panic!("not a segment"),
    }
    assert_eq!(body.get_pivot(), Joint::new(false, v(1, 1)));
}
