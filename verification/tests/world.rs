use physics2d::scalar::Scalar;
use physics2d::shapes::Body;
use physics2d::shapes::Circle;
use physics2d::shapes::Group;
use physics2d::shapes::Line;
use physics2d::vec2d::Joint;
use physics2d::vec2d::Vec2D;
use physics2d::world::advance_each;
use physics2d::world::resolve_all;
use physics2d::world::World;

fn s(n: i64) -> Scalar {
    Scalar::from_int(n)
}

fn v(x: i64, y: i64) -> Vec2D {
    Vec2D::new(Scalar::from_int(x), Scalar::from_int(y))
}

fn micro(x: i64, y: i64) -> Vec2D {
    Vec2D::new(Scalar::from_raw(x), Scalar::from_raw(y))
}

fn ball(mass: i64, x: i64, y: i64, vx: i64, vy: i64) -> Body {
    let mut circle = Circle::new(s(mass), v(x, y), s(1));
    circle.set_velocity(&v(vx, vy));
    Body::Circle(circle)
}

fn ids(world: &World) -> Vec<usize> {
    let mut found = Vec::new();
    let mut k = 0;
    while k < world.objects.len() {
        found.push(world.objects[k].get_id());
        k += 1;
    }
    found
}

fn total_mass(world: &World) -> i64 {
    let mut sum = 0;
    let mut k = 0;
    while k < world.objects.len() {
        sum += world.objects[k].get_mass().raw();
        k += 1;
    }
    sum
}

#[test]
fn a_new_world_is_empty() {
    let world = World::new(s(10), Scalar::from_ratio(1, 2));
    assert!(world.objects.is_empty());
    assert_eq!(world.gravity, s(10));
    assert_eq!(world.timestep.raw(), 500_000);
    assert_eq!(world.next_id, 0);
    assert!(!world.contains_id(0));
    assert!(!world.contains_id(1));
}

#[test]
fn bodies_without_an_id_get_the_next_free_one() {
    let mut world = World::new(s(0), s(1));
    world.add_object(ball(1, 0, 0, 0, 0));
    world.add_object(ball(1, 10, 0, 0, 0));
    world.add_object(ball(1, 20, 0, 0, 0));
    assert_eq!(ids(&world), vec![1, 2, 3]);
    assert_eq!(world.next_id, 4);
    assert!(world.contains_id(2));
    assert!(!world.contains_id(4));
    assert!(!world.contains_id(0));
}

#[test]
fn a_body_with_an_id_keeps_it_and_the_others_pass_it() {
    let mut world = World::new(s(0), s(1));
    let mut preset = ball(1, 0, 0, 0, 0);
    preset.set_id(2);
    world.add_object(preset);
    assert_eq!(world.next_id, 0);
    assert_eq!(world.find_free_id(), 1);
    world.add_object(ball(1, 10, 0, 0, 0));
    assert_eq!(world.find_free_id(), 3);
    world.add_object(ball(1, 20, 0, 0, 0));
    let mut high = ball(1, 30, 0, 0, 0);
    high.set_id(7);
    world.add_object(high);
    world.add_object(ball(1, 40, 0, 0, 0));
    assert_eq!(ids(&world), vec![1, 2, 3, 4, 7]);
    assert_eq!(world.next_id, 5);
    assert_eq!(world.objects[0].get_com(), v(10, 0));
    assert_eq!(world.objects[1].get_com(), v(0, 0));
    assert_eq!(world.objects[4].get_com(), v(30, 0));
}

#[test]
fn the_next_free_id_skips_a_run_of_taken_ids() {
    let mut world = World::new(s(0), s(1));
    let mut k = 1;
    while k <= 3 {
        let mut preset = ball(1, 10 * k as i64, 0, 0, 0);
        preset.set_id(k);
        world.add_object(preset);
        k += 1;
    }
    assert_eq!(world.find_free_id(), 4);
    assert_eq!(world.position_of(3), 2);
    assert_eq!(world.position_of(9), 3);
    assert_eq!(world.position_of(0), 0);
    world.add_object(ball(1, 0, 0, 0, 0));
    assert_eq!(ids(&world), vec![1, 2, 3, 4]);
    assert_eq!(world.next_id, 5);
}

#[test]
fn no_two_bodies_share_an_id() {
    let mut world = World::new(s(0), s(1));
    let presets = [5usize, 2, 8];
    let mut k = 0;
    while k < presets.len() {
        let mut preset = ball(1, 10 * k as i64, 0, 0, 0);
        preset.set_id(presets[k]);
        world.add_object(preset);
        world.add_object(ball(1, 10 * k as i64, 50, 0, 0));
        k += 1;
    }
    world.update();
    let found = ids(&world);
    assert_eq!(found, vec![1, 2, 3, 4, 5, 8]);
}

#[test]
fn head_on_equal_mass_elastic() {
    let mut world = World::new(s(0), Scalar::from_ratio(1, 2));
    world.add_object(ball(1, -2, 0, 1, 0));
    world.add_object(ball(1, 2, 0, -1, 0));
    world.update();
    world.update();
    world.update();
    assert_eq!(world.objects[0].get_com(), micro(-500_000, 0));
    assert_eq!(world.objects[1].get_com(), micro(500_000, 0));
    assert_eq!(world.objects[0].get_velocity(), v(1, 0));
    assert_eq!(world.objects[1].get_velocity(), v(-1, 0));
    world.update();
    assert_eq!(world.objects[0].get_velocity(), v(-1, 0));
    assert_eq!(world.objects[1].get_velocity(), v(1, 0));
    assert_eq!(world.objects[0].get_ang_velocity(), s(0));
    assert_eq!(world.objects[1].get_ang_velocity(), s(0));
    assert_eq!(world.objects[0].get_com(), v(-1, 0));
    assert_eq!(world.objects[1].get_com(), v(1, 0));
    assert_eq!(world.objects[0].get_pivot(), Joint::new(true, v(-1, 0)));
}

#[test]
fn circles_that_come_to_lie_on_each_other_pass_through() {
    let mut world = World::new(s(0), s(1));
    world.add_object(ball(1, -2, 0, 1, 0));
    world.add_object(ball(1, 2, 0, -1, 0));
    world.update();
    assert_eq!(world.objects[0].get_com(), v(-1, 0));
    world.update();
    assert_eq!(world.objects[0].get_com(), v(0, 0));
    assert_eq!(world.objects[1].get_com(), v(0, 0));
    world.update();
    assert_eq!(world.objects[0].get_velocity(), v(1, 0));
    assert_eq!(world.objects[1].get_velocity(), v(-1, 0));
    assert_eq!(world.objects[0].get_com(), v(1, 0));
}

#[test]
fn wall_reflection() {
    let mut world = World::new(s(0), s(1));
    world.add_object(ball(1, 0, 0, 1, 1));
    world.add_object(Body::Line(Line::new(v(10, -10), v(10, 10))));
    let mut k = 0;
    while k < 10 {
        world.update();
        assert_eq!(world.objects[0].get_velocity(), v(1, 1));
        k += 1;
    }
    assert_eq!(world.objects[0].get_com(), v(10, 10));
    world.update();
    assert_eq!(world.objects[0].get_velocity(), v(-1, 1));
    assert_eq!(world.objects[0].get_com(), v(9, 11));
    assert_eq!(world.objects[1].get_velocity(), v(0, 0));
    assert_eq!(world.objects[1].get_com(), v(10, 0));
}

#[test]
fn friction_stop_in_a_world() {
    let mut circle = Circle::new(s(2), v(0, 0), s(1));
    circle.set_velocity(&v(3, 0));
    circle.set_friction(Scalar::from_ratio(1, 2));
    let mut world = World::new(s(10), s(1));
    world.add_object(Body::Circle(circle));
    world.update();
    assert_eq!(world.objects[0].get_velocity(), v(0, 0));
    assert_eq!(world.objects[0].get_com(), v(0, 0));
}

#[test]
fn static_pivot() {
    let mut line = Line::new(v(-1, 0), v(1, 0));
    line.set_static(false);
    line.set_pivot(Joint::new(false, v(0, 0)));
    let mut circle = Circle::new(s(1), micro(500_000, 500_000), s(1));
    circle.set_velocity(&v(0, -1));
    let mut world = World::new(s(0), s(1));
    world.add_object(Body::Circle(circle));
    world.add_object(Body::Line(line));
    world.update();
    assert_eq!(world.objects[1].get_pivot(), Joint::new(false, v(0, 0)));
    assert_eq!(world.objects[1].get_ang_velocity().raw(), -75_001);
    assert_eq!(world.objects[1].get_velocity(), v(0, 0));
    assert_eq!(world.objects[0].get_velocity(), v(0, 0));
    match &world.objects[1] {
        Body::Line(line) => {
            assert!(line.end_point.y.raw() < 0);
            assert!(line.start_point.y.raw() > 0);
        },
        _ => panic!("not a segment"),
    }
    world.update();
    assert_eq!(world.objects[1].get_pivot(), Joint::new(false, v(0, 0)));
}

#[test]
fn a_static_body_is_at_rest_after_a_collision() {
    let mut wall = Line::new(v(0, -5), v(0, 5));
    wall.set_velocity(&v(3, 3));
    wall.set_friction(s(1));
    let mut world = World::new(s(10), s(1));
    world.add_object(Body::Line(wall));
    world.add_object(ball(1, 0, 0, 2, 0));
    world.add_object(ball(1, 0, 3, -2, 0));
    world.update();
    assert!(world.objects[0].get_static());
    assert_eq!(world.objects[0].get_velocity(), v(0, 0));
    assert_eq!(world.objects[0].get_com(), v(0, 0));
}

#[test]
fn the_total_mass_stays() {
    let mut world = World::new(s(1), Scalar::from_ratio(1, 2));
    world.add_object(ball(1, -2, 0, 1, 0));
    world.add_object(ball(3, 2, 0, -1, 0));
    let mut group = Group::new();
    group.add_object(ball(2, 0, 5, 0, 0));
    group.add_object(ball(5, 2, 5, 0, 0));
    group.set_velocity(&v(0, -1));
    world.add_object(Body::Group(group));
    world.add_object(Body::Line(Line::new(v(-5, -3), v(5, -3))));
    let before = total_mass(&world);
    assert_eq!(before, 12_000_000);
    let mut k = 0;
    while k < 20 {
        world.update();
        assert_eq!(total_mass(&world), before);
        k += 1;
    }
}

#[test]
fn pairs_are_resolved_in_the_order_of_the_ids() {
    let mut objects = vec![ball(1, 0, 0, 1, 0), ball(1, 1, 0, 0, 0), ball(1, 2, 0, 0, 0)];
    resolve_all(&mut objects);
    assert_eq!(objects[0].get_velocity(), v(0, 0));
    assert_eq!(objects[1].get_velocity(), v(0, 0));
    assert_eq!(objects[2].get_velocity(), v(1, 0));
    assert_eq!(objects[0].get_pivot(), Joint::new(true, micro(500_000, 0)));
    assert_eq!(objects[1].get_pivot(), Joint::new(true, micro(1_500_000, 0)));
}

#[test]
fn every_body_is_advanced() {
    let mut objects = vec![ball(1, 0, 0, 1, 0), ball(1, 5, 0, 0, 2)];
    advance_each(&mut objects, s(0), Scalar::from_ratio(1, 2));
    assert_eq!(objects[0].get_com(), micro(500_000, 0));
    assert_eq!(objects[1].get_com(), v(5, 1));
}

#[test]
fn an_empty_world_can_tick() {
    let mut world = World::new(s(10), s(1));
    world.update();
    assert!(world.objects.is_empty());
    assert_eq!(world.next_id, 0);
}

#[test]
fn a_lone_turning_body_moves_and_turns_about_itself() {
    let mut circle = Circle::new(s(1), v(0, 0), s(1));
    circle.set_id(1);
    circle.set_velocity(&v(1, 0));
    circle.set_ang_velocity(Scalar::from_raw(1_570_796));
    let mut world = World::new(s(0), s(1));
    world.add_object(Body::Circle(circle));
    world.update();
    assert_eq!(world.objects[0].get_com(), v(1, 0));
    assert_eq!(world.objects[0].get_velocity(), v(1, 0));
    assert_eq!(world.objects[0].get_ang_velocity().raw(), 1_570_796);
    assert_eq!(world.objects[0].get_pivot(), Joint::new(true, v(1, 0)));
    assert_eq!(world.objects[0].get_id(), 1);
}

#[test]
fn a_tick_leaves_a_group_without_children_where_it_is() {
    let mut group = Group::new();
    group.set_velocity(&v(1, 1));
    let mut world = World::new(s(0), s(1));
    world.add_object(Body::Group(group));
    world.update();
    assert_eq!(world.objects[0].get_com(), v(0, 0));
    assert_eq!(world.objects[0].get_mass(), s(0));
}

#[test]
fn a_tick_keeps_the_masses_of_the_children_of_a_group() {
    let mut inner = Group::new();
    inner.add_object(ball(2, 0, 5, 0, 0));
    inner.add_object(Body::Line(Line::new(v(0, 6), v(2, 6))));
    let mut group = Group::new();
    group.add_object(Body::Group(inner));
    group.add_object(ball(5, 2, 5, 0, 0));
    group.set_velocity(&v(0, -1));
    group.set_ang_velocity(Scalar::from_raw(100_000));
    let mut world = World::new(s(1), Scalar::from_ratio(1, 2));
    world.add_object(Body::Group(group));
    world.add_object(Body::Line(Line::new(v(-5, 3), v(5, 3))));
    let mut k = 0;
    while k < 10 {
        world.update();
        k += 1;
    }
    match &world.objects[0] {
        Body::Group(group) => {
            assert_eq!(group.get_mass(), s(8));
            assert_eq!(group.objects[1].get_mass(), s(5));
            match &group.objects[0] {
                Body::Group(inner) => {
                    assert_eq!(inner.get_mass(), s(3));
                    assert_eq!(inner.objects[0].get_mass(), s(2));
                    assert_eq!(inner.objects[1].get_mass(), s(1));
                },
                _ => panic!("not a group"),
            }
        },
        _ => panic!("not a group"),
    }
}
