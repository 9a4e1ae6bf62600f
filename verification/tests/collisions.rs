use physics2d::collision::any_hits_leaf;
use physics2d::collision::any_pair_hits;
use physics2d::collision::first_pair_touch;
use physics2d::collision::first_touch_leaf;
use physics2d::collision::hits_leaf;
use physics2d::collision::leaf_hits;
use physics2d::collision::leaf_touches;
use physics2d::collision::touches_leaf;
use physics2d::collision::Leaf;
use physics2d::scalar::Scalar;
use physics2d::shapes::Body;
use physics2d::shapes::Circle;
use physics2d::shapes::Group;
use physics2d::shapes::Line;
use physics2d::vec2d::Vec2D;

fn s(n: i64) -> Scalar {
    Scalar::from_int(n)
}

fn v(x: i64, y: i64) -> Vec2D {
    Vec2D::new(Scalar::from_int(x), Scalar::from_int(y))
}

fn micro(x: i64, y: i64) -> Vec2D {
    Vec2D::new(Scalar::from_raw(x), Scalar::from_raw(y))
}

fn disc(x: i64, y: i64, r: i64) -> Circle {
    Circle::new(s(1), v(x, y), s(r))
}

fn pair_of_discs(x1: i64, x2: i64) -> Group {
    let mut group = Group::new();
    group.add_object(Body::Circle(disc(x1, 0, 1)));
    group.add_object(Body::Circle(disc(x2, 0, 1)));
    group
}

#[test]
fn circles_closer_than_their_radii_collide() {
    assert!(disc(0, 0, 1).hits_circle(&disc(1, 1, 1)));
    assert!(disc(0, 0, 3).hits_circle(&disc(0, 0, 1)));
    assert!(!disc(0, 0, 1).hits_circle(&disc(3, 0, 1)));
}

#[test]
fn circles_exactly_touching_do_not_collide() {
    assert!(!disc(0, 0, 1).hits_circle(&disc(2, 0, 1)));
    assert!(!disc(0, 0, 2).hits_circle(&disc(3, 4, 3)));
    let nearly = Circle::new(s(1), micro(1_999_999, 0), s(1));
    assert!(disc(0, 0, 1).hits_circle(&nearly));
}

#[test]
fn contact_of_two_circles() {
    let contact = disc(0, 0, 1).touches_circle(&Circle::new(s(1), v(2, 0), s(3)));
    assert_eq!(contact, Some((v(2, 0), micro(500_000, 0))));
    assert_eq!(disc(0, 0, 1).touches_circle(&disc(2, 0, 1)), None);
    let from_the_other = Circle::new(s(1), v(2, 0), s(3)).touches_circle(&disc(0, 0, 1));
    assert_eq!(from_the_other, Some((v(-2, 0), micro(500_000, 0))));
}

#[test]
fn a_circle_and_a_segment_through_it_collide() {
    let circle = disc(0, 0, 1);
    assert!(circle.hits_line(&Line::new(v(-3, 0), v(3, 0))));
    assert!(circle.hits_line(&Line::new(micro(-3_000_000, 999_999), micro(3_000_000, 999_999))));
    assert!(!circle.hits_line(&Line::new(v(-3, 1), v(3, 1))));
    assert!(!circle.hits_line(&Line::new(v(-3, 2), v(3, 2))));
}

#[test]
fn a_segment_that_ends_inside_the_circle_collides() {
    let circle = disc(0, 0, 2);
    assert!(circle.hits_line(&Line::new(v(1, 0), v(9, 0))));
    assert!(circle.hits_line(&Line::new(v(9, 0), v(1, 0))));
}

#[test]
fn a_segment_that_ends_exactly_on_the_circle() {
    let circle = disc(0, 0, 1);
    assert!(!circle.hits_line(&Line::new(v(1, 0), v(3, 0))));
    assert!(!circle.hits_line(&Line::new(v(3, 0), v(1, 0))));
    assert!(circle.hits_line(&Line::new(v(1, 0), v(-3, 0))));
    assert!(circle.hits_line(&Line::new(micro(999_999, 0), v(3, 0))));
}

#[test]
fn a_segment_whose_line_passes_the_circle_but_which_ends_before_it() {
    let circle = disc(0, 0, 1);
    assert!(!circle.hits_line(&Line::new(v(2, 0), v(5, 0))));
    assert!(!circle.hits_line(&Line::new(v(-5, 0), v(-2, 0))));
}

#[test]
fn a_segment_without_length_collides_with_no_circle() {
    let circle = disc(0, 0, 1);
    assert!(!circle.hits_line(&Line::new(v(0, 0), v(0, 0))));
    assert!(!circle.hits_line(&Line::new(v(2, 0), v(2, 0))));
    let inside = Line::new(micro(500_000, 0), micro(500_000, 0));
    assert!(!circle.hits_line(&inside));
    assert_eq!(circle.touches_line(&inside), None);
    assert!(!circle.has_collided(&Body::Line(Line::new(micro(500_000, 0), micro(500_000, 0)))));
    assert!(!Body::Line(Line::new(micro(500_000, 0), micro(500_000, 0))).has_collided(&Body::Circle(disc(0, 0, 1))));
    assert!(circle.hits_line(&Line::new(micro(500_000, 0), micro(500_001, 0))));
}

#[test]
fn contact_of_a_circle_and_a_segment() {
    let circle = Circle::new(s(1), v(10, 10), s(1));
    let wall = Line::new(v(10, -10), v(10, 10));
    assert_eq!(circle.touches_line(&wall), Some((v(-20, 0), v(10, 10))));
    let floor = Line::new(v(-3, 0), v(5, 0));
    let ball = Circle::new(s(1), micro(1_000_000, 500_000), s(1));
    assert_eq!(ball.touches_line(&floor), Some((v(0, 8), v(1, 0))));
    assert_eq!(disc(0, 5, 1).touches_line(&floor), None);
}

#[test]
fn crossing_segments_collide() {
    let first = Line::new(v(-1, 0), v(1, 0));
    assert!(first.hits_line(&Line::new(v(0, -1), v(0, 1))));
    assert!(first.hits_line(&Line::new(v(0, 1), v(0, -1))));
    assert!(!first.hits_line(&Line::new(v(2, -1), v(2, 1))));
    assert!(!first.hits_line(&Line::new(v(0, 1), v(0, 3))));
}

#[test]
fn segments_that_meet_at_an_end_do_not_collide() {
    let first = Line::new(v(-1, 0), v(1, 0));
    assert!(!first.hits_line(&Line::new(v(1, -1), v(1, 1))));
    assert!(!first.hits_line(&Line::new(v(0, 0), v(0, 1))));
    assert!(!first.hits_line(&Line::new(v(1, 0), v(2, 5))));
}

#[test]
fn parallel_segments_never_collide() {
    let first = Line::new(v(0, 0), v(4, 0));
    assert!(!first.hits_line(&Line::new(v(1, 0), v(3, 0))));
    assert!(!first.hits_line(&Line::new(v(0, 0), v(4, 0))));
    assert!(!first.hits_line(&Line::new(v(4, 0), v(0, 0))));
    assert!(!first.hits_line(&Line::new(v(0, 1), v(4, 1))));
    let upright = Line::new(v(0, 0), v(0, 4));
    assert!(!upright.hits_line(&Line::new(v(0, 3), v(0, 1))));
    assert_eq!(first.touches_line(&Line::new(v(1, 0), v(3, 0))), None);
}

#[test]
fn a_segment_without_length_collides_with_no_segment() {
    let point = Line::new(v(0, 0), v(0, 0));
    assert!(!point.hits_line(&Line::new(v(-1, 0), v(1, 0))));
    assert!(!Line::new(v(-1, 0), v(1, 0)).hits_line(&point));
    assert_eq!(point.touches_line(&Line::new(v(-1, 0), v(1, 0))), None);
}

#[test]
fn contact_of_two_segments_is_on_the_one_crossed_nearer_its_middle() {
    let level = Line::new(v(-2, 0), v(2, 0));
    let upright = Line::new(v(1, -1), v(1, 1));
    assert_eq!(level.touches_line(&upright), Some((v(-2, 0), v(1, 0))));
    assert_eq!(upright.touches_line(&level), Some((v(-2, 0), v(1, 0))));
    let through_the_middle = Line::new(v(0, -3), v(0, 1));
    assert_eq!(level.touches_line(&through_the_middle), Some((v(0, 4), v(0, 0))));
    assert_eq!(through_the_middle.touches_line(&level), Some((v(0, 4), v(0, 0))));
}

#[test]
fn contact_of_two_segments_that_are_crossed_alike_is_on_the_second() {
    let level = Line::new(v(-1, 0), v(1, 0));
    let upright = Line::new(v(0, -1), v(0, 1));
    assert_eq!(level.touches_line(&upright), Some((v(-2, 0), v(0, 0))));
    assert_eq!(upright.touches_line(&level), Some((v(0, 2), v(0, 0))));
}

#[test]
fn contact_point_of_segments_rounds_down() {
    let level = Line::new(v(0, 0), v(1, 0));
    let slanted = Line::new(micro(0, -1_000_000), micro(1_000_000, 2_000_000));
    assert_eq!(level.touches_line(&slanted), Some((v(-3, 1), micro(333_333, 0))));
    let long = Line::new(v(0, 0), v(3, 0));
    let steep = Line::new(micro(1_000_000, -1_000_000), micro(1_000_001, 2_000_000));
    assert_eq!(long.touches_line(&steep), Some((v(0, 3), micro(1_000_000, 0))));
}

#[test]
fn leaves_collide_in_either_order() {
    let circle = disc(0, 0, 1);
    let line = Line::new(v(-3, 0), v(3, 0));
    assert!(leaf_hits(Leaf::Circle(&circle), Leaf::Line(&line)));
    assert!(leaf_hits(Leaf::Line(&line), Leaf::Circle(&circle)));
    assert!(leaf_hits(Leaf::Circle(&circle), Leaf::Circle(&disc(1, 0, 1))));
    assert!(!leaf_hits(Leaf::Line(&line), Leaf::Line(&Line::new(v(-3, 1), v(3, 1)))));
    assert_eq!(
        leaf_touches(Leaf::Line(&line), Leaf::Circle(&circle)),
        leaf_touches(Leaf::Circle(&circle), Leaf::Line(&line))
    );
    assert_eq!(leaf_touches(Leaf::Circle(&circle), Leaf::Line(&line)), Some((v(0, 6), v(0, 0))));
}

#[test]
fn a_group_collides_with_what_a_child_collides_with() {
    let group = pair_of_discs(0, 10);
    let near_second = Body::Circle(disc(11, 0, 1));
    let far = Body::Circle(disc(5, 0, 1));
    assert!(group.has_collided(&near_second));
    assert!(!group.has_collided(&far));
    assert!(disc(11, 0, 1).has_collided(&Body::Group(pair_of_discs(0, 10))));
    assert!(!disc(5, 0, 1).has_collided(&Body::Group(pair_of_discs(0, 10))));
    assert!(Line::new(v(10, -5), v(10, 5)).has_collided(&Body::Group(pair_of_discs(0, 10))));
    assert!(any_hits_leaf(&group.objects, Leaf::Circle(&disc(11, 0, 1))));
    assert!(hits_leaf(&Body::Group(pair_of_discs(0, 10)), Leaf::Circle(&disc(11, 0, 1))));
    assert!(!hits_leaf(&Body::Circle(disc(0, 0, 1)), Leaf::Circle(&disc(11, 0, 1))));
}

#[test]
fn an_empty_group_collides_with_nothing() {
    let empty = Body::Group(Group::new());
    assert!(!empty.has_collided(&Body::Circle(disc(0, 0, 5))));
    assert!(!Body::Circle(disc(0, 0, 5)).has_collided(&empty));
    assert!(!empty.has_collided(&Body::Group(pair_of_discs(0, 1))));
    assert_eq!(empty.collision_direction(&Body::Circle(disc(0, 0, 5))), None);
}

#[test]
fn the_contact_of_a_group_is_that_of_its_first_child_that_has_one() {
    let group = pair_of_discs(0, 3);
    let between = disc(1, 0, 2);
    let found = group.collision_direction(&Body::Circle(disc(1, 0, 2)));
    assert_eq!(found, disc(0, 0, 1).touches_circle(&between));
    assert_eq!(found, Some((v(1, 0), micro(333_333, 0))));
    assert_eq!(first_touch_leaf(&group.objects, Leaf::Circle(&between)), found);
    assert_eq!(touches_leaf(&Body::Group(pair_of_discs(0, 3)), Leaf::Circle(&between)), found);
    let only_second = disc(5, 0, 2);
    assert_eq!(
        group.collision_direction(&Body::Circle(disc(5, 0, 2))),
        disc(3, 0, 1).touches_circle(&only_second)
    );
}

#[test]
fn the_contact_of_a_circle_with_a_group_is_seen_from_the_child() {
    let circle = disc(1, 0, 2);
    let found = circle.collision_direction(&Body::Group(pair_of_discs(0, 3)));
    assert_eq!(found, Some((v(1, 0), micro(333_333, 0))));
    assert_eq!(disc(9, 9, 1).collision_direction(&Body::Group(pair_of_discs(0, 3))), None);
    let line = Line::new(v(3, -5), v(3, 5));
    assert_eq!(
        line.collision_direction(&Body::Group(pair_of_discs(0, 3))),
        disc(3, 0, 1).touches_line(&line)
    );
}

#[test]
fn groups_collide_when_a_child_of_one_meets_a_child_of_the_other() {
    let left = pair_of_discs(0, 3);
    let right = pair_of_discs(4, 20);
    let far = pair_of_discs(30, 40);
    assert!(any_pair_hits(&left.objects, &right.objects));
    assert!(!any_pair_hits(&left.objects, &far.objects));
    assert!(left.has_collided(&Body::Group(pair_of_discs(4, 20))));
    assert_eq!(
        first_pair_touch(&left.objects, &right.objects),
        disc(3, 0, 1).touches_circle(&disc(4, 0, 1))
    );
    assert_eq!(
        Body::Group(pair_of_discs(0, 3)).collision_direction(&Body::Group(pair_of_discs(4, 20))),
        Some((v(1, 0), micro(3_500_000, 0)))
    );
    assert_eq!(first_pair_touch(&left.objects, &far.objects), None);
}

#[test]
fn bodies_collide_as_their_shapes_do() {
    let circle = Body::Circle(disc(0, 0, 1));
    let line = Body::Line(Line::new(v(-3, 0), v(3, 0)));
    assert!(circle.has_collided(&line));
    assert!(line.has_collided(&circle));
    assert_eq!(circle.collision_direction(&line), Some((v(0, 6), v(0, 0))));
    assert_eq!(line.collision_direction(&circle), Some((v(0, 6), v(0, 0))));
    let crossing = Body::Line(Line::new(v(1, -1), v(1, 3)));
    assert!(line.has_collided(&crossing));
    assert_eq!(line.collision_direction(&crossing), Some((v(0, 6), v(1, 0))));
}

#[test]
fn moving_both_bodies_alike_does_not_change_whether_they_collide() {
    let shifts = [v(0, 0), v(1000, -2000), v(-77, 13), micro(1, -1), micro(-999_999, 333_333)];
    let mut k = 0;
    while k < shifts.len() {
        let d = shifts[k];
        let mut group = pair_of_discs(0, 3);
        let target = group.get_com().add(&d);
        group.set_com(&target);
        let mut line = Line::new(v(4, -5), v(4, 5));
        let target = line.get_com().add(&d);
        line.set_com(&target);
        let mut touching = disc(5, 0, 1);
        let target = touching.get_com().add(&d);
        touching.set_com(&target);
        assert!(!group.has_collided(&Body::Line(line)), "{:?}", d);
        assert!(!group.has_collided(&Body::Circle(touching)), "{:?}", d);
        let mut crossing = Line::new(v(3, -5), v(3, 5));
        let target = crossing.get_com().add(&d);
        crossing.set_com(&target);
        assert!(group.has_collided(&Body::Line(crossing)), "{:?}", d);
        k += 1;
    }
}

#[test]
fn bodies_collide_whichever_comes_first_and_have_a_contact_exactly_then() {
    let make = |k: usize| -> Body {
        match k {
            0 => Body::Circle(disc(0, 0, 1)),
            1 => Body::Circle(disc(1, 1, 1)),
            2 => Body::Circle(disc(5, 5, 1)),
            3 => Body::Line(Line::new(v(-3, 0), v(3, 0))),
            4 => Body::Line(Line::new(v(1, -4), v(1, 6))),
            5 => Body::Line(Line::new(v(5, 4), v(9, 4))),
            6 => Body::Group(pair_of_discs(0, 3)),
            7 => Body::Group(pair_of_discs(9, 20)),
            _ => Body::Group(Group::new()),
        }
    };
    let mut i = 0;
    while i < 9 {
        let mut j = 0;
        while j < 9 {
            let a = make(i);
            let b = make(j);
            assert_eq!(a.has_collided(&b), b.has_collided(&a), "{} {}", i, j);
            assert_eq!(a.collision_direction(&b).is_some(), a.has_collided(&b), "{} {}", i, j);
            j += 1;
        }
        i += 1;
    }
}
