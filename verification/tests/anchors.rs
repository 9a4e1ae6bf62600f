use std::collections::HashMap;

use physics2d::anchors::anchor_ids;
use physics2d::anchors::merge_anchors;
use physics2d::anchors::move_anchors;
use physics2d::anchors::rotate_anchors;
use physics2d::dynamics::Motion;
use physics2d::scalar::Scalar;
use physics2d::shapes::Body;
use physics2d::shapes::Circle;
use physics2d::vec2d::Joint;
use physics2d::vec2d::Vec2D;

fn v(x: i64, y: i64) -> Vec2D {
    Vec2D::new(Scalar::from_int(x), Scalar::from_int(y))
}

fn table(entries: &[(usize, Vec2D)]) -> HashMap<usize, Vec2D> {
    let mut anchors = HashMap::new();
    let mut k = 0;
    while k < entries.len() {
        anchors.insert(entries[k].0, entries[k].1);
        k += 1;
    }
    anchors
}

#[test]
fn the_ids_of_a_table_come_each_once() {
    let anchors = table(&[(3, v(0, 0)), (1, v(1, 1)), (7, v(2, 2))]);
    let mut ids = anchor_ids(&anchors);
    ids.sort();
    assert_eq!(ids, vec![1, 3, 7]);
    assert!(anchor_ids(&HashMap::new()).is_empty());
}

#[test]
fn moving_a_table_moves_every_anchor() {
    let mut anchors = table(&[(3, v(0, 0)), (1, v(1, 1)), (7, v(2, -2))]);
    move_anchors(&mut anchors, &v(10, -1));
    assert_eq!(anchors, table(&[(3, v(10, -1)), (1, v(11, 0)), (7, v(12, -3))]));
}

#[test]
fn turning_a_table_turns_every_anchor() {
    let mut anchors = table(&[(3, v(1, 0)), (1, v(2, 2)), (7, v(1, 1))]);
    rotate_anchors(&mut anchors, Scalar::from_raw(1_570_796), &v(1, 1));
    assert_eq!(anchors, table(&[(3, v(2, 1)), (1, v(0, 2)), (7, v(1, 1))]));
}

#[test]
fn merging_tables_prefers_the_second() {
    let mut into = table(&[(1, v(1, 1)), (2, v(2, 2))]);
    let from = table(&[(2, v(20, 20)), (3, v(30, 30))]);
    merge_anchors(&mut into, &from);
    assert_eq!(into, table(&[(1, v(1, 1)), (2, v(20, 20)), (3, v(30, 30))]));
    merge_anchors(&mut into, &HashMap::new());
    assert_eq!(into.len(), 3);
}

#[test]
fn the_motion_of_a_body_can_be_read_and_set() {
    let mut body = Body::Circle(Circle::new(Scalar::from_int(1), v(0, 0), Scalar::from_int(1)));
    let motion = body.get_motion();
    assert_eq!(motion.velocity, v(0, 0));
    assert_eq!(motion.ang_velocity, Scalar::zero());
    assert_eq!(motion.pivot, Joint::new(true, v(0, 0)));
    body.set_motion(Motion {
        velocity: v(1, 2),
        ang_velocity: Scalar::from_int(3),
        pivot: Joint::new(false, v(4, 5)),
    });
    assert_eq!(body.get_velocity(), v(1, 2));
    assert_eq!(body.get_ang_velocity(), Scalar::from_int(3));
    assert_eq!(body.get_pivot(), Joint::new(false, v(4, 5)));
    assert_eq!(body.get_com(), v(0, 0));
    assert_eq!(body.get_mass(), Scalar::from_int(1));
}
