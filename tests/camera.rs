use raytracer::camera::{Move, Translation};

fn coords(t: &Translation) -> (i64, i64, i64) {
    (t.x, t.y, t.z)
}

#[test]
fn starts_at_built_pose() {
    assert_eq!(coords(&Translation::zero()), (0, 0, 0));
}

#[test]
fn each_move_is_one_unit_step() {
    let cases = [
        (Move::Left, (-1, 0, 0)),
        (Move::Right, (1, 0, 0)),
        (Move::Up, (0, 1, 0)),
        (Move::Down, (0, -1, 0)),
        (Move::Forward, (0, 0, 1)),
        (Move::Back, (0, 0, -1)),
    ];
    for (m, expected) in cases {
        let mut t = Translation::zero();
        t.move_one(m);
        assert_eq!(coords(&t), expected);
    }
}

#[test]
fn right_then_left_restores() {
    let mut t = Translation { x: 4, y: -3, z: 7 };
    t.move_one(Move::Right);
    t.move_one(Move::Left);
    assert_eq!(t, Translation { x: 4, y: -3, z: 7 });
}

#[test]
fn every_move_then_opposite_restores() {
    let pairs = [
        (Move::Left, Move::Right),
        (Move::Up, Move::Down),
        (Move::Forward, Move::Back),
    ];
    for (a, b) in pairs {
        let mut t = Translation { x: 1, y: 2, z: 3 };
        t.move_one(a);
        t.move_one(b);
        assert_eq!(coords(&t), (1, 2, 3));
        t.move_one(b);
        t.move_one(a);
        assert_eq!(coords(&t), (1, 2, 3));
    }
}

#[test]
fn moves_are_unbounded_until_the_integer_limit() {
    let t = Translation { x: i64::MAX, y: i64::MIN, z: 0 };
    assert!(!t.can_move(Move::Right));
    assert!(t.can_move(Move::Left));
    assert!(!t.can_move(Move::Down));
    assert!(t.can_move(Move::Up));
    assert!(t.can_move(Move::Forward));
    assert!(t.can_move(Move::Back));
}
