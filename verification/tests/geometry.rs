use cerise::util::{Parent, Pos, Size, Transform};

#[test]
fn compose_adds_componentwise() {
    let t = Transform(3, 4).compose(Transform(10, -2));
    assert_eq!(t, Transform(13, 2));
}

#[test]
fn compose_is_commutative() {
    let a = Transform(7, -9);
    let b = Transform(-40, 11);
    assert_eq!(a.compose(b), b.compose(a));
}

#[test]
fn compose_is_associative() {
    let a = Transform(1, 2);
    let b = Transform(30, -40);
    let c = Transform(-500, 600);
    assert_eq!(a.compose(b).compose(c), a.compose(b.compose(c)));
}

#[test]
fn compose_with_identity_is_noop() {
    let t = Transform(-12, 99);
    assert_eq!(t.compose(Transform(0, 0)), t);
    assert_eq!(Transform(0, 0).compose(t), t);
}

#[test]
fn compose_then_apply_equals_sequential_application() {
    let a = Transform(10, 10);
    let b = Transform(-3, 5);
    let p = Pos(50, 50);
    assert_eq!(a.compose(b).apply(p), a.apply(b.apply(p)));
}

#[test]
fn apply_translates_position() {
    assert_eq!(Transform(10, 10).apply(Pos(50, 50)), Pos(60, 60));
    assert_eq!(Transform(-60, -60).apply(Pos(50, 50)), Pos(-10, -10));
}

#[test]
fn compose_wraps_like_twos_complement() {
    let t = Transform(i32::MAX, i32::MIN).compose(Transform(1, -1));
    assert_eq!(t, Transform(i32::MIN, i32::MAX));
}

#[test]
fn defaults_are_origin_and_identity() {
    assert_eq!(Pos::default(), Pos(0, 0));
    assert_eq!(Size::default(), Size(0, 0));
    assert_eq!(Transform::default(), Transform(0, 0));
}

#[test]
fn parent_link_holds_entity_and_offset() {
    let link = Parent { entity: 7, transform: Transform(10, 10) };
    assert_eq!(link.entity, 7);
    assert_eq!(link.transform, Transform(10, 10));
}
