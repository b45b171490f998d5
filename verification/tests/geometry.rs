use highway_run::geom::{Vec2, AABB};

fn boxed(cx: i64, cy: i64, sx: i64, sy: i64) -> AABB {
    AABB { center: Vec2 { x: cx, y: cy }, size: Vec2 { x: sx, y: sy } }
}

#[test]
fn overlap_apart_is_false() {
    let a = boxed(0, 0, 200, 200);
    let b = boxed(400, 0, 200, 200);
    assert!(!a.overlap(&b));
    assert_eq!(a.displacement(&b), None);
}

#[test]
fn overlap_touching_edges_is_false() {
    // Center distance equal to the half-extent sum: contact but no overlap.
    let a = boxed(0, 0, 200, 200);
    let b = boxed(200, 0, 200, 200);
    assert!(!a.overlap(&b));
    assert_eq!(a.displacement(&b), None);

    let c = boxed(0, 200, 200, 200);
    assert!(!a.overlap(&c));
    assert_eq!(a.displacement(&c), None);
}

#[test]
fn displacement_exact_penetration_vector() {
    // Half-extent sums are 200 on both axes; centers are 150 apart in x and
    // aligned in y, so the per-axis penetration is (50, 200).
    let a = boxed(0, 0, 200, 200);
    let b = boxed(150, 0, 200, 200);
    assert!(a.overlap(&b));
    let d = a.displacement(&b).unwrap();
    assert_eq!(d, Vec2 { x: 50, y: 200 });
}

#[test]
fn displacement_is_order_independent_in_magnitude() {
    let a = boxed(0, 0, 400, 600);
    let b = boxed(120, -80, 200, 200);
    let d1 = a.displacement(&b).unwrap();
    let d2 = b.displacement(&a).unwrap();
    assert_eq!(d1, d2);
    assert_eq!(d1, Vec2 { x: 300 - 120, y: 400 - 80 });
}

#[test]
fn distance_squared_exact() {
    let a = Vec2 { x: 3, y: 4 };
    let o = Vec2 { x: 0, y: 0 };
    assert_eq!(a.distance_squared(&o), 25);
    assert_eq!(a.length_squared(), 25);
}
