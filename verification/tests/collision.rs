use meltdown::collision::{
    AbsoluteCollider, CircleCollider, Collider, CollidesWith, RectCollider,
};
use meltdown::transform::{Rotation, Transform};
use meltdown::vector::{Vec2u, Vec3i};

fn circle(x: i32, y: i32, radius: u32) -> CircleCollider {
    CircleCollider { position: Vec3i::new(x, y, 0), radius }
}

fn rect(x: i32, y: i32, w: u32, h: u32) -> RectCollider {
    RectCollider { tl: Vec3i::new(x, y, 0), size: Vec2u::new(w, h) }
}

#[test]
fn two_circles_overlapping() {
    let a = AbsoluteCollider::Circle(circle(0, 0, 40));
    let b = AbsoluteCollider::Circle(circle(30, 0, 40));
    assert!(a.collides_with(&b));
    assert!(b.collides_with(&a));
}

#[test]
fn circles_compare_squared_distance_to_sum_of_squared_radii() {
    // 3² + 4² = 25: the centers may be up to 5 apart.
    let a = circle(0, 0, 3);
    assert!(a.collides_with(&circle(5, 0, 4)));
    assert!(a.collides_with(&circle(3, 4, 4)));
    // At a distance of 6 the two discs overlap, as 6 < 3 + 4, yet 36 > 25.
    assert!(!a.collides_with(&circle(6, 0, 4)));
    assert!(!a.collides_with(&circle(4, 4, 4)));
}

#[test]
fn circles_with_zero_radius_touch_only_at_the_same_point() {
    assert!(circle(7, -3, 0).collides_with(&circle(7, -3, 0)));
    assert!(!circle(7, -3, 0).collides_with(&circle(7, -2, 0)));
}

#[test]
fn circle_distance_counts_the_third_axis() {
    let a = CircleCollider { position: Vec3i::new(0, 0, 0), radius: 3 };
    let near = CircleCollider { position: Vec3i::new(0, 0, 5), radius: 4 };
    let far = CircleCollider { position: Vec3i::new(0, 0, 6), radius: 4 };
    assert!(a.collides_with(&near));
    assert!(!a.collides_with(&far));
}

#[test]
fn circles_at_the_ends_of_the_world() {
    let a = CircleCollider { position: Vec3i::new(i32::MIN, i32::MIN, i32::MIN), radius: 0 };
    let b = CircleCollider { position: Vec3i::new(i32::MAX, i32::MAX, i32::MAX), radius: 0 };
    let big = CircleCollider {
        position: Vec3i::new(i32::MAX, i32::MAX, i32::MAX),
        radius: u32::MAX,
    };
    assert!(!a.collides_with(&b));
    assert!(!a.collides_with(&big));
    let huge = CircleCollider {
        position: Vec3i::new(i32::MIN, i32::MIN, i32::MIN),
        radius: u32::MAX,
    };
    // 3 (2³² - 1)² > 2 (2³² - 1)²
    assert!(!huge.collides_with(&big));
    assert!(big.collides_with(&big));
}

#[test]
fn rects_overlap_when_their_spans_meet_on_both_axes() {
    let a = rect(0, 0, 10, 10);
    assert!(a.collides_with(&rect(5, 5, 10, 10)));
    assert!(a.collides_with(&rect(-5, -5, 10, 10)));
    assert!(a.collides_with(&rect(2, 2, 1, 1)));
    // shared edge and shared corner
    assert!(a.collides_with(&rect(10, 0, 10, 10)));
    assert!(a.collides_with(&rect(10, 10, 10, 10)));
    assert!(a.collides_with(&rect(-10, -10, 10, 10)));
    // apart on one axis
    assert!(!a.collides_with(&rect(11, 0, 10, 10)));
    assert!(!a.collides_with(&rect(0, 11, 10, 10)));
    assert!(!a.collides_with(&rect(-11, 0, 10, 10)));
    assert!(!a.collides_with(&rect(0, -11, 10, 10)));
}

#[test]
fn rects_at_the_ends_of_the_world() {
    let a = rect(i32::MAX, i32::MAX, u32::MAX, u32::MAX);
    let b = rect(i32::MIN, i32::MIN, u32::MAX, u32::MAX);
    // b reaches from MIN to MIN + 2³² - 1 = MAX on both axes.
    assert!(a.collides_with(&b));
    assert!(b.collides_with(&a));
    let c = rect(i32::MIN, i32::MIN, u32::MAX - 1, u32::MAX);
    assert!(!a.collides_with(&c));
    assert_eq!(a.br(), (i32::MAX as i64 + u32::MAX as i64, i32::MAX as i64 + u32::MAX as i64));
}

#[test]
fn bottom_right_corner_is_top_left_plus_size() {
    assert_eq!(rect(3, -4, 10, 20).br(), (13, 16));
    assert_eq!(rect(-30, -40, 0, 0).br(), (-30, -40));
}

#[test]
fn circle_meets_rect_by_the_nearest_point() {
    let r = rect(0, 0, 10, 20);
    // center inside
    assert!(circle(5, 5, 0).collides_with(&r));
    assert!(circle(0, 0, 0).collides_with(&r));
    assert!(circle(10, 20, 0).collides_with(&r));
    // beside an edge
    assert!(circle(13, 10, 3).collides_with(&r));
    assert!(!circle(14, 10, 3).collides_with(&r));
    assert!(circle(5, -3, 3).collides_with(&r));
    assert!(!circle(5, -4, 3).collides_with(&r));
    assert!(circle(-3, 10, 3).collides_with(&r));
    assert!(circle(5, 23, 3).collides_with(&r));
    assert!(!circle(5, 24, 3).collides_with(&r));
    // off a corner: (13, 24) is 3 and 4 away from (10, 20)
    assert!(circle(13, 24, 5).collides_with(&r));
    assert!(!circle(13, 24, 4).collides_with(&r));
    assert!(!circle(14, 24, 5).collides_with(&r));
    assert!(circle(-3, -4, 5).collides_with(&r));
    assert!(!circle(-3, -4, 4).collides_with(&r));
}

#[test]
fn circle_meets_rect_of_odd_size() {
    // The middle of the span from 0 to 5 is no whole number.
    let r = rect(0, 0, 5, 5);
    assert!(circle(6, 2, 1).collides_with(&r));
    assert!(!circle(7, 2, 1).collides_with(&r));
    assert!(circle(-1, 2, 1).collides_with(&r));
    assert!(!circle(-2, 2, 1).collides_with(&r));
    assert!(circle(8, 9, 5).collides_with(&r));
    assert!(!circle(8, 10, 5).collides_with(&r));
}

#[test]
fn circle_and_rect_at_the_ends_of_the_world() {
    let r = rect(i32::MIN, i32::MIN, u32::MAX, u32::MAX);
    assert!(circle(i32::MAX, i32::MAX, 0).collides_with(&r));
    let small = rect(i32::MIN, i32::MIN, 0, 0);
    assert!(!circle(i32::MAX, i32::MAX, u32::MAX).collides_with(&small));
    assert!(circle(i32::MAX, i32::MIN, u32::MAX).collides_with(&small));
}

#[test]
fn rect_meets_circle_as_circle_meets_rect() {
    let r = rect(0, 0, 10, 20);
    for c in [circle(13, 24, 5), circle(13, 24, 4), circle(5, 5, 0), circle(14, 10, 3)] {
        assert_eq!(r.collides_with(&c), c.collides_with(&r));
    }
}

#[test]
fn collides_is_symmetric() {
    let shapes = [
        AbsoluteCollider::Circle(circle(0, 0, 40)),
        AbsoluteCollider::Circle(circle(30, 0, 40)),
        AbsoluteCollider::Circle(circle(100, 100, 5)),
        AbsoluteCollider::Circle(circle(-57, 0, 1)),
        AbsoluteCollider::Rect(rect(0, 0, 10, 10)),
        AbsoluteCollider::Rect(rect(35, 35, 10, 10)),
        AbsoluteCollider::Rect(rect(-100, -100, 70, 70)),
        AbsoluteCollider::Rect(rect(96, 96, 1, 1)),
    ];
    let mut hits = 0;
    for a in shapes.iter() {
        for b in shapes.iter() {
            assert_eq!(a.collides_with(b), b.collides_with(a));
            if a.collides_with(b) {
                hits += 1;
            }
        }
    }
    // Both outcomes occur among the pairs.
    assert!(hits > 8);
    assert!(hits < 64);
}

#[test]
fn absolute_colliders_dispatch_on_both_shapes() {
    let c = AbsoluteCollider::Circle(circle(13, 24, 5));
    let r = AbsoluteCollider::Rect(rect(0, 0, 10, 20));
    assert!(c.collides_with(&r));
    assert!(r.collides_with(&c));
    assert!(r.collides_with(&AbsoluteCollider::Rect(rect(10, 20, 1, 1))));
    assert!(!r.collides_with(&AbsoluteCollider::Rect(rect(11, 20, 1, 1))));
    assert!(!c.collides_with(&AbsoluteCollider::Circle(circle(13, 34, 5))));
}

#[test]
fn identity_transform_keeps_the_shape() {
    let id = Transform::identity();
    assert_eq!(id.translation, Vec3i::new(0, 0, 0));
    assert_eq!(id.rotation, Rotation { cos: 1000, sin: 0 });
    assert_eq!(id.scale, Vec2u::new(1000, 1000));
    let c = CircleCollider { position: Vec3i::new(-7, 13, 2), radius: 40 };
    assert_eq!(Collider::Circle(c).absolute(&id), AbsoluteCollider::Circle(c));
    let r = RectCollider { tl: Vec3i::new(-7, 13, 2), size: Vec2u::new(3, 0) };
    assert_eq!(Collider::Rect(r).absolute(&id), AbsoluteCollider::Rect(r));
    let far = CircleCollider {
        position: Vec3i::new(i32::MIN, i32::MAX, i32::MIN),
        radius: u32::MAX,
    };
    assert_eq!(Collider::Circle(far).try_absolute(&id), Some(AbsoluteCollider::Circle(far)));
    let wide = RectCollider {
        tl: Vec3i::new(i32::MAX, i32::MIN, i32::MAX),
        size: Vec2u::new(u32::MAX, u32::MAX),
    };
    assert_eq!(Collider::Rect(wide).try_absolute(&id), Some(AbsoluteCollider::Rect(wide)));
}

#[test]
fn circle_radius_scales_by_the_mean_of_both_axes() {
    let c = Collider::Circle(circle(0, 0, 40));
    let mut t = Transform::at(Vec3i::new(100, 200, 3));
    t.scale = Vec2u::new(500, 500);
    assert_eq!(
        c.absolute(&t),
        AbsoluteCollider::Circle(CircleCollider { position: Vec3i::new(100, 200, 3), radius: 20 })
    );
    t.scale = Vec2u::new(1000, 2000);
    assert_eq!(
        c.absolute(&t),
        AbsoluteCollider::Circle(CircleCollider { position: Vec3i::new(100, 200, 3), radius: 60 })
    );
    // 3 * (1000 + 500) / 2000 = 2.25
    t.scale = Vec2u::new(1000, 500);
    assert_eq!(
        Collider::Circle(circle(0, 0, 3)).absolute(&t),
        AbsoluteCollider::Circle(CircleCollider { position: Vec3i::new(100, 200, 3), radius: 2 })
    );
}

#[test]
fn circle_center_is_rotated_then_scaled_then_moved() {
    let c = Collider::Circle(CircleCollider { position: Vec3i::new(0, -50, 7), radius: 30 });
    let mut t = Transform::at(Vec3i::new(10, 20, 1));
    t.scale = Vec2u::new(100, 100);
    assert_eq!(
        c.absolute(&t),
        AbsoluteCollider::Circle(CircleCollider { position: Vec3i::new(10, 15, 8), radius: 3 })
    );
    // a quarter turn takes (0, -50) to (50, 0)
    t.rotation = Rotation { cos: 0, sin: 1000 };
    assert_eq!(
        c.absolute(&t),
        AbsoluteCollider::Circle(CircleCollider { position: Vec3i::new(15, 20, 8), radius: 3 })
    );
    // scale after rotation: x is stretched, y squeezed
    t.scale = Vec2u::new(2000, 500);
    let p = Collider::Circle(CircleCollider { position: Vec3i::new(10, 20, 0), radius: 4 });
    assert_eq!(
        p.absolute(&t),
        AbsoluteCollider::Circle(CircleCollider { position: Vec3i::new(-30, 25, 1), radius: 5 })
    );
}

#[test]
fn world_coordinates_round_down() {
    let mut t = Transform::at(Vec3i::new(0, 0, 0));
    t.scale = Vec2u::new(500, 500);
    // 0.5 * 3 = 1.5 and 0.5 * -3 = -1.5
    let c = Collider::Circle(CircleCollider { position: Vec3i::new(3, -3, 0), radius: 1 });
    assert_eq!(
        c.absolute(&t),
        AbsoluteCollider::Circle(CircleCollider { position: Vec3i::new(1, -2, 0), radius: 0 })
    );
}

#[test]
fn rect_is_moved_and_scaled_per_axis() {
    let r = Collider::Rect(rect(1, 2, 10, 20));
    let mut t = Transform::at(Vec3i::new(100, -200, 5));
    t.scale = Vec2u::new(500, 2000);
    assert_eq!(
        r.absolute(&t),
        AbsoluteCollider::Rect(RectCollider {
            tl: Vec3i::new(101, -198, 5),
            size: Vec2u::new(5, 40)
        })
    );
    t.scale = Vec2u::new(150, 0);
    assert_eq!(
        r.try_absolute(&t),
        Some(AbsoluteCollider::Rect(RectCollider {
            tl: Vec3i::new(101, -198, 5),
            size: Vec2u::new(1, 0)
        }))
    );
}

#[test]
fn rotated_rect_cannot_be_resolved() {
    let r = Collider::Rect(rect(1, 2, 10, 20));
    let mut t = Transform::identity();
    t.rotation = Rotation { cos: 0, sin: 1000 };
    assert_eq!(r.try_absolute(&t), None);
    t.rotation = Rotation { cos: 999, sin: 0 };
    assert_eq!(r.try_absolute(&t), None);
    assert!(!t.rotation.is_identity());
    assert!(Rotation::identity().is_identity());
    // the same turn is fine for a circle
    t.rotation = Rotation { cos: 0, sin: 1000 };
    assert!(Collider::Circle(circle(1, 2, 3)).try_absolute(&t).is_some());
}

#[test]
fn shape_that_leaves_the_number_range_cannot_be_resolved() {
    let t = Transform::at(Vec3i::new(1, 0, 0));
    let c = Collider::Circle(circle(i32::MAX, 0, 1));
    assert_eq!(c.try_absolute(&t), None);
    let r = Collider::Rect(rect(i32::MAX, 0, 1, 1));
    assert_eq!(r.try_absolute(&t), None);
    let down = Transform::at(Vec3i::new(0, 0, -1));
    let low = Collider::Circle(CircleCollider { position: Vec3i::new(0, 0, i32::MIN), radius: 1 });
    assert_eq!(low.try_absolute(&down), None);
    let mut big = Transform::identity();
    big.scale = Vec2u::new(1001, 1001);
    assert_eq!(Collider::Circle(circle(0, 0, u32::MAX)).try_absolute(&big), None);
    assert_eq!(Collider::Rect(rect(0, 0, u32::MAX, 1)).try_absolute(&big), None);
    assert_eq!(Collider::Rect(rect(0, 0, 1, u32::MAX)).try_absolute(&big), None);
    big.scale = Vec2u::new(u32::MAX, u32::MAX);
    big.rotation = Rotation { cos: i32::MIN, sin: i32::MIN };
    assert_eq!(Collider::Circle(circle(i32::MIN, i32::MAX, 1)).try_absolute(&big), None);
    // one axis at the very end of the range still fits
    let edge = Transform::at(Vec3i::new(1, 0, 0));
    assert_eq!(
        Collider::Circle(circle(i32::MAX - 1, 0, 1)).try_absolute(&edge),
        Some(AbsoluteCollider::Circle(circle(i32::MAX, 0, 1)))
    );
}

#[test]
fn position_is_center_or_top_left() {
    assert_eq!(AbsoluteCollider::Circle(circle(3, 4, 5)).position(), Vec3i::new(3, 4, 0));
    assert_eq!(AbsoluteCollider::Rect(rect(6, 7, 8, 9)).position(), Vec3i::new(6, 7, 0));
}
