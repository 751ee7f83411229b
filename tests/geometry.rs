use raycast::{distance_squared, Boundary, Point, Ray};

fn ray(px: i16, py: i16, dx: i16, dy: i16) -> Ray {
    Ray::new(Point::new(px, py), Point::new(dx, dy))
}

fn wall(ax: i16, ay: i16, bx: i16, by: i16) -> Boundary {
    Boundary::new(Point::new(ax, ay), Point::new(bx, by))
}

#[test]
fn cast_hits_wall_ahead() {
    let hit = ray(0, 0, 1, 0).cast(&wall(5, -5, 5, 5));
    let hit = hit.expect("the ray crosses the wall");
    assert!(hit.scale > 0);
    assert!(hit.is_at(&Point::new(5, 0)));
}

#[test]
fn cast_misses_wall_behind() {
    assert_eq!(ray(0, 0, 1, 0).cast(&wall(-5, -5, -5, 5)), None);
}

#[test]
fn cast_parallel_is_none() {
    assert_eq!(ray(0, 0, 1, 0).cast(&wall(0, 5, 10, 5)), None);
    assert_eq!(ray(0, 3, 2, 0).cast(&wall(10, 5, 0, 5)), None);
}

#[test]
fn cast_coincident_is_none() {
    assert_eq!(ray(-5, 0, 1, 0).cast(&wall(0, 0, 10, 0)), None);
}

#[test]
fn cast_excludes_endpoints() {
    assert_eq!(ray(0, 0, 1, 0).cast(&wall(5, 0, 5, 10)), None);
    assert_eq!(ray(0, 0, 1, 0).cast(&wall(5, -10, 5, 0)), None);
}

#[test]
fn cast_from_origin_on_wall_is_none() {
    assert_eq!(ray(5, 0, 1, 0).cast(&wall(5, -5, 5, 5)), None);
}

#[test]
fn cast_gives_exact_fraction() {
    let hit = ray(0, 0, 3, 1).cast(&wall(5, -5, 5, 5)).expect("crosses");
    assert!(hit.scale > 0);
    assert_eq!(hit.x, 5 * hit.scale);
    assert_eq!(3 * hit.y, 5 * hit.scale);
    assert!(!hit.is_at(&Point::new(5, 1)));
    assert!(!hit.is_at(&Point::new(5, 2)));
}

#[test]
fn cast_direction_length_does_not_matter() {
    let a = ray(1, 1, 1, 1).cast(&wall(10, 0, 0, 10)).expect("crosses");
    let b = ray(1, 1, 16384, 16384).cast(&wall(10, 0, 0, 10)).expect("crosses");
    assert!(a.is_at(&Point::new(5, 5)));
    assert!(b.is_at(&Point::new(5, 5)));
}

#[test]
fn cast_point_lies_inside_segment() {
    let w = wall(-7, 3, 9, -4);
    let hit = ray(0, -10, 1, 4).cast(&w).expect("crosses");
    let (vx, vy) = ((w.b.x - w.a.x) as i128, (w.b.y - w.a.y) as i128);
    let s = hit.scale as i128;
    let hx = hit.x as i128 - w.a.x as i128 * s;
    let hy = hit.y as i128 - w.a.y as i128 * s;
    assert_eq!(hx * vy, hy * vx);
    let dot = hx * vx + hy * vy;
    assert!(0 < dot && dot < s * (vx * vx + vy * vy));
}

#[test]
fn cast_with_extreme_coordinates() {
    let hit = ray(-32768, 0, 32767, 0).cast(&wall(32767, -32768, 32767, 32767));
    let hit = hit.expect("crosses");
    assert!(hit.is_at(&Point::new(32767, 0)));
}

#[test]
fn cast_is_repeatable() {
    let r = ray(2, 3, 5, -1);
    let w = wall(10, -20, 12, 20);
    assert_eq!(r.cast(&w), r.cast(&w));
}

#[test]
fn distance_is_symmetric() {
    let a = Point::new(3, -4);
    let b = Point::new(-2, 8);
    assert_eq!(distance_squared(&a, &b), distance_squared(&b, &a));
    assert_eq!(distance_squared(&a, &b), 169);
}

#[test]
fn distance_to_self_is_zero() {
    let a = Point::new(-123, 456);
    assert_eq!(distance_squared(&a, &a), 0);
}

#[test]
fn distance_three_four_five() {
    assert_eq!(distance_squared(&Point::new(0, 0), &Point::new(3, 4)), 25);
}

#[test]
fn distance_largest() {
    let a = Point::new(-32768, -32768);
    let b = Point::new(32767, 32767);
    assert_eq!(distance_squared(&a, &b), 2 * 65535u64 * 65535u64);
}
