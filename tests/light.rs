use raycast::{sample_angles, Boundary, Particle, Point, Scene, RANDOM_WALLS, RAY_COUNT};

const SCALE: f64 = 16384.0;

fn unit_directions() -> Vec<Point> {
    sample_angles()
        .iter()
        .map(|&tenths| {
            let radians = (tenths as f64 / 10.0).to_radians();
            Point::new((radians.cos() * SCALE).round() as i16, (radians.sin() * SCALE).round() as i16)
        })
        .collect()
}

fn wall(ax: i16, ay: i16, bx: i16, by: i16) -> Boundary {
    Boundary::new(Point::new(ax, ay), Point::new(bx, by))
}

#[test]
fn sample_angles_cover_the_circle() {
    let angles = sample_angles();
    assert_eq!(angles.len(), 3600);
    assert_eq!(RAY_COUNT, 3600);
    assert_eq!(angles[0], 0);
    assert_eq!(angles[1800], 1800);
    assert_eq!(angles[3599], 3599);
}

#[test]
fn set_rays_makes_one_ray_per_angle() {
    let mut light = Particle::new(Point::new(100, 200));
    light.set_rays(&unit_directions());
    assert_eq!(light.rays.len(), 3600);
    assert_eq!(light.rays[0].direction, Point::new(16384, 0));
    assert_eq!(light.rays[1800].direction, Point::new(-16384, 0));
    assert!(light.rays.iter().all(|r| r.position == Point::new(100, 200)));
}

#[test]
fn set_rays_replaces_earlier_rays() {
    let mut light = Particle::new(Point::new(0, 0));
    light.set_rays(&unit_directions());
    light.set_rays(&unit_directions());
    assert_eq!(light.rays.len(), 3600);
}

#[test]
fn cast_keeps_nearest_wall() {
    let mut light = Particle::new(Point::new(0, 0));
    light.set_rays(&vec![Point::new(1, 0)]);
    let walls = vec![wall(10, -5, 10, 5), wall(4, -5, 4, 5), wall(7, -5, 7, 5)];
    let hits = light.cast(&walls);
    assert_eq!(hits.len(), 1);
    assert!(hits[0].expect("hit").is_at(&Point::new(4, 0)));
}

#[test]
fn cast_ties_keep_first_wall() {
    let mut light = Particle::new(Point::new(0, 0));
    light.set_rays(&vec![Point::new(1, 0)]);
    let first = wall(4, -5, 4, 5);
    let second = wall(4, 5, 4, -6);
    let hits = light.cast(&vec![first, second]);
    let expected = light.rays[0].cast(&first);
    assert_eq!(hits[0], expected);
    assert_ne!(hits[0], light.rays[0].cast(&second));
}

#[test]
fn cast_rays_without_hit_get_none() {
    let mut light = Particle::new(Point::new(0, 0));
    light.set_rays(&vec![Point::new(1, 0), Point::new(-1, 0), Point::new(0, 1)]);
    let hits = light.cast(&vec![wall(5, -5, 5, 5)]);
    assert_eq!(hits.len(), 3);
    assert!(hits[0].expect("hit").is_at(&Point::new(5, 0)));
    assert_eq!(hits[1], None);
    assert_eq!(hits[2], None);
}

#[test]
fn cast_with_no_walls() {
    let mut light = Particle::new(Point::new(3, 3));
    light.set_rays(&unit_directions());
    let hits = light.cast(&vec![]);
    assert_eq!(hits.len(), 3600);
    assert!(hits.iter().all(|h| h.is_none()));
}

#[test]
fn cast_twice_gives_same_hits() {
    let mut scene = Scene::new();
    scene.regenerate(800, 600);
    let mut light = Particle::new(Point::new(400, 300));
    light.set_rays(&unit_directions());
    let first = light.cast(&scene.walls);
    let second = light.cast(&scene.walls);
    assert_eq!(first, second);
}

#[test]
fn light_inside_borders_hits_every_ray() {
    let mut scene = Scene::new();
    scene.regenerate(800, 600);
    let mut light = Particle::new(Point::new(400, 300));
    let hits = light.update(&unit_directions(), &scene.walls);
    assert_eq!(hits.len(), 3600);
    assert!(hits.iter().all(|h| h.is_some()));
}

#[test]
fn regenerate_places_borders_and_random_walls() {
    let mut scene = Scene::new();
    assert!(scene.walls.is_empty());
    scene.regenerate(1800, 1200);
    assert_eq!(scene.walls.len(), 4 + RANDOM_WALLS);
    assert_eq!(RANDOM_WALLS, 5);
    assert_eq!(scene.walls[0], wall(0, 0, 0, 1200));
    assert_eq!(scene.walls[1], wall(0, 0, 1800, 0));
    assert_eq!(scene.walls[2], wall(0, 1200, 1800, 1200));
    assert_eq!(scene.walls[3], wall(1800, 0, 1800, 1200));
    for w in &scene.walls[4..] {
        for p in [w.a, w.b] {
            assert!(0 <= p.x && p.x <= 1800 && 0 <= p.y && p.y <= 1200);
        }
    }
}

#[test]
fn regenerate_clears_earlier_walls() {
    let mut scene = Scene::new();
    scene.regenerate(100, 100);
    scene.regenerate(50, 30);
    assert_eq!(scene.walls.len(), 9);
    assert_eq!(scene.walls[3], wall(50, 0, 50, 30));
}

#[test]
fn regenerate_empty_viewport() {
    let mut scene = Scene::new();
    scene.regenerate(0, 0);
    assert_eq!(scene.walls.len(), 9);
    assert!(scene.walls.iter().all(|w| w.a == Point::new(0, 0) && w.b == Point::new(0, 0)));
}

#[test]
fn regenerate_draws_varied_endpoints() {
    let mut scene = Scene::new();
    let mut seen_inner = false;
    for _ in 0..20 {
        scene.regenerate(1000, 1000);
        for w in &scene.walls[4..] {
            if w.a.x != 0 || w.a.y != 0 || w.b.x != 0 || w.b.y != 0 {
                seen_inner = true;
            }
        }
    }
    assert!(seen_inner);
}

#[test]
fn frame_keeps_walls_without_trigger() {
    let mut scene = Scene::new();
    scene.regenerate(300, 300);
    let before = scene.walls.clone();
    let (light, hits) = scene.frame(false, 999, 999, Point::new(10, 10), &unit_directions());
    assert_eq!(scene.walls, before);
    assert_eq!(light.position, Point::new(10, 10));
    assert_eq!(hits.len(), 3600);
}

#[test]
fn frame_regenerates_on_trigger() {
    let mut scene = Scene::new();
    let (_, hits) = scene.frame(true, 640, 480, Point::new(320, 240), &unit_directions());
    assert_eq!(scene.walls.len(), 9);
    assert_eq!(scene.walls[3], wall(640, 0, 640, 480));
    assert!(hits.iter().all(|h| h.is_some()));
}

#[test]
fn frame_with_empty_scene_hits_nothing() {
    let mut scene = Scene::new();
    let (_, hits) = scene.frame(false, 640, 480, Point::new(1, 1), &unit_directions());
    assert!(hits.iter().all(|h| h.is_none()));
}

