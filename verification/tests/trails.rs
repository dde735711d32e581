use particle_engine::body::BodyType;
use particle_engine::trail::Trail;

#[test]
fn trail_keeps_the_last_points() {
    let mut trail: Trail<u32> = Trail::new(3);
    assert_eq!(trail.max_length(), 3);
    for p in 1..=5 {
        trail.update_trail(p);
    }
    assert_eq!(trail.points(), &vec![3, 4, 5]);
}

#[test]
fn trail_grows_up_to_its_limit() {
    let mut trail: Trail<(f32, f32)> = Trail::new(2);
    assert!(trail.points().is_empty());
    trail.update_trail((0.0, 1.0));
    assert_eq!(trail.points().len(), 1);
    trail.update_trail((0.5, 1.5));
    assert_eq!(trail.points(), &vec![(0.0, 1.0), (0.5, 1.5)]);
    trail.update_trail((1.0, 2.0));
    assert_eq!(trail.points(), &vec![(0.5, 1.5), (1.0, 2.0)]);
}

#[test]
fn trail_of_no_length_stays_empty() {
    let mut trail: Trail<u8> = Trail::new(0);
    trail.update_trail(9);
    trail.update_trail(8);
    assert!(trail.points().is_empty());
}

#[test]
fn trail_with_a_shorter_limit_drops_one_point_at_a_time() {
    let mut trail: Trail<u8> = Trail::new(5);
    for p in 0..5 {
        trail.update_trail(p);
    }
    let mut trail = trail.with_trail_length(2);
    assert_eq!(trail.max_length(), 2);
    assert_eq!(trail.points(), &vec![0, 1, 2, 3, 4]);
    trail.update_trail(5);
    assert_eq!(trail.points(), &vec![1, 2, 3, 4, 5]);
}

#[test]
fn body_types_differ() {
    assert_ne!(BodyType::Star, BodyType::Planet);
    assert_eq!(BodyType::BlackHole, BodyType::BlackHole);
}
