use soccer_game::obstacle::{
    default_obstacles, expand_obstacles, spin_obstacles, Obstacle, ObstacleVariant, SCALE_ONE, TURN,
};

const SECOND: u64 = 1_000_000;

fn expander(horizontal: bool) -> Obstacle {
    Obstacle::new(ObstacleVariant::Expanding {
        speed: 500,
        max_scale: 2 * SCALE_ONE,
        min_scale: SCALE_ONE,
        expanding: true,
        horizontal,
    })
}

fn is_expanding(o: &Obstacle) -> bool {
    match o.variant {
        ObstacleVariant::Expanding { expanding, .. } => expanding,
        _ => panic!("not an expanding obstacle"),
    }
}

#[test]
fn clockwise_spinner_turns_forward() {
    let mut o = Obstacle::new(ObstacleVariant::Spinning { clockwise: true });
    o.spin(250_000);
    assert_eq!(o.rotation, 250_000);
    o.spin(SECOND);
    assert_eq!(o.rotation, 250_000);
    o.spin(900_000);
    assert_eq!(o.rotation, 150_000);
}

#[test]
fn counter_clockwise_spinner_turns_back() {
    let mut o = Obstacle::new(ObstacleVariant::Spinning { clockwise: false });
    o.spin(250_000);
    assert_eq!(o.rotation, 750_000);
    o.spin(3 * SECOND + 500_000);
    assert_eq!(o.rotation, 250_000);
}

#[test]
fn spin_over_frames_matches_total_time() {
    let mut o = Obstacle::new(ObstacleVariant::Spinning { clockwise: true });
    let frames = [16_667u64, 16_667, 33_333, 700_000, 1_250_000];
    let total: u64 = frames.iter().sum();
    for dt in frames {
        o.tick(dt);
    }
    assert_eq!(o.rotation, total % TURN);
}

#[test]
fn static_obstacle_never_moves() {
    let mut o = Obstacle::default();
    o.tick(5 * SECOND);
    assert_eq!(o, Obstacle::new(ObstacleVariant::Static));
}

#[test]
fn spin_leaves_expanders_alone() {
    let mut o = expander(true);
    o.spin(SECOND);
    assert_eq!(o, expander(true));
}

#[test]
fn expander_grows_half_a_scale_per_second() {
    let mut o = expander(true);
    o.expand(SECOND);
    assert_eq!(o.scale_x, 1_500_000_000);
    assert_eq!(o.scale_y, SCALE_ONE);
    assert!(is_expanding(&o));
    o.expand(SECOND / 2);
    assert_eq!(o.scale_x, 1_750_000_000);
}

#[test]
fn expander_turns_round_at_its_bounds() {
    let mut o = expander(false);
    o.expand(2 * SECOND);
    assert_eq!(o.scale_y, 2 * SCALE_ONE);
    assert!(!is_expanding(&o));
    o.expand(SECOND);
    assert_eq!(o.scale_y, 1_500_000_000);
    assert!(!is_expanding(&o));
    o.expand(SECOND);
    assert_eq!(o.scale_y, SCALE_ONE);
    assert!(is_expanding(&o));
    assert_eq!(o, expander(false));
}

#[test]
fn expander_overshoots_by_at_most_one_tick() {
    let mut o = expander(true);
    o.expand(3 * SECOND);
    assert_eq!(o.scale_x, 2_500_000_000);
    assert!(!is_expanding(&o));
    o.expand(SECOND);
    assert_eq!(o.scale_x, 2 * SCALE_ONE);
}

#[test]
fn expander_is_a_triangle_wave_with_period_four_seconds() {
    let mut o = expander(true);
    let tick = SECOND / 10;
    let mut scales = Vec::new();
    for _ in 0..80 {
        o.tick(tick);
        scales.push(o.scale_x);
    }
    for (n, s) in scales.iter().enumerate() {
        let k = ((n + 1) % 40) as i64;
        let tri = if k <= 20 { k } else { 40 - k };
        assert_eq!(*s, SCALE_ONE + tri * 50_000_000);
    }
    assert_eq!(o, expander(true));
}

#[test]
fn whole_arena_obstacles_move_each_frame() {
    let mut obstacles = default_obstacles();
    assert_eq!(obstacles.len(), 6);
    spin_obstacles(&mut obstacles, 100_000);
    expand_obstacles(&mut obstacles, 100_000);
    assert_eq!(obstacles[0], Obstacle::new(ObstacleVariant::Static));
    assert_eq!(obstacles[1], Obstacle::new(ObstacleVariant::Static));
    assert_eq!(obstacles[2].rotation, 100_000);
    assert_eq!(obstacles[3].rotation, 900_000);
    assert_eq!(obstacles[4].scale_x, 1_050_000_000);
    assert_eq!(obstacles[4].scale_y, SCALE_ONE);
    assert_eq!(obstacles[5].scale_x, SCALE_ONE);
    assert_eq!(obstacles[5].scale_y, 1_050_000_000);
}
