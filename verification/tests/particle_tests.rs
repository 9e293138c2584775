use confetti::particle::{palette, Particle, SpawnDraws};
use rand::SeedableRng;

fn seeded(seed: u64) -> rand::rngs::StdRng {
    rand::rngs::StdRng::seed_from_u64(seed)
}

/// Draws for a 3-4-5 launch triangle on a 60000 x 100000 screen: from the
/// left edge at (0, 60_000_000) toward (30_000_000, 20_000_000), distance
/// exactly 50_000_000 millipixels.
fn aimed_draws() -> SpawnDraws {
    SpawnDraws {
        from_left: true,
        start_y: 60_000_000,
        target_x: 30_000_000,
        target_y: 20_000_000,
        speed: 1_000_000,
        pop: 250_000,
        width: 10_000,
        height: 15_000,
        rotation: 100,
        rotation_speed: 5_000,
        color_index: 2,
    }
}

#[test]
fn spawn_ranges_hold() {
    for seed in 0..20u64 {
        let mut rng = seeded(seed);
        let p = Particle::new(1920, 1080, &mut rng);
        assert_eq!(p.alpha, 1000);
        assert!(8_000 <= p.width && p.width < 16_000);
        assert!(12_000 <= p.height && p.height < 24_000);
        assert!(0 <= p.rotation && p.rotation < 6283);
        assert!(-10_000 <= p.rotation_speed && p.rotation_speed < 10_000);
        assert!(p.x == 0 || p.x == 1_920_000);
        assert!(324_000 <= p.y && p.y < 756_000);
        let mut in_palette = false;
        for i in 0..8usize {
            if p.color == palette(i) {
                in_palette = true;
            }
        }
        assert!(in_palette);
    }
}

#[test]
fn spawn_uses_both_edges_and_varies() {
    let mut saw_left = false;
    let mut saw_right = false;
    let mut widths = Vec::new();
    for seed in 0..40u64 {
        let mut rng = seeded(seed);
        let p = Particle::new(1920, 1080, &mut rng);
        if p.x == 0 {
            saw_left = true;
        }
        if p.x == 1_920_000 {
            saw_right = true;
        }
        widths.push(p.width);
    }
    assert!(saw_left);
    assert!(saw_right);
    assert!(widths.iter().any(|w| *w != widths[0]));
}

#[test]
fn spawn_is_deterministic_per_seed() {
    let mut rng1 = seeded(42);
    let mut rng2 = seeded(42);
    let p1 = Particle::new(1920, 1080, &mut rng1);
    let p2 = Particle::new(1920, 1080, &mut rng2);
    assert_eq!(p1, p2);
}

#[test]
fn from_draws_zero_distance_falls_back_to_zero_direction() {
    let d = SpawnDraws {
        from_left: true,
        start_y: 40_000,
        target_x: 0,
        target_y: 40_000,
        speed: 1_000_000,
        pop: 300_000,
        width: 10_000,
        height: 15_000,
        rotation: 100,
        rotation_speed: 5_000,
        color_index: 2,
    };
    let p = Particle::from_draws(100, 100, &d);
    assert_eq!(p.x, 0);
    assert_eq!(p.y, 40_000);
    assert_eq!(p.vx, 0);
    assert_eq!(p.vy, -300_000);
    assert_eq!(p.alpha, 1000);
    assert_eq!(p.color, palette(2));
}

#[test]
fn from_draws_aims_at_target() {
    let p = Particle::from_draws(60_000, 100_000, &aimed_draws());
    assert_eq!(p.x, 0);
    assert_eq!(p.y, 60_000_000);
    assert_eq!(p.vx, 600_000);
    assert_eq!(p.vy, -800_000 - 250_000);
    assert_eq!(p.width, 10_000);
    assert_eq!(p.height, 15_000);
    assert_eq!(p.rotation, 100);
    assert_eq!(p.rotation_speed, 5_000);
    assert_eq!(p.color, palette(2));
    assert_eq!(p.alpha, 1000);
}

#[test]
fn update_integrates_one_step_exactly() {
    let mut p = Particle::from_draws(60_000, 100_000, &aimed_draws());
    p.update(16);
    assert_eq!(p.vx, 594_000);
    assert_eq!(p.vy, -1_029_996);
    assert_eq!(p.x, 9_504);
    assert_eq!(p.y, 59_983_521);
    assert_eq!(p.rotation, 180);
    assert_eq!(p.rotation_speed, 5_000);
    assert_eq!(p.alpha, 1000);
}

#[test]
fn update_damping_depends_on_tick_partition() {
    let mut two_steps = Particle::from_draws(60_000, 100_000, &aimed_draws());
    let mut one_step = two_steps;
    two_steps.update(16);
    two_steps.update(16);
    one_step.update(32);
    assert_ne!(two_steps.vx, one_step.vx);
    assert_eq!(two_steps.vx, 588_060);
    assert_eq!(one_step.vx, 594_000);
}
