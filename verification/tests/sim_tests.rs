use confetti::driver::{step, Action, Phase};
use confetti::sim::Simulation;
use rand::SeedableRng;

fn seeded(seed: u64) -> rand::rngs::StdRng {
    rand::rngs::StdRng::seed_from_u64(seed)
}

fn fresh_sim(seed: u64) -> Simulation {
    let mut rng = seeded(seed);
    Simulation::new(1920, 1080, 0, &mut rng)
}

#[test]
fn population_is_fixed_and_opaque() {
    let s = fresh_sim(1);
    assert_eq!(s.particles.len(), 300);
    assert_eq!(s.start_ms, 0);
    assert_eq!(s.last_tick_ms, 0);
    for p in &s.particles {
        assert_eq!(p.alpha, 1000);
    }
}

#[test]
fn update_continues_through_the_lifetime() {
    let mut s = fresh_sim(2);
    assert!(s.update(16));
    assert!(s.update(1000));
    assert!(s.update(3000));
    assert!(s.update(4000));
}

#[test]
fn update_stops_after_the_lifetime_and_freezes_particles() {
    let mut s = fresh_sim(3);
    assert!(s.update(2000));
    let before = s.particles.clone();
    assert!(!s.update(4001));
    assert_eq!(s.last_tick_ms, 4001);
    assert!(!s.update(5000));
    assert_eq!(s.particles, before);
}

#[test]
fn alpha_is_global_and_fades_linearly() {
    let mut s = fresh_sim(4);
    assert!(s.update(2000));
    for p in &s.particles {
        assert_eq!(p.alpha, 1000);
    }
    assert!(s.update(3000));
    for p in &s.particles {
        assert_eq!(p.alpha, 1000);
    }
    assert!(s.update(3001));
    for p in &s.particles {
        assert_eq!(p.alpha, 999);
    }
    assert!(s.update(3500));
    for p in &s.particles {
        assert_eq!(p.alpha, 500);
    }
    assert!(s.update(4000));
    for p in &s.particles {
        assert_eq!(p.alpha, 0);
    }
}

#[test]
fn runs_are_deterministic_for_a_fixed_seed() {
    let mut a = fresh_sim(7);
    let mut b = fresh_sim(7);
    assert_eq!(a.particles, b.particles);
    for now in [16u64, 32, 48, 1000, 3500, 4000, 4200] {
        let ca = a.update(now);
        let cb = b.update(now);
        assert_eq!(ca, cb);
        assert_eq!(a.particles, b.particles);
        assert_eq!(a.last_tick_ms, b.last_tick_ms);
    }
}

#[test]
fn render_lists_every_particle_in_order() {
    let mut s = fresh_sim(8);
    assert!(s.update(3500));
    let rects = s.render();
    assert_eq!(rects.len(), 300);
    for (r, p) in rects.iter().zip(s.particles.iter()) {
        assert_eq!(r.x, p.x);
        assert_eq!(r.y, p.y);
        assert_eq!(r.width, p.width);
        assert_eq!(r.height, p.height);
        assert_eq!(r.rotation, p.rotation);
        assert_eq!(r.color, p.color);
        assert_eq!(r.alpha, 500);
    }
}

#[test]
fn driver_closes_exactly_once_then_idles() {
    let mut s = fresh_sim(9);
    let signals = [
        s.update(16),
        s.update(3500),
        s.update(4100),
        s.update(4200),
        s.update(4300),
    ];
    assert_eq!(signals, [true, true, false, false, false]);

    let mut phase = Phase::Running;
    let mut closes = 0;
    let mut repaints_after_close = 0;
    for cont in signals {
        let (next, action) = step(phase, cont);
        if action == Action::Close {
            closes += 1;
        }
        if closes > 0 && action == Action::Repaint {
            repaints_after_close += 1;
        }
        phase = next;
    }
    assert_eq!(closes, 1);
    assert_eq!(repaints_after_close, 0);
    assert_eq!(phase, Phase::Stopped);
    assert_eq!(step(Phase::Stopped, true), (Phase::Stopped, Action::Idle));
    assert_eq!(step(Phase::Running, true), (Phase::Running, Action::Repaint));
    assert_eq!(step(Phase::Running, false), (Phase::Stopped, Action::Close));
}
