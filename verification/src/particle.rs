//! One confetti particle: fixed-point kinematic state, randomized spawning,
//! and the per-tick integration step.
//!
//! Positions and sizes are in millipixels, velocities in millipixels per
//! second, angles in milliradians, angular speed in milliradians per second,
//! colour channels and opacity in thousandths, and time deltas in
//! milliseconds.

use vstd::prelude::*;

use crate::num::{div_t, div_trunc, isqrt, isqrt_spec, lemma_div_t_bound, lemma_isqrt_dominates,
    lemma_mul_bound};

verus! {

/// One colour, channels in thousandths of full intensity.
#[derive(Clone, Copy, PartialEq, Eq, Structural, Debug)]
pub struct Rgb {
    pub red: u16,
    pub green: u16,
    pub blue: u16,
}

/// The fixed eight-entry palette particles are coloured from.
pub open spec fn palette_at(i: int) -> Rgb {
    if i == 0 {
        Rgb { red: 1000, green: 200, blue: 300 }
    } else if i == 1 {
        Rgb { red: 1000, green: 500, blue: 0 }
    } else if i == 2 {
        Rgb { red: 1000, green: 900, blue: 0 }
    } else if i == 3 {
        Rgb { red: 200, green: 800, blue: 200 }
    } else if i == 4 {
        Rgb { red: 200, green: 600, blue: 1000 }
    } else if i == 5 {
        Rgb { red: 600, green: 200, blue: 800 }
    } else if i == 6 {
        Rgb { red: 1000, green: 400, blue: 700 }
    } else {
        Rgb { red: 0, green: 900, blue: 900 }
    }
}

/// Whether a colour is one of the eight palette entries.
pub open spec fn is_palette_color(c: Rgb) -> bool {
    exists|i: int| 0 <= i < 8 && c == #[trigger] palette_at(i)
}

/// The palette entry at `i`.
pub fn palette(i: usize) -> (c: Rgb)
    requires
        i < 8,
    ensures
        c == palette_at(i as int),
{
    if i == 0 {
        Rgb { red: 1000, green: 200, blue: 300 }
    } else if i == 1 {
        Rgb { red: 1000, green: 500, blue: 0 }
    } else if i == 2 {
        Rgb { red: 1000, green: 900, blue: 0 }
    } else if i == 3 {
        Rgb { red: 200, green: 800, blue: 200 }
    } else if i == 4 {
        Rgb { red: 200, green: 600, blue: 1000 }
    } else if i == 5 {
        Rgb { red: 600, green: 200, blue: 800 }
    } else if i == 6 {
        Rgb { red: 1000, green: 400, blue: 700 }
    } else {
        Rgb { red: 0, green: 900, blue: 900 }
    }
}

/// Screen dimensions the simulation accepts: positive, and small enough in
/// pixels that every fixed-point intermediate fits a machine word.
pub open spec fn screen_ok(w: int, h: int) -> bool {
    &&& 0 < w <= 100_000
    &&& 0 < h <= 100_000
}

/// The raw uniform draws that determine one spawned particle.  Ranges are
/// recorded by `wf`; sampling them from the generator is `sample`.
#[derive(Clone, Copy, PartialEq, Eq, Structural, Debug)]
pub struct SpawnDraws {
    /// Launch from the left edge (otherwise the right edge).
    pub from_left: bool,
    /// Starting height, in `[0.3 h, 0.7 h)` millipixels.
    pub start_y: i64,
    /// Convergence target abscissa: mid-screen plus up to 200 px either way.
    pub target_x: i64,
    /// Convergence target ordinate, in `[0.2 h, 0.5 h)` millipixels.
    pub target_y: i64,
    /// Launch speed, in `[800, 1500)` pixels per second.
    pub speed: i64,
    /// Extra upward kick, in `[200, 500)` pixels per second.
    pub pop: i64,
    /// Rectangle width, in `[8, 16)` pixels.
    pub width: i64,
    /// Rectangle height, in `[12, 24)` pixels.
    pub height: i64,
    /// Initial rotation, in `[0, 2 pi)` milliradians.
    pub rotation: i64,
    /// Rotation speed, in `[-10, 10)` radians per second.
    pub rotation_speed: i64,
    /// Palette index.
    pub color_index: usize,
}

impl SpawnDraws {
    /// The ranges each draw is sampled from, for a `w` by `h` pixel screen.
    pub open spec fn wf(self, w: int, h: int) -> bool {
        &&& 300 * h <= self.start_y < 700 * h
        &&& 500 * w - 200_000 <= self.target_x < 500 * w + 200_000
        &&& 200 * h <= self.target_y < 500 * h
        &&& 800_000 <= self.speed < 1_500_000
        &&& 200_000 <= self.pop < 500_000
        &&& 8_000 <= self.width < 16_000
        &&& 12_000 <= self.height < 24_000
        &&& 0 <= self.rotation < 6283
        &&& -10_000 <= self.rotation_speed < 10_000
        &&& self.color_index < 8
    }

    /// Draw one particle's worth of uniform values from the generator.
    pub fn sample(rng: &mut rand::rngs::StdRng, screen_w: u32, screen_h: u32) -> (d: SpawnDraws)
        requires
            screen_ok(screen_w as int, screen_h as int),
        ensures
            d.wf(screen_w as int, screen_h as int),
    {
        let w = screen_w as i64;
        let h = screen_h as i64;
        let side = crate::rng::gen_range_i64(rng, 0, 2);
        let start_y = crate::rng::gen_range_i64(rng, 300 * h, 700 * h);
        let target_x = crate::rng::gen_range_i64(rng, 500 * w - 200_000, 500 * w + 200_000);
        let target_y = crate::rng::gen_range_i64(rng, 200 * h, 500 * h);
        let speed = crate::rng::gen_range_i64(rng, 800_000, 1_500_000);
        let pop = crate::rng::gen_range_i64(rng, 200_000, 500_000);
        let width = crate::rng::gen_range_i64(rng, 8_000, 16_000);
        let height = crate::rng::gen_range_i64(rng, 12_000, 24_000);
        let rotation = crate::rng::gen_range_i64(rng, 0, 6283);
        let rotation_speed = crate::rng::gen_range_i64(rng, -10_000, 10_000);
        let color_index = crate::rng::gen_range_i64(rng, 0, 8) as usize;
        SpawnDraws {
            from_left: side == 0,
            start_y,
            target_x,
            target_y,
            speed,
            pop,
            width,
            height,
            rotation,
            rotation_speed,
            color_index,
        }
    }
}

/// One confetti rectangle.
#[verifier::ext_equal]
#[derive(Clone, Copy, PartialEq, Eq, Structural, Debug)]
pub struct Particle {
    pub x: i64,
    pub y: i64,
    pub vx: i64,
    pub vy: i64,
    pub width: i64,
    pub height: i64,
    pub rotation: i64,
    pub rotation_speed: i64,
    pub color: Rgb,
    pub alpha: u16,
}

/// Where a particle spawns: the chosen screen edge at the drawn height.
pub open spec fn spawn_x(w: int, d: SpawnDraws) -> int {
    if d.from_left {
        0
    } else {
        1000 * w
    }
}

/// Exactly the particle that the draws `d` determine on a `w` by `h` pixel
/// screen: edge spawn point, velocity aimed at the convergence target at the
/// drawn speed (zero direction when the target coincides with the spawn
/// point), minus the upward kick.
pub open spec fn spawned(w: int, h: int, d: SpawnDraws, p: Particle) -> bool {
    let sx = spawn_x(w, d);
    let dx = d.target_x - sx;
    let dy = d.target_y - d.start_y;
    let dist = isqrt_spec(dx * dx + dy * dy);
    &&& p.x == sx
    &&& p.y == d.start_y
    &&& p.vx == if dist == 0 {
        0int
    } else {
        div_t(d.speed * dx, dist)
    }
    &&& p.vy == (if dist == 0 {
        0int
    } else {
        div_t(d.speed * dy, dist)
    }) - d.pop
    &&& p.width == d.width
    &&& p.height == d.height
    &&& p.rotation == d.rotation
    &&& p.rotation_speed == d.rotation_speed
    &&& p.color == palette_at(d.color_index as int)
    &&& p.alpha == 1000
}

/// The particle is exactly the one that some well-formed set of draws
/// determines; randomness picks the draws and nothing else.
pub open spec fn spawned_from_draws(p: Particle, w: int, h: int) -> bool {
    exists|d: SpawnDraws| (#[trigger] d.wf(w, h)) && spawned(w, h, d, p)
}

/// What holds of every freshly spawned particle: full opacity, sizes,
/// rotation and rotation speed inside their sampling ranges, a palette
/// colour, and a spawn position on the left or right screen edge.
pub open spec fn spawn_ranges(p: Particle, w: int, h: int) -> bool {
    &&& p.alpha == 1000
    &&& 8_000 <= p.width < 16_000
    &&& 12_000 <= p.height < 24_000
    &&& 0 <= p.rotation < 6283
    &&& -10_000 <= p.rotation_speed < 10_000
    &&& is_palette_color(p.color)
    &&& p.x == 0 || p.x == 1000 * w
    &&& 300 * h <= p.y < 700 * h
}

/// Exactly one integration step of `dt` milliseconds from `p` to `q`,
/// ending at opacity `alpha`: gravity of 600 px/s^2 on the vertical
/// velocity, then a one-percent drag (a factor of 99/100) on both velocity
/// components applied once per step, then position and rotation advanced by
/// the new velocities.
pub open spec fn stepped(p: Particle, q: Particle, dt: int, alpha: int) -> bool {
    let vy1 = p.vy + 600 * dt;
    let vx2 = div_t(p.vx * 99, 100);
    let vy2 = div_t(vy1 * 99, 100);
    &&& q.vx == vx2
    &&& q.vy == vy2
    &&& q.x == p.x + div_t(vx2 * dt, 1000)
    &&& q.y == p.y + div_t(vy2 * dt, 1000)
    &&& q.rotation == p.rotation + div_t(p.rotation_speed * dt, 1000)
    &&& q.rotation_speed == p.rotation_speed
    &&& q.width == p.width
    &&& q.height == p.height
    &&& q.color == p.color
    &&& q.alpha == alpha
}

/// An integration step that leaves the opacity where it was.
pub open spec fn physics_stepped(p: Particle, q: Particle, dt: int) -> bool {
    stepped(p, q, dt, p.alpha as int)
}

/// Conditions under which one integration step stays inside machine bounds.
pub open spec fn update_safe(p: Particle, dt: int) -> bool {
    &&& 0 <= dt <= 1_000_000
    &&& -1_000_000_000 <= p.vx <= 1_000_000_000
    &&& -1_000_000_000 <= p.vy <= 1_000_000_000
    &&& -1_000_000_000_000 <= p.x <= 1_000_000_000_000
    &&& -1_000_000_000_000 <= p.y <= 1_000_000_000_000
    &&& -1_000_000_000_000 <= p.rotation <= 1_000_000_000_000
    &&& -1_000_000_000 <= p.rotation_speed <= 1_000_000_000
}

/// The step relation pins every field of the stepped particle, so two steps
/// from the same state over the same delta agree.
pub proof fn lemma_stepped_deterministic(p: Particle, q1: Particle, q2: Particle, dt: int, alpha: int)
    requires
        stepped(p, q1, dt, alpha),
        stepped(p, q2, dt, alpha),
    ensures
        q1 == q2,
{
    assert(q1 =~= q2);
}

/// The spawn relation pins every field, so the draws and the screen size
/// determine the particle: spawning is deterministic once the random draws
/// are fixed.
pub proof fn lemma_spawned_deterministic(w: int, h: int, d: SpawnDraws, p1: Particle, p2: Particle)
    requires
        spawned(w, h, d, p1),
        spawned(w, h, d, p2),
    ensures
        p1 == p2,
{
    assert(p1 =~= p2);
}

/// The `wf` bounds only widen as the integrated time grows.
pub proof fn lemma_wf_monotone(p: Particle, e1: int, e2: int)
    requires
        p.wf(e1),
        0 <= e1 <= e2,
    ensures
        p.wf(e2),
{
}

/// One step from a state that has been integrated over `elapsed`
/// milliseconds lands back inside the `wf` bounds, as long as the animation
/// lifetime is not exceeded.
pub proof fn lemma_step_preserves_wf(p: Particle, q: Particle, dt: int, elapsed: int, alpha: int)
    requires
        p.wf(elapsed),
        stepped(p, q, dt, alpha),
        0 <= dt,
        0 <= elapsed,
        elapsed + dt <= 4000,
        0 <= alpha <= 1000,
    ensures
        q.wf(elapsed + dt),
{
    let vy1 = p.vy + 600 * dt;
    let vx2 = div_t(p.vx * 99, 100);
    let vy2 = div_t(vy1 * 99, 100);
    lemma_div_t_bound(p.vx * 99, 100, 1_500_000);
    lemma_div_t_bound(vy1 * 99, 100, 2_000_000 + 600 * (elapsed + dt));
    lemma_mul_bound(vx2, 1_500_000, dt, dt);
    lemma_div_t_bound(vx2 * dt, 1000, 1500 * dt);
    lemma_mul_bound(vy2, 4_400_000, dt, dt);
    lemma_div_t_bound(vy2 * dt, 1000, 4400 * dt);
    lemma_mul_bound(p.rotation_speed as int, 10_000, dt, dt);
    lemma_div_t_bound(p.rotation_speed * dt, 1000, 10 * dt);
}

impl Particle {
    /// Advance the particle by `dt_ms` milliseconds: gravity, then one
    /// application of drag on both velocity components, then position and
    /// rotation integration.  Drag lands once per call whatever `dt_ms` is,
    /// so how a time span is split into ticks changes the trajectory.
    pub fn update(&mut self, dt_ms: u64)
        requires
            update_safe(*old(self), dt_ms as int),
        ensures
            physics_stepped(*old(self), *final(self), dt_ms as int),
    {
        let dt = dt_ms as i64;
        let vy1: i64 = self.vy + 600 * dt;
        proof {
            lemma_div_t_bound(self.vx as int * 99, 100, 990_000_000);
            lemma_div_t_bound(vy1 as int * 99, 100, 1_600_000_000);
        }
        let vx2: i64 = div_trunc(self.vx * 99, 100);
        let vy2: i64 = div_trunc(vy1 * 99, 100);
        proof {
            lemma_mul_bound(vx2 as int, 990_000_000, dt as int, 1_000_000);
            lemma_div_t_bound(vx2 as int * dt as int, 1000, 990_000_000_000);
            lemma_mul_bound(vy2 as int, 1_600_000_000, dt as int, 1_000_000);
            lemma_div_t_bound(vy2 as int * dt as int, 1000, 1_600_000_000_000);
            lemma_mul_bound(self.rotation_speed as int, 1_000_000_000, dt as int, 1_000_000);
            lemma_div_t_bound(self.rotation_speed as int * dt as int, 1000, 1_000_000_000_000);
        }
        self.x = self.x + div_trunc(vx2 * dt, 1000);
        self.y = self.y + div_trunc(vy2 * dt, 1000);
        self.rotation = self.rotation + div_trunc(self.rotation_speed * dt, 1000);
        self.vx = vx2;
        self.vy = vy2;
    }

    /// Bounds on a particle's state after it has been integrated over a
    /// total of `elapsed` milliseconds since spawning; they keep every
    /// intermediate of the next step inside a machine word.
    pub open spec fn wf(self, elapsed: int) -> bool {
        &&& -1_500_000 <= self.vx <= 1_500_000
        &&& -(2_000_000 + 600 * elapsed) <= self.vy <= 2_000_000 + 600 * elapsed
        &&& -(100_000_000 + 1500 * elapsed) <= self.x <= 100_000_000 + 1500 * elapsed
        &&& -(70_000_000 + 4400 * elapsed) <= self.y <= 70_000_000 + 4400 * elapsed
        &&& -(6283 + 10 * elapsed) <= self.rotation <= 6283 + 10 * elapsed
        &&& -10_000 <= self.rotation_speed <= 10_000
        &&& 8_000 <= self.width < 16_000
        &&& 12_000 <= self.height < 24_000
        &&& is_palette_color(self.color)
        &&& self.alpha <= 1000
    }

    /// Spawn one particle from freshly drawn uniform values.
    pub fn new(screen_w: u32, screen_h: u32, rng: &mut rand::rngs::StdRng) -> (p: Particle)
        requires
            screen_ok(screen_w as int, screen_h as int),
        ensures
            spawn_ranges(p, screen_w as int, screen_h as int),
            spawned_from_draws(p, screen_w as int, screen_h as int),
            p.wf(0),
    {
        let d = SpawnDraws::sample(rng, screen_w, screen_h);
        let p = Particle::from_draws(screen_w, screen_h, &d);
        proof {
            assert(d.wf(screen_w as int, screen_h as int));
        }
        p
    }

    /// Build the particle that the draws `d` determine.
    pub fn from_draws(screen_w: u32, screen_h: u32, d: &SpawnDraws) -> (p: Particle)
        requires
            screen_ok(screen_w as int, screen_h as int),
            d.wf(screen_w as int, screen_h as int),
        ensures
            spawned(screen_w as int, screen_h as int, *d, p),
            spawn_ranges(p, screen_w as int, screen_h as int),
            p.wf(0),
    {
        let w = screen_w as i64;
        let sx: i64 = if d.from_left {
            0
        } else {
            1000 * w
        };
        let dx: i64 = d.target_x - sx;
        let dy: i64 = d.target_y - d.start_y;
        assert(-50_200_000 <= dx <= 50_200_000);
        assert(-50_000_000 <= dy <= 50_000_000);
        assert(0 <= dx * dx <= 50_200_000 * 50_200_000) by (nonlinear_arith)
            requires
                -50_200_000 <= dx <= 50_200_000,
        ;
        assert(0 <= dy * dy <= 50_000_000 * 50_000_000) by (nonlinear_arith)
            requires
                -50_000_000 <= dy <= 50_000_000,
        ;
        let dd: i64 = dx * dx + dy * dy;
        let dist_u: u64 = isqrt(dd as u64);
        assert(dist_u <= 71_000_000) by (nonlinear_arith)
            requires
                dist_u * dist_u <= 5_020_040_000_000_000,
        ;
        let dist: i64 = dist_u as i64;
        let vx: i64;
        let vy0: i64;
        if dist == 0 {
            vx = 0;
            vy0 = 0;
        } else {
            proof {
                let ddi = dd as int;
                if dx >= 0 {
                    lemma_isqrt_dominates(dx as int, ddi);
                } else {
                    assert((-dx) * (-dx) == dx * dx) by (nonlinear_arith);
                    lemma_isqrt_dominates(-(dx as int), ddi);
                }
                if dy >= 0 {
                    lemma_isqrt_dominates(dy as int, ddi);
                } else {
                    assert((-dy) * (-dy) == dy * dy) by (nonlinear_arith);
                    lemma_isqrt_dominates(-(dy as int), ddi);
                }
                lemma_mul_bound(dx as int, dist as int, d.speed as int, 1_500_000);
                lemma_mul_bound(dy as int, dist as int, d.speed as int, 1_500_000);
                assert(d.speed * dx == dx * d.speed) by (nonlinear_arith);
                assert(d.speed * dy == dy * d.speed) by (nonlinear_arith);
                lemma_mul_bound(dx as int, dist as int, d.speed as int, d.speed as int);
                lemma_mul_bound(dy as int, dist as int, d.speed as int, d.speed as int);
                lemma_div_t_bound(d.speed as int * dx as int, dist as int, d.speed as int);
                lemma_div_t_bound(d.speed as int * dy as int, dist as int, d.speed as int);
            }
            vx = div_trunc(d.speed * dx, dist);
            vy0 = div_trunc(d.speed * dy, dist);
        }
        let vy: i64 = vy0 - d.pop;
        let color = palette(d.color_index);
        proof {
            assert(is_palette_color(color)) by {
                assert((d.color_index as int) < 8 && color == palette_at(d.color_index as int));
            }
        }
        Particle {
            x: sx,
            y: d.start_y,
            vx,
            vy,
            width: d.width,
            height: d.height,
            rotation: d.rotation,
            rotation_speed: d.rotation_speed,
            color,
            alpha: 1000,
        }
    }
}

} // verus!
