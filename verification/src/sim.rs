//! The simulation: a fixed population of particles, elapsed-time
//! bookkeeping, the per-tick update, and the render pass.

use vstd::prelude::*;

use crate::particle::{lemma_step_preserves_wf, lemma_stepped_deterministic, lemma_wf_monotone,
    screen_ok, spawn_ranges, spawned_from_draws, stepped, update_safe, Particle, Rgb};
use crate::{DURATION_MS, FADE_START_MS, PARTICLE_COUNT};

verus! {

/// The one opacity shared by every particle at a given elapsed time
/// (milliseconds): full until a second before the end, then linearly down
/// to zero at the end of the animation.
pub open spec fn global_alpha(elapsed: int) -> int {
    if elapsed <= FADE_START_MS {
        1000
    } else if elapsed <= DURATION_MS {
        4000 - elapsed
    } else {
        0
    }
}

/// Elapsed time as far as the particles have been integrated: mutation
/// stops when the animation lifetime is exceeded.
pub open spec fn elapsed_cap(e: int) -> int {
    if e > DURATION_MS {
        4000int
    } else {
        e
    }
}

/// One animation run: the particle population and the two timestamps the
/// tick bookkeeping needs, all in milliseconds of one monotonic clock.
pub struct Simulation {
    pub particles: Vec<Particle>,
    pub start_ms: u64,
    pub last_tick_ms: u64,
}

/// Exactly one tick of the simulation from `pre` to `post` at clock reading
/// `now`: the tick timestamp always advances; particles take one
/// integration step at the shared fade opacity while the lifetime is not
/// exceeded, and are left untouched after it; `cont` says whether the
/// animation goes on.
pub open spec fn update_rel(pre: Simulation, post: Simulation, now: int, cont: bool) -> bool {
    &&& post.start_ms == pre.start_ms
    &&& post.last_tick_ms == now
    &&& cont == (now - pre.start_ms <= DURATION_MS)
    &&& post.particles@.len() == pre.particles@.len()
    &&& if cont {
        forall|i: int|
            0 <= i < pre.particles@.len() ==> stepped(
                pre.particles@[i],
                #[trigger] post.particles@[i],
                now - pre.last_tick_ms,
                global_alpha(now - pre.start_ms),
            )
    } else {
        post.particles@ == pre.particles@
    }
}

impl Simulation {
    /// The population has its fixed size, the clock readings are ordered,
    /// and every particle is inside the bounds for the time it has been
    /// integrated over.
    pub open spec fn wf(self) -> bool {
        &&& self.particles@.len() == PARTICLE_COUNT
        &&& self.start_ms <= self.last_tick_ms
        &&& forall|i: int|
            0 <= i < self.particles@.len() ==> (#[trigger] self.particles@[i]).wf(
                elapsed_cap(self.last_tick_ms - self.start_ms),
            )
    }

    /// Build the population for a `screen_w` by `screen_h` pixel screen at
    /// clock reading `now_ms`.
    pub fn new(screen_w: u32, screen_h: u32, now_ms: u64, rng: &mut rand::rngs::StdRng) -> (s:
        Simulation)
        requires
            screen_ok(screen_w as int, screen_h as int),
        ensures
            s.wf(),
            s.start_ms == now_ms,
            s.last_tick_ms == now_ms,
            forall|i: int|
                0 <= i < s.particles@.len() ==> spawn_ranges(
                    #[trigger] s.particles@[i],
                    screen_w as int,
                    screen_h as int,
                ),
            forall|i: int|
                0 <= i < s.particles@.len() ==> spawned_from_draws(
                    #[trigger] s.particles@[i],
                    screen_w as int,
                    screen_h as int,
                ),
    {
        let mut particles: Vec<Particle> = Vec::new();
        while particles.len() < PARTICLE_COUNT
            invariant
                screen_ok(screen_w as int, screen_h as int),
                particles@.len() <= PARTICLE_COUNT,
                forall|j: int|
                    0 <= j < particles@.len() ==> spawn_ranges(
                        #[trigger] particles@[j],
                        screen_w as int,
                        screen_h as int,
                    ),
                forall|j: int|
                    0 <= j < particles@.len() ==> spawned_from_draws(
                        #[trigger] particles@[j],
                        screen_w as int,
                        screen_h as int,
                    ),
                forall|j: int| 0 <= j < particles@.len() ==> (#[trigger] particles@[j]).wf(0),
            decreases PARTICLE_COUNT - particles@.len(),
        {
            let p = Particle::new(screen_w, screen_h, rng);
            particles.push(p);
        }
        Simulation { particles, start_ms: now_ms, last_tick_ms: now_ms }
    }

    /// One timer tick at clock reading `now_ms`.  Returns whether the
    /// animation should continue: true exactly while the elapsed time is
    /// within the animation lifetime.  While it continues, every particle
    /// takes one integration step over the measured delta and is set to the
    /// shared fade opacity; after the lifetime, nothing but the tick
    /// timestamp changes.
    pub fn update(&mut self, now_ms: u64) -> (cont: bool)
        requires
            old(self).wf(),
            old(self).last_tick_ms <= now_ms,
        ensures
            final(self).wf(),
            update_rel(*old(self), *final(self), now_ms as int, cont),
            cont == (now_ms - old(self).start_ms <= DURATION_MS),
            cont ==> forall|i: int|
                0 <= i < final(self).particles@.len()
                    ==> (#[trigger] final(self).particles@[i]).alpha
                    == global_alpha(now_ms - old(self).start_ms),
    {
        let dt_ms = now_ms - self.last_tick_ms;
        self.last_tick_ms = now_ms;
        let elapsed = now_ms - self.start_ms;
        if elapsed > DURATION_MS {
            proof {
                assert forall|i: int| 0 <= i < self.particles@.len() implies (#[trigger] self
                    .particles@[i]).wf(elapsed_cap(now_ms - self.start_ms)) by {
                    lemma_wf_monotone(
                        self.particles@[i],
                        elapsed_cap(old(self).last_tick_ms - old(self).start_ms),
                        4000,
                    );
                }
            }
            return false;
        }
        let alpha: u16 = if elapsed > FADE_START_MS {
            (DURATION_MS - elapsed) as u16
        } else {
            1000
        };
        let n = self.particles.len();
        let mut i: usize = 0;
        while i < n
            invariant
                i <= n,
                n == self.particles@.len(),
                n == old(self).particles@.len(),
                old(self).wf(),
                self.start_ms == old(self).start_ms,
                self.last_tick_ms == now_ms,
                old(self).last_tick_ms <= now_ms,
                now_ms - old(self).start_ms <= DURATION_MS,
                dt_ms == now_ms - old(self).last_tick_ms,
                alpha as int == global_alpha(now_ms - old(self).start_ms),
                forall|j: int|
                    0 <= j < i ==> stepped(
                        old(self).particles@[j],
                        #[trigger] self.particles@[j],
                        dt_ms as int,
                        alpha as int,
                    ),
                forall|j: int|
                    0 <= j < i ==> (#[trigger] self.particles@[j]).wf(
                        now_ms - old(self).start_ms,
                    ),
                forall|j: int|
                    i <= j < n ==> #[trigger] self.particles@[j] == old(self).particles@[j],
            decreases n - i,
        {
            let mut p = self.particles[i];
            proof {
                assert(p == old(self).particles@[i as int]);
                assert(p.wf(elapsed_cap(old(self).last_tick_ms - old(self).start_ms)));
                assert(update_safe(p, dt_ms as int));
            }
            p.update(dt_ms);
            p.alpha = alpha;
            proof {
                lemma_step_preserves_wf(
                    old(self).particles@[i as int],
                    p,
                    dt_ms as int,
                    old(self).last_tick_ms - old(self).start_ms,
                    alpha as int,
                );
            }
            self.particles.set(i, p);
            i += 1;
        }
        true
    }

    /// The render pass: one drawing command per particle, in population
    /// order (back to front).  The caller clears the surface and paints
    /// each rectangle.
    pub fn render(&self) -> (rects: Vec<DrawRect>)
        ensures
            rects@.len() == self.particles@.len(),
            forall|i: int|
                0 <= i < rects@.len() ==> #[trigger] rects@[i] == rect_of(self.particles@[i]),
    {
        let mut rects: Vec<DrawRect> = Vec::new();
        let n = self.particles.len();
        let mut i: usize = 0;
        while i < n
            invariant
                i <= n,
                n == self.particles@.len(),
                rects@.len() == i,
                forall|j: int|
                    0 <= j < i ==> #[trigger] rects@[j] == rect_of(self.particles@[j]),
            decreases n - i,
        {
            let p = self.particles[i];
            rects.push(
                DrawRect {
                    x: p.x,
                    y: p.y,
                    width: p.width,
                    height: p.height,
                    rotation: p.rotation,
                    color: p.color,
                    alpha: p.alpha,
                },
            );
            i += 1;
        }
        rects
    }
}

/// One drawing command: a filled rectangle of the given size, centred at
/// `(x, y)` millipixels, rotated by `rotation` milliradians, in the given
/// colour at the given opacity (both in thousandths).
#[verifier::ext_equal]
#[derive(Clone, Copy, PartialEq, Eq, Structural, Debug)]
pub struct DrawRect {
    pub x: i64,
    pub y: i64,
    pub width: i64,
    pub height: i64,
    pub rotation: i64,
    pub color: Rgb,
    pub alpha: u16,
}

/// The drawing command a particle maps to.
pub open spec fn rect_of(p: Particle) -> DrawRect {
    DrawRect {
        x: p.x,
        y: p.y,
        width: p.width,
        height: p.height,
        rotation: p.rotation,
        color: p.color,
        alpha: p.alpha,
    }
}

/// Two simulations in the same state.
pub open spec fn sim_eq(a: Simulation, b: Simulation) -> bool {
    &&& a.start_ms == b.start_ms
    &&& a.last_tick_ms == b.last_tick_ms
    &&& a.particles@ == b.particles@
}

/// The shared fade opacity is full for the first three seconds, then falls
/// linearly — one thousandth per millisecond — to exactly zero at the end
/// of the animation, and never leaves `[0, 1000]`.
pub proof fn lemma_global_alpha_fade(e1: int, e2: int)
    ensures
        e1 <= 3000 ==> global_alpha(e1) == 1000,
        3000 <= e1 <= 4000 ==> global_alpha(e1) == 4000 - e1,
        global_alpha(4000) == 0,
        3000 <= e1 <= e2 <= 4000 ==> global_alpha(e1) - global_alpha(e2) == e2 - e1,
        0 <= global_alpha(e1) <= 1000,
{
}

/// One tick is deterministic: from equal states, a tick at the same clock
/// reading yields equal states and the same continue signal.
pub proof fn lemma_update_deterministic(
    pre1: Simulation,
    post1: Simulation,
    pre2: Simulation,
    post2: Simulation,
    now: int,
    c1: bool,
    c2: bool,
)
    requires
        update_rel(pre1, post1, now, c1),
        update_rel(pre2, post2, now, c2),
        sim_eq(pre1, pre2),
    ensures
        c1 == c2,
        sim_eq(post1, post2),
{
    if c1 {
        assert forall|i: int|
            0 <= i < post1.particles@.len() implies #[trigger] post1.particles@[i]
            == post2.particles@[i] by {
            lemma_stepped_deterministic(
                pre1.particles@[i],
                post1.particles@[i],
                post2.particles@[i],
                now - pre1.last_tick_ms,
                global_alpha(now - pre1.start_ms),
            );
        }
        assert(post1.particles@ =~= post2.particles@);
    }
}

/// A run: `states[0]` is the initial simulation, and the tick at clock
/// reading `nows[i]` takes `states[i]` to `states[i + 1]`, reporting
/// `conts[i]`.
pub open spec fn is_run(states: Seq<Simulation>, nows: Seq<int>, conts: Seq<bool>) -> bool {
    &&& states.len() == nows.len() + 1
    &&& conts.len() == nows.len()
    &&& forall|i: int|
        0 <= i < nows.len() ==> update_rel(#[trigger] states[i], states[i + 1], nows[i], conts[i])
}

proof fn lemma_run_det_upto(
    s1: Seq<Simulation>,
    s2: Seq<Simulation>,
    nows: Seq<int>,
    c1: Seq<bool>,
    c2: Seq<bool>,
    k: int,
)
    requires
        is_run(s1, nows, c1),
        is_run(s2, nows, c2),
        sim_eq(s1[0], s2[0]),
        0 <= k < s1.len(),
    ensures
        sim_eq(s1[k], s2[k]),
    decreases k,
{
    if k > 0 {
        lemma_run_det_upto(s1, s2, nows, c1, c2, k - 1);
        lemma_update_deterministic(
            s1[k - 1],
            s1[k],
            s2[k - 1],
            s2[k],
            nows[k - 1],
            c1[k - 1],
            c2[k - 1],
        );
    }
}

/// Determinism of whole runs: two runs from the same initial state, ticked
/// at the same clock readings, go through the same states — the same
/// particle trajectories — and report the same continue signals.
pub proof fn lemma_run_deterministic(
    s1: Seq<Simulation>,
    s2: Seq<Simulation>,
    nows: Seq<int>,
    c1: Seq<bool>,
    c2: Seq<bool>,
)
    requires
        is_run(s1, nows, c1),
        is_run(s2, nows, c2),
        sim_eq(s1[0], s2[0]),
    ensures
        forall|k: int| 0 <= k < s1.len() ==> sim_eq(#[trigger] s1[k], s2[k]),
        c1 == c2,
{
    assert forall|k: int| 0 <= k < s1.len() implies sim_eq(#[trigger] s1[k], s2[k]) by {
        lemma_run_det_upto(s1, s2, nows, c1, c2, k);
    }
    assert forall|i: int| 0 <= i < c1.len() implies c1[i] == c2[i] by {
        lemma_update_deterministic(
            s1[i],
            s1[i + 1],
            s2[i],
            s2[i + 1],
            nows[i],
            c1[i],
            c2[i],
        );
    }
    assert(c1 =~= c2);
}

proof fn lemma_run_start_constant(
    states: Seq<Simulation>,
    nows: Seq<int>,
    conts: Seq<bool>,
    k: int,
)
    requires
        is_run(states, nows, conts),
        0 <= k < states.len(),
    ensures
        states[k].start_ms == states[0].start_ms,
    decreases k,
{
    if k > 0 {
        lemma_run_start_constant(states, nows, conts, k - 1);
        assert(update_rel(states[k - 1], states[k], nows[k - 1], conts[k - 1]));
    }
}

/// Under a monotonic clock, the continue signal is true exactly while the
/// elapsed time is within the lifetime; in particular, once a tick reports
/// stop, every tick at the same or a later clock reading reports stop.
pub proof fn lemma_stop_is_permanent(
    states: Seq<Simulation>,
    nows: Seq<int>,
    conts: Seq<bool>,
    i: int,
    j: int,
)
    requires
        is_run(states, nows, conts),
        0 <= i <= j < conts.len(),
        nows[i] <= nows[j],
        !conts[i],
    ensures
        !conts[j],
{
    lemma_run_start_constant(states, nows, conts, i);
    lemma_run_start_constant(states, nows, conts, j);
    assert(update_rel(states[i], states[i + 1], nows[i], conts[i]));
    assert(update_rel(states[j], states[j + 1], nows[j], conts[j]));
}

} // verus!

