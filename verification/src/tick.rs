//! The tick driver: snapshot the flock, then evaluate, steer, normalize and
//! integrate every agent against that fixed snapshot, so that each agent
//! reacts to the same pre-tick frame of the flock.

use vstd::prelude::*;
use crate::boid::Boid;
use crate::config::ArenaBounds;
use crate::config::Config;
use crate::config::FLOCK_CAP;
use crate::estimate::EstimateView;
use crate::estimate::averaged;
use crate::estimate::evaluate_neighborhood;
use crate::estimate::lemma_averaged_bounds;
use crate::estimate::lemma_scan_estimate_wf;
use crate::estimate::neighborhood;
use crate::estimate::set_average_speed_and_pos;
use crate::motion::compute_new_position;
use crate::motion::integrated;
use crate::speed::compute_new_speed;
use crate::speed::normalized;
use crate::steering::aligned;
use crate::steering::apply_alignment;
use crate::steering::apply_avoidance;
use crate::steering::apply_bias;
use crate::steering::apply_cohesion;
use crate::steering::avoided;
use crate::steering::biased;
use crate::steering::cohered;
use crate::steering::turn_if_edge;
use crate::steering::turned;

verus! {

/// Velocity after the three neighborhood-driven rules. With no neighbor in
/// the cohesion band the whole block is skipped: the averaged fields are
/// meaningless then, and even the close offset is not applied.
pub open spec fn steer_boid(b: Boid, e: EstimateView, c: Config) -> Boid {
    if e.neighboring_boids > 0 {
        let avg = averaged(e);
        avoided(aligned(cohered(b, avg, c), avg, c), avg, c)
    } else {
        b
    }
}

/// The full per-agent pipeline of one tick, as a function of the pre-tick
/// snapshot alone: neighborhood summary, steering, edge-turning, role bias,
/// speed normalization, integration.
pub open spec fn step_boid_spec(s: Seq<Boid>, i: int, a: ArenaBounds, c: Config) -> Boid {
    let e = neighborhood(s, i, c);
    integrated(normalized(biased(turned(steer_boid(s[i], e, c), a, c), c), c), a)
}

/// One tick over the whole flock: every agent is mapped through the
/// pipeline against the same snapshot.
pub open spec fn step_flock(s: Seq<Boid>, a: ArenaBounds, c: Config) -> Seq<Boid> {
    Seq::new(s.len(), |i: int| step_boid_spec(s, i, a, c))
}

/// Law: one tick is a pure function of the snapshot, the arena bounds and
/// the constants. Equal inputs give equal resulting flocks; the in-place
/// `step` is tied to `step_flock` by its contract, so two runs of it on
/// copies of one flock end in the same state.
pub proof fn lemma_step_deterministic(
    s1: Seq<Boid>,
    s2: Seq<Boid>,
    a1: ArenaBounds,
    a2: ArenaBounds,
    c1: Config,
    c2: Config,
)
    requires
        s1 == s2,
        a1 == a2,
        c1 == c2,
    ensures
        step_flock(s1, a1, c1) == step_flock(s2, a2, c2),
{
}

/// Law: an agent's role is immutable: no stage of a tick rewrites it, and
/// a tick never adds or removes agents.
pub proof fn lemma_tick_keeps_roles_and_population(s: Seq<Boid>, a: ArenaBounds, c: Config)
    ensures
        step_flock(s, a, c).len() == s.len(),
        forall|i: int| 0 <= i < s.len() ==> #[trigger] step_flock(s, a, c)[i].role == s[i].role,
{
}

/// Compute the post-tick state of the agent in slot `i` from the pre-tick
/// snapshot.
pub fn step_boid(snapshot: &Vec<Boid>, i: usize, bounds: &ArenaBounds, cfg: &Config) -> (b: Boid)
    requires
        cfg.valid(),
        bounds.valid(),
        i < snapshot@.len(),
        snapshot@.len() <= FLOCK_CAP,
        forall|k: int| 0 <= k < snapshot@.len() ==> (#[trigger] snapshot@[k]).valid(),
    ensures
        b == step_boid_spec(snapshot@, i as int, *bounds, *cfg),
        b.valid(),
        -bounds.half_width() <= b.x as int <= bounds.half_width(),
        -bounds.half_height() <= b.y as int <= bounds.half_height(),
{
    let mut estimate = evaluate_neighborhood(snapshot, i, cfg);
    let mut b = snapshot[i];
    if estimate.neighboring_boids > 0 {
        proof {
            lemma_scan_estimate_wf(
                snapshot@[i as int],
                snapshot@,
                i as int,
                snapshot@.len() as int,
                *cfg,
            );
            lemma_averaged_bounds(estimate@);
        }
        set_average_speed_and_pos(&mut estimate);
        apply_cohesion(&mut b, &estimate, cfg);
        apply_alignment(&mut b, &estimate, cfg);
        apply_avoidance(&mut b, &estimate, cfg);
    }
    turn_if_edge(&mut b, bounds, cfg);
    apply_bias(&mut b, cfg);
    compute_new_speed(&mut b, cfg);
    compute_new_position(&mut b, bounds);
    b
}

/// Run one full tick over the flock in place. Every agent's new state is a
/// function of the snapshot taken before any agent moved, so agents late in
/// store order react to the same frame as early ones; afterwards every
/// agent is valid and sits within the arena.
pub fn step(boids: &mut Vec<Boid>, bounds: &ArenaBounds, cfg: &Config)
    requires
        cfg.valid(),
        bounds.valid(),
        old(boids)@.len() <= FLOCK_CAP,
        forall|k: int| 0 <= k < old(boids)@.len() ==> (#[trigger] old(boids)@[k]).valid(),
    ensures
        final(boids)@ == step_flock(old(boids)@, *bounds, *cfg),
        forall|k: int|
            0 <= k < final(boids)@.len() ==> (#[trigger] final(boids)@[k]).valid()
                && -bounds.half_width() <= final(boids)@[k].x as int <= bounds.half_width()
                && -bounds.half_height() <= final(boids)@[k].y as int <= bounds.half_height(),
{
    let n = boids.len();
    let mut snapshot: Vec<Boid> = Vec::new();
    let mut k: usize = 0;
    while k < n
        invariant
            n == boids@.len(),
            k <= n,
            boids@ == old(boids)@,
            snapshot@ == boids@.subrange(0, k as int),
        decreases n - k,
    {
        let b = boids[k];
        snapshot.push(b);
        proof {
            assert(snapshot@ =~= boids@.subrange(0, k as int + 1));
        }
        k += 1;
    }
    proof {
        assert(snapshot@ =~= old(boids)@);
    }
    let mut i: usize = 0;
    while i < n
        invariant
            cfg.valid(),
            bounds.valid(),
            i <= n,
            n == boids@.len(),
            n == snapshot@.len() <= FLOCK_CAP,
            snapshot@ == old(boids)@,
            forall|k: int| 0 <= k < n ==> (#[trigger] snapshot@[k]).valid(),
            forall|k: int|
                0 <= k < i ==> boids@[k] == step_boid_spec(snapshot@, k, *bounds, *cfg) && (
                #[trigger] boids@[k]).valid()
                    && -bounds.half_width() <= boids@[k].x as int <= bounds.half_width()
                    && -bounds.half_height() <= boids@[k].y as int <= bounds.half_height(),
            forall|k: int| i <= k < n ==> boids@[k] == snapshot@[k],
        decreases n - i,
    {
        let nb = step_boid(&snapshot, i, bounds, cfg);
        boids.set(i, nb);
        i += 1;
    }
    proof {
        assert(boids@ =~= step_flock(snapshot@, *bounds, *cfg));
    }
}

/// The scheduling entry point: with arena bounds at hand, run one stepping
/// pass; without them, stay idle and leave the flock untouched. There is no
/// terminal state: the caller invokes this once per frame for the lifetime
/// of the simulation.
pub fn tick(boids: &mut Vec<Boid>, bounds: Option<ArenaBounds>, cfg: &Config)
    requires
        cfg.valid(),
        old(boids)@.len() <= FLOCK_CAP,
        forall|k: int| 0 <= k < old(boids)@.len() ==> (#[trigger] old(boids)@[k]).valid(),
        bounds matches Some(a) ==> a.valid(),
    ensures
        bounds is None ==> final(boids)@ == old(boids)@,
        bounds matches Some(a) ==> final(boids)@ == step_flock(old(boids)@, a, *cfg),
        forall|k: int| 0 <= k < final(boids)@.len() ==> (#[trigger] final(boids)@[k]).valid(),
{
    match bounds {
        None => {},
        Some(a) => {
            step(boids, &a, cfg);
        },
    }
}

} // verus!
