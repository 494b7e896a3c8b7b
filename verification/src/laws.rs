//! Engine-level laws: properties of a whole step, proved from the behavior
//! semantics of `particle` and the step semantics of `engine`.

use vstd::prelude::*;

use crate::engine::{
    fold_interactions_prefix, fold_rules, fold_rules_prefix, interact_prefix, spec_step,
};
use crate::particle::{
    dist2, near, spec_apply_interaction, spec_apply_rule, unit_component, Interaction,
    ParticleView, Rule,
};

verus! {

/// The fields no built-in behavior ever writes: identity, footprint,
/// appearance, the alive flag, and the attached behavior lists.
pub open spec fn same_identity(a: ParticleView, b: ParticleView) -> bool {
    &&& a.id == b.id
    &&& a.size == b.size
    &&& a.color == b.color
    &&& a.alive == b.alive
    &&& a.rules == b.rules
    &&& a.forces == b.forces
    &&& a.interactions == b.interactions
}

/// No two particles of the generation share an id.
pub open spec fn unique_ids(g: Seq<ParticleView>) -> bool {
    forall|a: int, b: int| 0 <= a < b < g.len() ==> g[a].id != g[b].id
}

proof fn lemma_apply_rule_identity(r: Rule, p: ParticleView)
    ensures
        same_identity(spec_apply_rule(r, p), p),
{
}

proof fn lemma_apply_interaction_identity(k: Interaction, p: ParticleView, q: ParticleView)
    ensures
        same_identity(spec_apply_interaction(k, p, q), p),
{
}

proof fn lemma_fold_rules_prefix_identity(p: ParticleView, rs: Seq<Rule>, n: int)
    ensures
        same_identity(fold_rules_prefix(p, rs, n), p),
    decreases n,
{
    if n > 0 {
        lemma_fold_rules_prefix_identity(p, rs, n - 1);
        lemma_apply_rule_identity(rs[n - 1], fold_rules_prefix(p, rs, n - 1));
    }
}

proof fn lemma_fold_interactions_prefix_identity(
    p: ParticleView,
    q: ParticleView,
    ks: Seq<Interaction>,
    n: int,
)
    ensures
        same_identity(fold_interactions_prefix(p, q, ks, n), p),
    decreases n,
{
    if n > 0 {
        lemma_fold_interactions_prefix_identity(p, q, ks, n - 1);
        lemma_apply_interaction_identity(ks[n - 1], fold_interactions_prefix(p, q, ks, n - 1), q);
    }
}

proof fn lemma_interact_prefix_identity(g: Seq<ParticleView>, i: int, n: int)
    ensures
        same_identity(interact_prefix(g, i, n), g[i]),
    decreases n,
{
    if n > 0 {
        lemma_interact_prefix_identity(g, i, n - 1);
        if n - 1 != i {
            lemma_fold_interactions_prefix_identity(
                interact_prefix(g, i, n - 1),
                g[n - 1],
                g[i].interactions,
                g[i].interactions.len() as int,
            );
        }
    }
}

/// A step never changes a particle's identity, footprint, color, alive
/// flag, or attached behavior lists.
pub proof fn lemma_step_preserves_identity(g: Seq<ParticleView>, i: int)
    requires
        0 <= i < g.len(),
    ensures
        same_identity(spec_step(g)[i], g[i]),
{
    lemma_interact_prefix_identity(g, i, g.len() as int);
    let after_ints = interact_prefix(g, i, g.len() as int);
    lemma_fold_rules_prefix_identity(after_ints, g[i].rules, g[i].rules.len() as int);
    let after_rules = fold_rules(after_ints, g[i].rules);
    lemma_fold_rules_prefix_identity(after_rules, g[i].forces, g[i].forces.len() as int);
}

/// Ids are unique in every generation reached by stepping: a step keeps
/// each particle's id, so it keeps the generation's ids pairwise distinct.
pub proof fn lemma_step_preserves_unique_ids(g: Seq<ParticleView>)
    requires
        unique_ids(g),
    ensures
        unique_ids(spec_step(g)),
        spec_step(g).len() == g.len(),
{
    let h = spec_step(g);
    assert forall|a: int, b: int| 0 <= a < b < h.len() implies h[a].id != h[b].id by {
        lemma_step_preserves_identity(g, a);
        lemma_step_preserves_identity(g, b);
    };
}

proof fn lemma_interact_prefix_no_interactions(g: Seq<ParticleView>, i: int, n: int)
    requires
        g[i].interactions.len() == 0,
    ensures
        interact_prefix(g, i, n) == g[i],
    decreases n,
{
    if n > 0 {
        lemma_interact_prefix_no_interactions(g, i, n - 1);
    }
}

/// A particle with no attached behaviors is left unchanged by a step.
pub proof fn lemma_step_no_behaviors(g: Seq<ParticleView>, i: int)
    requires
        0 <= i < g.len(),
        g[i].rules.len() == 0,
        g[i].forces.len() == 0,
        g[i].interactions.len() == 0,
    ensures
        spec_step(g)[i] == g[i],
{
    lemma_interact_prefix_no_interactions(g, i, g.len() as int);
}

/// A particle whose single attached behavior is one rule steps exactly by
/// one application of that rule.
pub proof fn lemma_step_single_rule(g: Seq<ParticleView>, i: int, r: Rule)
    requires
        0 <= i < g.len(),
        g[i].rules =~= seq![r],
        g[i].forces.len() == 0,
        g[i].interactions.len() == 0,
    ensures
        spec_step(g)[i] == spec_apply_rule(r, g[i]),
{
    lemma_interact_prefix_no_interactions(g, i, g.len() as int);
    assert(fold_rules_prefix(g[i], g[i].rules, 0) == g[i]);
    assert(fold_rules_prefix(g[i], g[i].rules, 1) == spec_apply_rule(r, g[i]));
    assert(fold_rules(g[i], g[i].rules) == spec_apply_rule(r, g[i]));
}

/// After a step of a particle whose single behavior is the move rule, the
/// position is the previous position plus the previous velocity, and the
/// velocity is unchanged. The sums must fit the coordinate range.
pub proof fn lemma_step_move(g: Seq<ParticleView>, i: int)
    requires
        0 <= i < g.len(),
        g[i].rules =~= seq![Rule::Move],
        g[i].forces.len() == 0,
        g[i].interactions.len() == 0,
        i64::MIN <= g[i].x + g[i].vx <= i64::MAX,
        i64::MIN <= g[i].y + g[i].vy <= i64::MAX,
    ensures
        spec_step(g)[i].x == g[i].x + g[i].vx,
        spec_step(g)[i].y == g[i].y + g[i].vy,
        spec_step(g)[i].vx == g[i].vx,
        spec_step(g)[i].vy == g[i].vy,
{
    lemma_step_single_rule(g, i, Rule::Move);
}

/// After a step of a particle whose single behavior is gravity, the
/// vertical velocity has grown by exactly the configured constant and the
/// horizontal velocity is unchanged. The sum must fit the velocity range.
pub proof fn lemma_step_gravity(g: Seq<ParticleView>, i: int, accel: i64)
    requires
        0 <= i < g.len(),
        g[i].rules =~= seq![Rule::Gravity { accel }],
        g[i].forces.len() == 0,
        g[i].interactions.len() == 0,
        i64::MIN <= g[i].vy + accel <= i64::MAX,
    ensures
        spec_step(g)[i].vy == g[i].vy + accel,
        spec_step(g)[i].vx == g[i].vx,
        spec_step(g)[i].x == g[i].x,
        spec_step(g)[i].y == g[i].y,
{
    lemma_step_single_rule(g, i, Rule::Gravity { accel });
}

/// Bounce reflects a velocity component exactly when the particle's
/// footprint crosses the wall of the centered box, and leaves the other
/// state alone. The velocities must be strictly above the minimum, where
/// exact negation has no representation.
pub proof fn lemma_bounce(p: ParticleView, bound: u64)
    requires
        i64::MIN < p.vx <= i64::MAX,
        i64::MIN < p.vy <= i64::MAX,
    ensures
        ({
            let q = spec_apply_rule(Rule::Bounce { bound }, p);
            let hb = (bound as int) / 2;
            let half = p.size / 2;
            &&& q.vx == if p.x + half > hb || p.x - half < -hb {
                -p.vx
            } else {
                p.vx
            }
            &&& q.vy == if p.y + half > hb || p.y - half < -hb {
                -p.vy
            } else {
                p.vy
            }
            &&& q.x == p.x
            &&& q.y == p.y
            &&& q.chasing == p.chasing
            &&& same_identity(q, p)
        }),
{
}

/// Same-color particles never interact: both pairwise behaviors are exact
/// no-ops on them, whatever the distance.
pub proof fn lemma_same_color_no_op(k: Interaction, p: ParticleView, q: ParticleView)
    requires
        p.color == q.color,
    ensures
        spec_apply_interaction(k, p, q) == p,
{
}

/// Move-closer latches: on a differently-colored pair strictly within the
/// chase threshold (and strictly apart), a particle that is not yet
/// chasing starts chasing, with its velocity set to the fixed-point unit
/// vector toward the other particle. Everything else is unchanged.
pub proof fn lemma_move_closer_latches(p: ParticleView, q: ParticleView)
    requires
        p.color != q.color,
        !p.chasing,
        near(p, q),
    ensures
        ({
            let r = spec_apply_interaction(Interaction::MoveCloser, p, q);
            &&& r.chasing
            &&& r.vx == unit_component(q.x - p.x, dist2(p, q))
            &&& r.vy == unit_component(q.y - p.y, dist2(p, q))
            &&& r.x == p.x
            &&& r.y == p.y
            &&& same_identity(r, p)
        }),
{
}

/// The latch holds: once a particle is chasing, move-closer never changes
/// it again, so its velocity stays fixed at the latching moment's
/// direction.
pub proof fn lemma_move_closer_latched(p: ParticleView, q: ParticleView)
    requires
        p.chasing,
    ensures
        spec_apply_interaction(Interaction::MoveCloser, p, q) == p,
{
}

/// Avoid steers away: on a differently-colored pair strictly within the
/// chase threshold (and strictly apart), the velocity becomes the negated
/// fixed-point unit vector toward the other particle — recomputed from the
/// positions at every application, with no latch. Everything else is
/// unchanged.
pub proof fn lemma_avoid(p: ParticleView, q: ParticleView)
    requires
        p.color != q.color,
        near(p, q),
    ensures
        ({
            let r = spec_apply_interaction(Interaction::Avoid, p, q);
            &&& r.vx == -unit_component(q.x - p.x, dist2(p, q))
            &&& r.vy == -unit_component(q.y - p.y, dist2(p, q))
            &&& r.chasing == p.chasing
            &&& r.x == p.x
            &&& r.y == p.y
            &&& same_identity(r, p)
        }),
{
}

/// Out of range, or exactly coinciding, no pairwise behavior acts.
pub proof fn lemma_not_near_no_op(k: Interaction, p: ParticleView, q: ParticleView)
    requires
        !near(p, q),
    ensures
        spec_apply_interaction(k, p, q) == p,
{
}

/// Particles with no attached behaviors step to themselves, whole
/// generations at a time.
pub proof fn lemma_step_inert_generation(g: Seq<ParticleView>)
    requires
        forall|i: int| 0 <= i < g.len() ==> (#[trigger] g[i]).rules.len() == 0
            && g[i].forces.len() == 0 && g[i].interactions.len() == 0,
    ensures
        spec_step(g) =~= g,
{
    assert forall|i: int| 0 <= i < g.len() implies spec_step(g)[i] == g[i] by {
        lemma_step_no_behaviors(g, i);
    };
}

} // verus!

