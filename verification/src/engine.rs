//! The simulation engine: it owns the particle generation, advances it one
//! tick at a time, and exposes the renderable state.
//!
//! A step rebuilds every particle of the current generation: the particle
//! is folded through each of its interactions against every other particle
//! of the frozen prior generation (in generation order), then through its
//! rules and its forces in attachment order. The new generation replaces
//! the old one atomically once every particle has been rebuilt.

use vstd::prelude::*;

use rand::Rng;

use crate::particle::{
    spec_apply_interaction, spec_apply_rule, Color, Interaction, Particle, ParticleView, Rule,
};

verus! {

/// `p` folded through the first `n` rules of `rs`, in attachment order.
pub open spec fn fold_rules_prefix(p: ParticleView, rs: Seq<Rule>, n: int) -> ParticleView
    decreases n,
{
    if n <= 0 {
        p
    } else {
        spec_apply_rule(rs[n - 1], fold_rules_prefix(p, rs, n - 1))
    }
}

/// `p` folded through all of `rs`, in attachment order.
pub open spec fn fold_rules(p: ParticleView, rs: Seq<Rule>) -> ParticleView {
    fold_rules_prefix(p, rs, rs.len() as int)
}

/// `p` folded through the first `n` interactions of `ks` against `q`.
pub open spec fn fold_interactions_prefix(
    p: ParticleView,
    q: ParticleView,
    ks: Seq<Interaction>,
    n: int,
) -> ParticleView
    decreases n,
{
    if n <= 0 {
        p
    } else {
        spec_apply_interaction(ks[n - 1], fold_interactions_prefix(p, q, ks, n - 1), q)
    }
}

/// `p` folded through all of `ks` against `q`, in attachment order.
pub open spec fn fold_interactions(
    p: ParticleView,
    q: ParticleView,
    ks: Seq<Interaction>,
) -> ParticleView {
    fold_interactions_prefix(p, q, ks, ks.len() as int)
}

/// The accumulator for particle `i` of generation `g` after its
/// interactions have been applied against the first `n` particles of `g`
/// (the particle itself is skipped). The interaction list is the one that
/// `g[i]` carries in the frozen generation, not the accumulator's.
pub open spec fn interact_prefix(g: Seq<ParticleView>, i: int, n: int) -> ParticleView
    decreases n,
{
    if n <= 0 {
        g[i]
    } else {
        let acc = interact_prefix(g, i, n - 1);
        if n - 1 == i {
            acc
        } else {
            fold_interactions(acc, g[n - 1], g[i].interactions)
        }
    }
}

/// The next generation's particle `i`: interactions against every other
/// particle of `g`, then the particle's rules, then its forces.
pub open spec fn spec_step_particle(g: Seq<ParticleView>, i: int) -> ParticleView {
    fold_rules(fold_rules(interact_prefix(g, i, g.len() as int), g[i].rules), g[i].forces)
}

/// One tick: every particle of `g`, rebuilt against the frozen `g`.
pub open spec fn spec_step(g: Seq<ParticleView>) -> Seq<ParticleView> {
    Seq::new(g.len(), |i: int| spec_step_particle(g, i))
}

/// The renderable part of a particle's state.
#[derive(Clone, Copy, Debug, PartialEq, Eq, Structural)]
pub struct RenderState {
    pub x: i64,
    pub y: i64,
    pub size: u32,
    pub color: Color,
}

pub open spec fn render_of(p: ParticleView) -> RenderState {
    RenderState { x: p.x as i64, y: p.y as i64, size: p.size as u32, color: p.color }
}

pub open spec fn spec_snapshot(g: Seq<ParticleView>) -> Seq<RenderState> {
    g.map_values(|p: ParticleView| render_of(p))
}

/// The simulation engine. It models the generation as the sequence of the
/// particles' mathematical views, in insertion order; ids are kept unique
/// by `add`, and a step never changes them.
pub struct Engine {
    particles: Vec<Particle>,
}

impl View for Engine {
    type V = Seq<ParticleView>;

    closed spec fn view(&self) -> Seq<ParticleView> {
        self.particles@.map_values(|p: Particle| p@)
    }
}

impl Engine {
    /// An engine with no particles.
    pub fn new() -> (e: Engine)
        ensures
            e@ == Seq::<ParticleView>::empty(),
    {
        let e = Engine { particles: Vec::new() };
        proof {
            assert(e@ =~= Seq::<ParticleView>::empty());
        }
        e
    }

    pub fn len(&self) -> (n: usize)
        ensures
            n == self@.len(),
    {
        self.particles.len()
    }

    /// Read access to one particle of the current generation.
    pub fn particle_at(&self, i: usize) -> (p: &Particle)
        requires
            i < self@.len(),
        ensures
            p@ == self@[i as int],
    {
        &self.particles[i]
    }

    /// Whether some particle of the current generation has this id.
    pub fn contains_id(&self, id: i32) -> (found: bool)
        ensures
            found == exists|m: int| 0 <= m < self@.len() && self@[m].id == id,
    {
        let n = self.particles.len();
        let mut i: usize = 0;
        while i < n
            invariant
                i <= n,
                n == self@.len(),
                n == self.particles.len(),
                forall|m: int| 0 <= m < i as int ==> self@[m].id != id,
            decreases n - i,
        {
            if self.particles[i].id == id {
                proof {
                    assert(self@[i as int].id == id);
                }
                return true;
            }
            i = i + 1;
        }
        false
    }

    /// Insert a particle. The insertion is refused exactly when the id is
    /// already taken, so ids stay unique across the generation.
    pub fn add(&mut self, p: Particle) -> (ok: bool)
        ensures
            ok == !(exists|m: int| 0 <= m < old(self)@.len() && old(self)@[m].id == p@.id),
            ok ==> final(self)@ == old(self)@.push(p@),
            !ok ==> final(self)@ == old(self)@,
    {
        if self.contains_id(p.id) {
            false
        } else {
            let ghost before: Seq<ParticleView> = self@;
            let ghost pv: ParticleView = p@;
            self.particles.push(p);
            proof {
                assert(self@ =~= before.push(pv));
            }
            true
        }
    }

    /// Advance the simulation one tick, per `spec_step`: each particle is
    /// rebuilt from the frozen current generation, and the new generation
    /// replaces it atomically.
    #[verifier::loop_isolation(false)]
    pub fn step(&mut self)
        ensures
            final(self)@ == spec_step(old(self)@),
    {
        let ghost g: Seq<ParticleView> = self@;
        let n: usize = self.particles.len();
        let mut next: Vec<Particle> = Vec::new();
        let mut i: usize = 0;
        while i < n
            invariant
                i <= n,
                next@.len() == i as int,
                forall|m: int| 0 <= m < i as int ==> (#[trigger] next@[m])@ == spec_step_particle(
                    g,
                    m,
                ),
            decreases n - i,
        {
            proof {
                assert(g[i as int] == self.particles@[i as int]@);
            }
            let mut acc: Particle = self.particles[i].duplicate();
            let mut j: usize = 0;
            while j < n
                invariant
                    j <= n,
                    acc@ == interact_prefix(g, i as int, j as int),
                decreases n - j,
            {
                if j != i {
                    let ghost before: ParticleView = acc@;
                    let ni: usize = self.particles[i].interactions.len();
                    let mut k: usize = 0;
                    while k < ni
                        invariant
                            k <= ni,
                            ni == g[i as int].interactions.len(),
                            acc@ == fold_interactions_prefix(
                                before,
                                g[j as int],
                                g[i as int].interactions,
                                k as int,
                            ),
                        decreases ni - k,
                    {
                        let kind: Interaction = self.particles[i].interactions[k];
                        proof {
                            assert(kind == g[i as int].interactions[k as int]);
                            assert(g[j as int] == self.particles@[j as int]@);
                        }
                        acc = acc.apply_interaction(kind, &self.particles[j]);
                        k = k + 1;
                    }
                    proof {
                        assert(acc@ == fold_interactions(before, g[j as int], g[i as int].interactions));
                        assert(acc@ == interact_prefix(g, i as int, j as int + 1));
                    }
                } else {
                    proof {
                        assert(interact_prefix(g, i as int, j as int + 1) == interact_prefix(
                            g,
                            i as int,
                            j as int,
                        ));
                    }
                }
                j = j + 1;
            }
            let ghost after_ints: ParticleView = acc@;
            let nr: usize = self.particles[i].rules.len();
            let mut k: usize = 0;
            while k < nr
                invariant
                    k <= nr,
                    nr == g[i as int].rules.len(),
                    acc@ == fold_rules_prefix(after_ints, g[i as int].rules, k as int),
                decreases nr - k,
            {
                let rk: Rule = self.particles[i].rules[k];
                proof {
                    assert(rk == g[i as int].rules[k as int]);
                }
                acc = acc.apply_rule(rk);
                k = k + 1;
            }
            let ghost after_rules: ParticleView = acc@;
            let nf: usize = self.particles[i].forces.len();
            let mut k2: usize = 0;
            while k2 < nf
                invariant
                    k2 <= nf,
                    nf == g[i as int].forces.len(),
                    acc@ == fold_rules_prefix(after_rules, g[i as int].forces, k2 as int),
                decreases nf - k2,
            {
                let fk: Rule = self.particles[i].forces[k2];
                proof {
                    assert(fk == g[i as int].forces[k2 as int]);
                }
                acc = acc.apply_rule(fk);
                k2 = k2 + 1;
            }
            proof {
                assert(after_ints == interact_prefix(g, i as int, g.len() as int));
                assert(after_rules == fold_rules(after_ints, g[i as int].rules));
                assert(acc@ == fold_rules(after_rules, g[i as int].forces));
                assert(acc@ == spec_step_particle(g, i as int));
            }
            next.push(acc);
            i = i + 1;
        }
        self.particles = next;
        proof {
            assert(self@ =~~= spec_step(g));
        }
    }

    /// The renderable state of the current generation, in generation
    /// order. The result is a copy: it gives no access, mutable or
    /// otherwise, to the engine's own state.
    pub fn snapshot(&self) -> (r: Vec<RenderState>)
        ensures
            r@ == spec_snapshot(self@),
    {
        let n = self.particles.len();
        let mut r: Vec<RenderState> = Vec::new();
        let mut i: usize = 0;
        while i < n
            invariant
                i <= n,
                n == self.particles.len(),
                n == self@.len(),
                r@.len() == i as int,
                forall|m: int| 0 <= m < i as int ==> (#[trigger] r@[m]) == render_of(self@[m]),
            decreases n - i,
        {
            let p = &self.particles[i];
            proof {
                assert(p@ == self@[i as int]);
            }
            r.push(RenderState { x: p.x, y: p.y, size: p.size, color: p.color });
            i = i + 1;
        }
        proof {
            assert(r@ =~= spec_snapshot(self@));
        }
        r
    }
}

/// Fresh particle ids from a monotonic counter: successive calls return
/// successive integers, so no two calls collide.
pub struct IdGen {
    pub next: i32,
}

impl IdGen {
    pub fn new() -> (g: IdGen)
        ensures
            g.next == 0,
    {
        IdGen { next: 0 }
    }

    pub fn generate_unique_id(&mut self) -> (id: i32)
        requires
            old(self).next < i32::MAX,
        ensures
            id == old(self).next,
            final(self).next == old(self).next + 1,
    {
        let id = self.next;
        self.next = self.next + 1;
        id
    }
}

/// Relies on rand::thread_rng for a thread-local generator; nothing is
/// assumed of the value.
#[verifier::external_body]
fn fresh_rng() -> rand::rngs::ThreadRng {
    rand::thread_rng()
}

/// Declares rand's ThreadRng so it can pass through signatures; the value
/// is opaque here.
#[verifier::external_type_specification]
#[verifier::external_body]
pub struct ExThreadRng(rand::rngs::ThreadRng);

/// Relies on rand::Rng::gen_range over the half-open range `lo..hi`: it
/// panics only on an empty range, and returns a value inside the range.
#[verifier::external_body]
fn gen_range_i64(rng: &mut rand::rngs::ThreadRng, lo: i64, hi: i64) -> (r: i64)
    requires
        lo < hi,
    ensures
        lo <= r < hi,
{
    rng.gen_range(lo..hi)
}

/// A random spawn position inside the centered `width` by `height` box,
/// inset by `size` on every side so the particle's footprint starts inside
/// the walls. The box must be wide enough for the inset to leave room.
pub fn random_position(width: i64, height: i64, size: i64) -> (r: (i64, i64))
    requires
        0 <= size,
        size - width / 2 < width / 2 - size,
        size - height / 2 < height / 2 - size,
    ensures
        size - width / 2 <= r.0 < width / 2 - size,
        size - height / 2 <= r.1 < height / 2 - size,
{
    proof {
        vstd::arithmetic::div_mod::lemma_fundamental_div_mod(width as int, 2);
        vstd::arithmetic::div_mod::lemma_fundamental_div_mod(height as int, 2);
    }
    let hw: i64 = ((width as u64) / 2) as i64;
    let hh: i64 = ((height as u64) / 2) as i64;
    let mut rng = fresh_rng();
    let x = gen_range_i64(&mut rng, size - hw, hw - size);
    let y = gen_range_i64(&mut rng, size - hh, hh - size);
    (x, y)
}

} // verus!
