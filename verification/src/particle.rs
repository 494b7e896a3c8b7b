//! The particle entity and its behavior set.
//!
//! A particle carries kinematic state, an appearance, status flags, and
//! three ordered behavior lists: rules and forces (each a per-tick update
//! of the particle on its own) and interactions (pairwise effects against
//! another particle). The behaviors form a closed set of tagged variants;
//! their per-application meaning is given by `spec_apply_rule` and
//! `spec_apply_interaction`, which the executable appliers implement
//! exactly.

use vstd::prelude::*;

use crate::scalar::{
    sat64, sat_add, sat_neg, floor_sqrt, isqrt, lemma_floor_sqrt_at_least, FP_ONE,
};

verus! {

/// Color tag of a particle; also the behavioral discriminant of the
/// pairwise interactions (only differently-colored pairs interact).
#[derive(Clone, Copy, Debug, PartialEq, Eq, Structural)]
pub enum Color {
    Black,
    White,
    Red,
}

/// A per-tick behavior a particle applies to itself. Forces reuse the same
/// variants: a force is functionally identical to a rule and is kept in a
/// separate attachment list for grouping only.
#[derive(Clone, Copy, Debug, PartialEq, Eq, Structural)]
pub enum Rule {
    /// Translate the particle by its velocity.
    Move,
    /// Reflect a velocity component when the particle's footprint crosses
    /// the wall of the centered box whose side length is `bound`. The
    /// boundary test accounts for the particle's half-size.
    Bounce { bound: u64 },
    /// Constant downward acceleration: `vy` grows by `accel` each tick,
    /// with no terminal-velocity clamp.
    Gravity { accel: i64 },
}

/// A pairwise behavior, applied against every other particle each tick.
#[derive(Clone, Copy, Debug, PartialEq, Eq, Structural)]
pub enum Interaction {
    /// Latch onto a differently-colored particle strictly within the chase
    /// threshold: set the chasing flag and head straight for it. Once the
    /// flag is set the velocity is never recomputed.
    MoveCloser,
    /// Steer straight away from a differently-colored particle strictly
    /// within the chase threshold, recomputed every tick.
    Avoid,
}

/// Interactions trigger at distances strictly below this many coordinate
/// steps (one hundred world units).
pub const CHASE_THRESHOLD: i64 = 100 * FP_ONE;

/// The only entity of the simulation.
pub struct Particle {
    /// Unique identity, immutable for the particle's lifetime.
    pub id: i32,
    pub x: i64,
    pub y: i64,
    pub vx: i64,
    pub vy: i64,
    /// Render footprint (side length of the drawn square).
    pub size: u32,
    pub color: Color,
    /// Present but unused as a removal trigger by the current behaviors.
    pub alive: bool,
    /// Latches true once a pursued target comes within range; never resets.
    pub chasing: bool,
    pub rules: Vec<Rule>,
    pub forces: Vec<Rule>,
    pub interactions: Vec<Interaction>,
}

/// Mathematical model of a particle.
#[verifier::ext_equal]
pub ghost struct ParticleView {
    pub id: int,
    pub x: int,
    pub y: int,
    pub vx: int,
    pub vy: int,
    pub size: int,
    pub color: Color,
    pub alive: bool,
    pub chasing: bool,
    pub rules: Seq<Rule>,
    pub forces: Seq<Rule>,
    pub interactions: Seq<Interaction>,
}

impl View for Particle {
    type V = ParticleView;

    open spec fn view(&self) -> ParticleView {
        ParticleView {
            id: self.id as int,
            x: self.x as int,
            y: self.y as int,
            vx: self.vx as int,
            vy: self.vy as int,
            size: self.size as int,
            color: self.color,
            alive: self.alive,
            chasing: self.chasing,
            rules: self.rules@,
            forces: self.forces@,
            interactions: self.interactions@,
        }
    }
}

pub open spec fn abs_int(v: int) -> int {
    if v < 0 {
        -v
    } else {
        v
    }
}

/// Squared distance between two particles.
pub open spec fn dist2(p: ParticleView, q: ParticleView) -> int {
    (q.x - p.x) * (q.x - p.x) + (q.y - p.y) * (q.y - p.y)
}

pub open spec fn chase_threshold_sq() -> int {
    (CHASE_THRESHOLD as int) * (CHASE_THRESHOLD as int)
}

/// Interactions act only on pairs strictly within the chase threshold and
/// strictly apart: two coinciding particles have no usable direction, and
/// the policy treats that pair as out of range.
pub open spec fn near(p: ParticleView, q: ParticleView) -> bool {
    0 < dist2(p, q) < chase_threshold_sq()
}

/// One component of the fixed-point unit vector along a displacement whose
/// squared length is `d2`: the component magnitude is scaled by `FP_ONE`
/// and truncated toward zero.
pub open spec fn unit_component(delta: int, d2: int) -> int
    recommends
        0 < d2,
{
    let mag = abs_int(delta) * (FP_ONE as int) / floor_sqrt(d2);
    if delta < 0 {
        -mag
    } else {
        mag
    }
}

/// Meaning of one rule (or force) application.
pub open spec fn spec_apply_rule(r: Rule, p: ParticleView) -> ParticleView {
    match r {
        Rule::Move => ParticleView { x: sat64(p.x + p.vx), y: sat64(p.y + p.vy), ..p },
        Rule::Bounce { bound } => {
            let hb = (bound as int) / 2;
            let half = p.size / 2;
            let beyond_x = p.x + half > hb || p.x - half < -hb;
            let beyond_y = p.y + half > hb || p.y - half < -hb;
            ParticleView {
                vx: if beyond_x {
                    sat64(-p.vx)
                } else {
                    p.vx
                },
                vy: if beyond_y {
                    sat64(-p.vy)
                } else {
                    p.vy
                },
                ..p
            }
        },
        Rule::Gravity { accel } => ParticleView { vy: sat64(p.vy + accel), ..p },
    }
}

/// Meaning of one interaction application: `p` is the accumulator being
/// rebuilt, `q` the other particle, read from the frozen prior generation.
pub open spec fn spec_apply_interaction(k: Interaction, p: ParticleView, q: ParticleView) -> ParticleView {
    match k {
        Interaction::MoveCloser => {
            if p.color == q.color || p.chasing || !near(p, q) {
                p
            } else {
                ParticleView {
                    chasing: true,
                    vx: unit_component(q.x - p.x, dist2(p, q)),
                    vy: unit_component(q.y - p.y, dist2(p, q)),
                    ..p
                }
            }
        },
        Interaction::Avoid => {
            if p.color == q.color || !near(p, q) {
                p
            } else {
                ParticleView {
                    vx: -unit_component(q.x - p.x, dist2(p, q)),
                    vy: -unit_component(q.y - p.y, dist2(p, q)),
                    ..p
                }
            }
        },
    }
}

/// If `q` is strictly within the chase threshold of `p` and strictly apart
/// from it, the fixed-point unit vector from `p` toward `q`.
fn unit_toward(p: &Particle, q: &Particle) -> (r: Option<(i64, i64)>)
    ensures
        (r is Some) == near(p@, q@),
        r matches Some(u) ==> u.0 == unit_component(q@.x - p@.x, dist2(p@, q@))
            && u.1 == unit_component(q@.y - p@.y, dist2(p@, q@)),
        r matches Some(u) ==> -FP_ONE <= u.0 <= FP_ONE && -FP_ONE <= u.1 <= FP_ONE,
{
    let dxw: i128 = q.x as i128 - p.x as i128;
    let dyw: i128 = q.y as i128 - p.y as i128;
    let t: i128 = CHASE_THRESHOLD as i128;
    if dxw >= t || dxw <= -t || dyw >= t || dyw <= -t {
        proof {
            assert(dxw * dxw >= 0 && dyw * dyw >= 0) by (nonlinear_arith);
            if dxw >= t || dxw <= -t {
                assert(dxw * dxw >= t * t) by (nonlinear_arith)
                    requires
                        t > 0,
                        dxw >= t || dxw <= -t,
                ;
            } else {
                assert(dyw * dyw >= t * t) by (nonlinear_arith)
                    requires
                        t > 0,
                        dyw >= t || dyw <= -t,
                ;
            }
        }
        return None;
    }
    let dx: i64 = dxw as i64;
    let dy: i64 = dyw as i64;
    proof {
        assert(dx * dx <= t * t && dx * dx >= 0) by (nonlinear_arith)
            requires
                -t < dx < t,
                t == 100000,
        ;
        assert(dy * dy <= t * t && dy * dy >= 0) by (nonlinear_arith)
            requires
                -t < dy < t,
                t == 100000,
        ;
    }
    let d2: i64 = dx * dx + dy * dy;
    if d2 == 0 {
        return None;
    }
    if d2 >= CHASE_THRESHOLD * CHASE_THRESHOLD {
        return None;
    }
    let d: i64 = isqrt(d2);
    let ax: i64 = if dx < 0 { -dx } else { dx };
    let ay: i64 = if dy < 0 { -dy } else { dy };
    proof {
        let axi: int = ax as int;
        let ayi: int = ay as int;
        let dxi: int = dx as int;
        let dyi: int = dy as int;
        assert(axi == abs_int(dxi) && ayi == abs_int(dyi));
        assert(axi * axi == dxi * dxi) by (nonlinear_arith)
            requires
                axi == dxi || axi == -dxi,
        ;
        assert(ayi * ayi == dyi * dyi) by (nonlinear_arith)
            requires
                ayi == dyi || ayi == -dyi,
        ;
        lemma_floor_sqrt_at_least(d2 as int, 1);
        lemma_floor_sqrt_at_least(d2 as int, axi);
        lemma_floor_sqrt_at_least(d2 as int, ayi);
    }
    let mx: u64 = (ax as u64) * (FP_ONE as u64) / (d as u64);
    let my: u64 = (ay as u64) * (FP_ONE as u64) / (d as u64);
    proof {
        let di: int = d as int;
        let fp: int = FP_ONE as int;
        assert(ax as int * fp <= di * fp && 0 <= ax as int * fp) by (nonlinear_arith)
            requires
                0 <= ax as int <= di,
                fp == 1000,
        ;
        assert(ay as int * fp <= di * fp && 0 <= ay as int * fp) by (nonlinear_arith)
            requires
                0 <= ay as int <= di,
                fp == 1000,
        ;
        vstd::arithmetic::div_mod::lemma_div_is_ordered(ax as int * fp, di * fp, di);
        vstd::arithmetic::div_mod::lemma_div_is_ordered(ay as int * fp, di * fp, di);
        vstd::arithmetic::div_mod::lemma_div_multiples_vanish(fp, di);
        vstd::arithmetic::div_mod::lemma_div_pos_is_pos(ax as int * fp, di);
        vstd::arithmetic::div_mod::lemma_div_pos_is_pos(ay as int * fp, di);
        assert(di * fp == fp * di);
        assert(0 <= mx <= fp && 0 <= my <= fp);
    }
    let ux: i64 = if dx < 0 { -(mx as i64) } else { mx as i64 };
    let uy: i64 = if dy < 0 { -(my as i64) } else { my as i64 };
    proof {
        assert(q@.x - p@.x == dx as int && q@.y - p@.y == dy as int);
        assert(dist2(p@, q@) == d2 as int);
        assert(near(p@, q@));
    }
    Some((ux, uy))
}

impl Particle {
    /// Apply one rule (or force), per `spec_apply_rule`.
    pub fn apply_rule(self, r: Rule) -> (out: Particle)
        ensures
            out@ == spec_apply_rule(r, self@),
    {
        let mut p = self;
        match r {
            Rule::Move => {
                p.x = sat_add(p.x, p.vx);
                p.y = sat_add(p.y, p.vy);
            },
            Rule::Bounce { bound } => {
                let hb: i128 = (bound / 2) as i128;
                let half: i128 = (p.size / 2) as i128;
                let px: i128 = p.x as i128;
                let py: i128 = p.y as i128;
                if px + half > hb || px - half < -hb {
                    p.vx = sat_neg(p.vx);
                }
                if py + half > hb || py - half < -hb {
                    p.vy = sat_neg(p.vy);
                }
            },
            Rule::Gravity { accel } => {
                p.vy = sat_add(p.vy, accel);
            },
        }
        proof {
            assert(p@ =~= spec_apply_rule(r, self@));
        }
        p
    }

    /// Apply one interaction against `q`, per `spec_apply_interaction`.
    pub fn apply_interaction(self, k: Interaction, q: &Particle) -> (out: Particle)
        ensures
            out@ == spec_apply_interaction(k, self@, q@),
    {
        let mut p = self;
        match k {
            Interaction::MoveCloser => {
                if p.color == q.color || p.chasing {
                    return p;
                }
                match unit_toward(&p, q) {
                    None => p,
                    Some(u) => {
                        p.chasing = true;
                        p.vx = u.0;
                        p.vy = u.1;
                        proof {
                            assert(p@ =~= spec_apply_interaction(k, self@, q@));
                        }
                        p
                    },
                }
            },
            Interaction::Avoid => {
                if p.color == q.color {
                    return p;
                }
                match unit_toward(&p, q) {
                    None => p,
                    Some(u) => {
                        p.vx = sat_neg(u.0);
                        p.vy = sat_neg(u.1);
                        proof {
                            assert(p@ =~= spec_apply_interaction(k, self@, q@));
                        }
                        p
                    },
                }
            },
        }
    }

    /// An element-wise copy: the new particle models the same value.
    pub fn duplicate(&self) -> (out: Particle)
        ensures
            out@ == self@,
    {
        let out = Particle {
            id: self.id,
            x: self.x,
            y: self.y,
            vx: self.vx,
            vy: self.vy,
            size: self.size,
            color: self.color,
            alive: self.alive,
            chasing: self.chasing,
            rules: copy_rules(&self.rules),
            forces: copy_rules(&self.forces),
            interactions: copy_interactions(&self.interactions),
        };
        proof {
            assert(out@ =~= self@);
        }
        out
    }
}

fn copy_rules(v: &Vec<Rule>) -> (out: Vec<Rule>)
    ensures
        out@ == v@,
{
    let mut out: Vec<Rule> = Vec::new();
    let mut i: usize = 0;
    while i < v.len()
        invariant
            i <= v.len(),
            out@ == v@.take(i as int),
        decreases v.len() - i,
    {
        out.push(v[i]);
        proof {
            assert(out@ =~= v@.take(i as int + 1));
        }
        i = i + 1;
    }
    proof {
        assert(out@ =~= v@);
    }
    out
}

fn copy_interactions(v: &Vec<Interaction>) -> (out: Vec<Interaction>)
    ensures
        out@ == v@,
{
    let mut out: Vec<Interaction> = Vec::new();
    let mut i: usize = 0;
    while i < v.len()
        invariant
            i <= v.len(),
            out@ == v@.take(i as int),
        decreases v.len() - i,
    {
        out.push(v[i]);
        proof {
            assert(out@ =~= v@.take(i as int + 1));
        }
        i = i + 1;
    }
    proof {
        assert(out@ =~= v@);
    }
    out
}

} // verus!
