use particles::engine::{random_position, Engine, IdGen};
use particles::particle::{Color, Interaction, Particle, Rule};

fn plain(id: i32, x: i64, y: i64, color: Color) -> Particle {
    Particle {
        id,
        x,
        y,
        vx: 0,
        vy: 0,
        size: 10_000,
        color,
        alive: true,
        chasing: false,
        rules: vec![],
        forces: vec![],
        interactions: vec![],
    }
}

fn engine_of(ps: Vec<Particle>) -> Engine {
    let mut e = Engine::new();
    for p in ps {
        assert!(e.add(p));
    }
    e
}

#[test]
fn no_behaviors_step_unchanged() {
    let mut a = plain(1, 12_345, -6_789, Color::White);
    a.vx = 55;
    a.vy = -44;
    let mut e = engine_of(vec![a]);
    e.step();
    let p = e.particle_at(0);
    assert_eq!(p.id, 1);
    assert_eq!((p.x, p.y), (12_345, -6_789));
    assert_eq!((p.vx, p.vy), (55, -44));
    assert!(!p.chasing);
    assert!(p.alive);
}

#[test]
fn move_translates_by_velocity() {
    let mut a = plain(1, 5_000, -2_000, Color::White);
    a.vx = 300;
    a.vy = 400;
    a.rules = vec![Rule::Move];
    let mut e = engine_of(vec![a]);
    e.step();
    let p = e.particle_at(0);
    assert_eq!((p.x, p.y), (5_300, -1_600));
    assert_eq!((p.vx, p.vy), (300, 400));
}

#[test]
fn bounce_reflects_beyond_high_wall() {
    let mut a = plain(1, 396_000, 0, Color::White);
    a.vx = 250;
    a.vy = 70;
    a.rules = vec![Rule::Bounce { bound: 800_000 }];
    let mut e = engine_of(vec![a]);
    e.step();
    let p = e.particle_at(0);
    // x + size/2 = 401_000 > 400_000: vx is negated; y is inside: vy kept.
    assert_eq!((p.vx, p.vy), (-250, 70));
    assert_eq!((p.x, p.y), (396_000, 0));
}

#[test]
fn bounce_reflects_beyond_low_wall() {
    let mut a = plain(1, 0, -396_000, Color::White);
    a.vx = 250;
    a.vy = -70;
    a.rules = vec![Rule::Bounce { bound: 800_000 }];
    let mut e = engine_of(vec![a]);
    e.step();
    let p = e.particle_at(0);
    assert_eq!((p.vx, p.vy), (250, 70));
}

#[test]
fn bounce_inside_box_is_no_op() {
    let mut a = plain(1, 100_000, -200_000, Color::White);
    a.vx = 250;
    a.vy = -70;
    a.rules = vec![Rule::Bounce { bound: 800_000 }];
    let mut e = engine_of(vec![a]);
    e.step();
    let p = e.particle_at(0);
    assert_eq!((p.vx, p.vy), (250, -70));
    assert_eq!((p.x, p.y), (100_000, -200_000));
}

#[test]
fn gravity_accumulates_per_tick() {
    let mut a = plain(1, 0, 0, Color::White);
    a.vx = 33;
    a.rules = vec![Rule::Gravity { accel: 980 }];
    let mut e = engine_of(vec![a]);
    e.step();
    {
        let p = e.particle_at(0);
        assert_eq!((p.vx, p.vy), (33, 980));
        assert_eq!((p.x, p.y), (0, 0));
    }
    e.step();
    let p = e.particle_at(0);
    assert_eq!((p.vx, p.vy), (33, 1960));
}

#[test]
fn move_closer_latches_and_holds() {
    let mut a = plain(1, 0, 0, Color::Red);
    a.interactions = vec![Interaction::MoveCloser];
    let b = plain(2, 50_000, 0, Color::White);
    let mut e = engine_of(vec![a, b]);
    e.step();
    {
        let p = e.particle_at(0);
        // distance 50 units < threshold 100: latch, unit vector toward b.
        assert!(p.chasing);
        assert_eq!((p.vx, p.vy), (1_000, 0));
    }
    e.step();
    let p = e.particle_at(0);
    // the latch holds: the velocity is not recomputed.
    assert!(p.chasing);
    assert_eq!((p.vx, p.vy), (1_000, 0));
}

#[test]
fn avoid_recomputes_every_tick() {
    let mut a = plain(1, 0, 0, Color::Red);
    a.interactions = vec![Interaction::Avoid];
    let mut b = plain(2, 50_000, 0, Color::White);
    b.vy = 50_000;
    b.rules = vec![Rule::Move];
    let mut e = engine_of(vec![a, b]);
    e.step();
    {
        let p = e.particle_at(0);
        assert_eq!((p.vx, p.vy), (-1_000, 0));
        assert!(!p.chasing);
    }
    // b moved to (50_000, 50_000): the avoid direction changes with it.
    e.step();
    let p = e.particle_at(0);
    assert_eq!((p.vx, p.vy), (-707, -707));
}

#[test]
fn same_color_interactions_are_no_ops() {
    let mut a = plain(1, 0, 0, Color::Red);
    a.interactions = vec![Interaction::MoveCloser, Interaction::Avoid];
    let b = plain(2, 30_000, 0, Color::Red);
    let mut e = engine_of(vec![a, b]);
    e.step();
    let p = e.particle_at(0);
    assert_eq!((p.vx, p.vy), (0, 0));
    assert!(!p.chasing);
    assert_eq!((p.x, p.y), (0, 0));
}

#[test]
fn mutual_avoid_unit_vectors() {
    let mut a = plain(1, 0, 0, Color::Red);
    a.interactions = vec![Interaction::Avoid];
    let mut b = plain(2, 30_000, 0, Color::White);
    b.interactions = vec![Interaction::Avoid];
    let mut e = engine_of(vec![a, b]);
    e.step();
    let pa = e.particle_at(0);
    assert_eq!((pa.vx, pa.vy), (-1_000, 0));
    let pb = e.particle_at(1);
    assert_eq!((pb.vx, pb.vy), (1_000, 0));
}

#[test]
fn coinciding_particles_do_not_interact() {
    let mut a = plain(1, 5_000, 5_000, Color::Red);
    a.interactions = vec![Interaction::MoveCloser, Interaction::Avoid];
    let b = plain(2, 5_000, 5_000, Color::White);
    let mut e = engine_of(vec![a, b]);
    e.step();
    let p = e.particle_at(0);
    assert_eq!((p.vx, p.vy), (0, 0));
    assert!(!p.chasing);
}

#[test]
fn exactly_at_threshold_is_out_of_range() {
    let mut a = plain(1, 0, 0, Color::Red);
    a.interactions = vec![Interaction::MoveCloser, Interaction::Avoid];
    let b = plain(2, 100_000, 0, Color::White);
    let mut e = engine_of(vec![a, b]);
    e.step();
    let p = e.particle_at(0);
    assert_eq!((p.vx, p.vy), (0, 0));
    assert!(!p.chasing);
}

#[test]
fn snapshot_idempotent_without_step() {
    let mut a = plain(1, 1_000, 2_000, Color::Red);
    a.vx = 77;
    a.rules = vec![Rule::Move];
    let b = plain(2, -3_000, 4_000, Color::White);
    let e = engine_of(vec![a, b]);
    let s1 = e.snapshot();
    let s2 = e.snapshot();
    assert_eq!(s1, s2);
}

#[test]
fn snapshot_reports_renderable_state() {
    let a = plain(7, 1_000, 2_000, Color::Black);
    let e = engine_of(vec![a]);
    let s = e.snapshot();
    assert_eq!(s.len(), 1);
    assert_eq!(s[0].x, 1_000);
    assert_eq!(s[0].y, 2_000);
    assert_eq!(s[0].size, 10_000);
    assert_eq!(s[0].color, Color::Black);
}

#[test]
fn add_refuses_duplicate_id() {
    let mut e = Engine::new();
    assert!(e.add(plain(1, 0, 0, Color::Red)));
    assert!(!e.add(plain(1, 9_000, 9_000, Color::White)));
    assert_eq!(e.len(), 1);
    assert!(e.add(plain(2, 9_000, 9_000, Color::White)));
    assert_eq!(e.len(), 2);
    assert!(e.contains_id(1));
    assert!(e.contains_id(2));
    assert!(!e.contains_id(3));
}

#[test]
fn id_generator_is_monotonic() {
    let mut g = IdGen::new();
    let a = g.generate_unique_id();
    let b = g.generate_unique_id();
    let c = g.generate_unique_id();
    assert_eq!((a, b, c), (0, 1, 2));
    assert_ne!(a, b);
    assert_ne!(b, c);
}

#[test]
fn random_positions_stay_inside_the_inset_box() {
    for _ in 0..100 {
        let (x, y) = random_position(800_000, 600_000, 10_000);
        assert!(-390_000 <= x && x < 390_000);
        assert!(-290_000 <= y && y < 290_000);
    }
}
