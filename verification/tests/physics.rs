use rigid_bodies::body::Body;
use rigid_bodies::rational::Rat;
use rigid_bodies::sim::collide_wall;
use rigid_bodies::sim::gravity;
use rigid_bodies::sim::step;
use rigid_bodies::sim::velocity;
use rigid_bodies::collision::collide;
use rigid_bodies::vec2::V2;

fn rat(n: i64, d: i64) -> Rat {
    Rat::new(n, d).unwrap()
}

fn body(mass: i64, px: (i64, i64), py: (i64, i64), vx: (i64, i64), vy: (i64, i64)) -> Body {
    Body::new(
        rat(mass, 1),
        V2::new(rat(px.0, px.1), rat(py.0, py.1)),
        V2::new(rat(vx.0, vx.1), rat(vy.0, vy.1)),
    )
    .unwrap()
}

#[test]
fn head_on_collision() {
    let mut bodies = vec![
        body(10, (0, 1), (0, 1), (100, 1), (0, 1)),
        body(20, (29, 1), (0, 1), (-100, 1), (0, 1)),
    ];
    collide(&mut bodies, rat(1, 60));
    assert!(bodies[0].vel.x.eq_val(rat(-500, 3)));
    assert!(bodies[0].vel.y.eq_val(rat(0, 1)));
    assert!(bodies[1].vel.x.eq_val(rat(100, 3)));
    assert!(bodies[1].vel.y.eq_val(rat(0, 1)));
}

#[test]
fn head_on_collision_momentum() {
    let mut bodies = vec![
        body(10, (0, 1), (0, 1), (100, 1), (0, 1)),
        body(20, (29, 1), (0, 1), (-100, 1), (0, 1)),
    ];
    collide(&mut bodies, rat(1, 60));
    // exact: 10 * va + 20 * vb == -1000, cross-multiplied in wide ints
    let (n1, d1) = (bodies[0].vel.x.num() as i128, bodies[0].vel.x.den() as i128);
    let (n2, d2) = (bodies[1].vel.x.num() as i128, bodies[1].vel.x.den() as i128);
    assert_eq!(10 * n1 * d2 + 20 * n2 * d1, -1000 * d1 * d2);
}

#[test]
fn head_on_collision_energy() {
    let mut bodies = vec![
        body(10, (0, 1), (0, 1), (100, 1), (0, 1)),
        body(20, (29, 1), (0, 1), (-100, 1), (0, 1)),
    ];
    collide(&mut bodies, rat(1, 60));
    let va = bodies[0].vel.x.num() as f64 / bodies[0].vel.x.den() as f64;
    let vb = bodies[1].vel.x.num() as f64 / bodies[1].vel.x.den() as f64;
    let after = 10.0 * va * va + 20.0 * vb * vb;
    // 10 * 100^2 + 20 * 100^2
    assert!((after - 300000.0).abs() < 1e-6);
}

#[test]
fn equal_masses_swap() {
    let mut bodies = vec![
        body(10, (0, 1), (0, 1), (50, 1), (0, 1)),
        body(10, (19, 1), (0, 1), (-30, 1), (0, 1)),
    ];
    collide(&mut bodies, rat(1, 60));
    assert!(bodies[0].vel.x.eq_val(rat(-30, 1)));
    assert!(bodies[1].vel.x.eq_val(rat(50, 1)));
}

#[test]
fn no_overlap_no_change() {
    let mut bodies = vec![
        body(1, (0, 1), (0, 1), (1, 1), (0, 1)),
        body(1, (100, 1), (0, 1), (-1, 1), (0, 1)),
    ];
    collide(&mut bodies, rat(1, 60));
    assert!(bodies[0].vel.x.eq_val(rat(1, 1)));
    assert!(bodies[1].vel.x.eq_val(rat(-1, 1)));
}

#[test]
fn wall_bounce() {
    let mut bodies = vec![body(20, (340, 1), (0, 1), (50, 1), (0, 1))];
    collide_wall(&mut bodies, rat(1, 60), rat(350, 1));
    assert!(bodies[0].vel.x.eq_val(rat(-50, 1)));
    assert!(bodies[0].vel.y.eq_val(rat(0, 1)));
    // position untouched by the wall stage
    assert!(bodies[0].pos.x.eq_val(rat(340, 1)));
}

#[test]
fn wall_inside_untouched() {
    let mut bodies = vec![body(20, (0, 1), (0, 1), (50, 1), (-7, 1))];
    collide_wall(&mut bodies, rat(1, 60), rat(350, 1));
    assert!(bodies[0].vel.x.eq_val(rat(50, 1)));
    assert!(bodies[0].vel.y.eq_val(rat(-7, 1)));
}

#[test]
fn wall_corner_both_axes() {
    let mut bodies = vec![body(10, (339, 1), (-339, 1), (120, 1), (-120, 1))];
    collide_wall(&mut bodies, rat(1, 60), rat(350, 1));
    assert!(bodies[0].vel.x.eq_val(rat(-120, 1)));
    assert!(bodies[0].vel.y.eq_val(rat(120, 1)));
}

#[test]
fn gravity_step() {
    let mut bodies = vec![body(10, (0, 1), (0, 1), (3, 1), (0, 1))];
    gravity(&mut bodies, rat(294, 1), rat(1, 60));
    assert!(bodies[0].vel.y.eq_val(rat(-49, 10)));
    assert!(bodies[0].vel.x.eq_val(rat(3, 1)));
}

#[test]
fn position_integration() {
    let mut bodies = vec![body(1, (1, 1), (2, 1), (3, 1), (4, 1))];
    velocity(&mut bodies, rat(1, 2));
    assert!(bodies[0].pos.x.eq_val(rat(5, 2)));
    assert!(bodies[0].pos.y.eq_val(rat(4, 1)));
    assert!(bodies[0].vel.x.eq_val(rat(3, 1)));
}

#[test]
fn empty_input_no_op() {
    let mut bodies: Vec<Body> = Vec::new();
    step(&mut bodies, rat(1, 60), rat(350, 1), rat(294, 1));
    assert!(bodies.is_empty());
}

#[test]
fn single_body_no_collision() {
    let mut bodies = vec![body(10, (0, 1), (0, 1), (5, 1), (0, 1))];
    collide(&mut bodies, rat(1, 60));
    assert!(bodies[0].vel.x.eq_val(rat(5, 1)));
    assert!(bodies[0].vel.y.eq_val(rat(0, 1)));
}

#[test]
fn degenerate_overlap_skipped() {
    let mut bodies = vec![
        body(10, (7, 1), (-3, 1), (11, 1), (2, 1)),
        body(20, (7, 1), (-3, 1), (-5, 1), (4, 1)),
    ];
    collide(&mut bodies, rat(1, 60));
    assert!(bodies[0].vel.x.eq_val(rat(11, 1)));
    assert!(bodies[0].vel.y.eq_val(rat(2, 1)));
    assert!(bodies[1].vel.x.eq_val(rat(-5, 1)));
    assert!(bodies[1].vel.y.eq_val(rat(4, 1)));
}

#[test]
fn combined_step_ordering() {
    // gravity first, then the collision, then the wall, then movement:
    // the second body only reaches the wall with its post-collision
    // velocity, and the positions move by the post-gravity velocities,
    // so a reordered pipeline gives a different outcome.
    let mut bodies = vec![
        body(15, (309, 1), (0, 1), (10, 1), (0, 1)),
        body(15, (330, 1), (0, 1), (0, 1), (0, 1)),
    ];
    step(&mut bodies, rat(1, 1), rat(350, 1), rat(5, 1));
    assert!(bodies[0].vel.x.eq_val(rat(0, 1)));
    assert!(bodies[0].vel.y.eq_val(rat(-5, 1)));
    assert!(bodies[1].vel.x.eq_val(rat(-10, 1)));
    assert!(bodies[1].vel.y.eq_val(rat(-5, 1)));
    assert!(bodies[0].pos.x.eq_val(rat(309, 1)));
    assert!(bodies[0].pos.y.eq_val(rat(-5, 1)));
    assert!(bodies[1].pos.x.eq_val(rat(320, 1)));
    assert!(bodies[1].pos.y.eq_val(rat(-5, 1)));
}

#[test]
fn body_needs_positive_mass() {
    let zero = Rat::new(0, 1).unwrap();
    let p = V2::new(zero, zero);
    assert!(Body::new(zero, p, p).is_none());
    assert!(Body::new(rat(-3, 1), p, p).is_none());
    assert!(Body::new(rat(1, 2), p, p).is_some());
}

#[test]
fn gravity_stays_exact_over_many_frames() {
    // sixty frames at dt = 1/60 and g = 294: reduced denominators stay
    // small, so gravity keeps applying and accumulates to exactly -294
    let mut bodies = vec![body(1, (0, 1), (0, 1), (0, 1), (0, 1))];
    let dt = rat(1, 60);
    let half = rat(1000, 1);
    let g = rat(294, 1);
    for _ in 0..60 {
        step(&mut bodies, dt, half, g);
    }
    assert!(bodies[0].vel.y.eq_val(rat(-294, 1)));
    // the position accumulated sum of -49k/600 for k = 1..=60
    assert!(bodies[0].pos.y.eq_val(rat(-2989, 20)));
}
