use stealth_agents::animation::get_top_parent;
use stealth_agents::movement::clean_up_moving_to;
use stealth_agents::movement::moving_to;
use stealth_agents::movement::rotating;
use stealth_agents::movement::start_moving_to;
use stealth_agents::movement::start_turning_to;
use stealth_agents::movement::translating;
use stealth_agents::movement::turning_to;
use stealth_agents::movement::MovingSpeed;
use stealth_agents::movement::MovingTo;
use stealth_agents::movement::Rotating;
use stealth_agents::movement::Translating;
use stealth_agents::movement::TurningSpeed;
use stealth_agents::movement::TurningTo;
use stealth_agents::geom::aligned;
use stealth_agents::geom::ang_dist;
use stealth_agents::geom::bearing_mils;
use stealth_agents::geom::dist_sq;
use stealth_agents::geom::step_mm;
use stealth_agents::geom::within_pos_tolerance;
use stealth_agents::geom::wrap_mils;
use stealth_agents::geom::Vec3I;
use stealth_agents::mover::mover;
use stealth_agents::mover::angular_velocity;
use stealth_agents::mover::linear_velocity;
use stealth_agents::mover::AngularSpeed;
use stealth_agents::mover::AngularVelocity;
use stealth_agents::mover::LinearSpeed;
use stealth_agents::mover::LinearVelocity;
use stealth_agents::mover::MoveTo;
use stealth_agents::mover::Mover;
use stealth_agents::mover::Transform;

struct Rig {
    m: Mover,
    t: Transform,
    ls: LinearSpeed,
    asp: AngularSpeed,
    lin: Option<LinearVelocity>,
    ang: Option<AngularVelocity>,
}

impl Rig {
    fn new(pos: Vec3I, yaw: i64) -> Rig {
        Rig {
            m: Mover::default(),
            t: Transform { pos, yaw },
            ls: LinearSpeed(1000),
            asp: AngularSpeed(6400),
            lin: None,
            ang: None,
        }
    }

    /// One actuator tick: integrate, then run the bookkeeping pass.
    fn tick(&mut self, dt_ms: u64) {
        linear_velocity(&mut self.lin, dt_ms);
        angular_velocity(&self.ang, &mut self.t, dt_ms);
        mover(&mut self.m, &mut self.t, &self.ls, &self.asp, &mut self.lin, &mut self.ang);
    }
}

#[test]
fn bearing_is_exact_on_the_axes() {
    assert_eq!(bearing_mils(0, -5), 0);
    assert_eq!(bearing_mils(5, 0), 1600);
    assert_eq!(bearing_mils(0, 5), 3200);
    assert_eq!(bearing_mils(-5, 0), 4800);
    assert_eq!(bearing_mils(5, -5), 800);
    assert_eq!(bearing_mils(3, 4), 2600);
}

#[test]
fn wrap_and_angular_distance() {
    assert_eq!(wrap_mils(-100), 6300);
    assert_eq!(wrap_mils(6500), 100);
    assert_eq!(wrap_mils(1234), 1234);
    assert_eq!(ang_dist(100, 6300), 200);
    assert_eq!(ang_dist(0, 3200), 3200);
    assert!(aligned(0, 100));
    assert!(!aligned(0, 200));
    // Facing exactly away also counts as aligned, as the magnitude of the
    // cosine does.
    assert!(aligned(0, 3200));
    assert!(aligned(0, 3300));
}

#[test]
fn squared_distance_and_tolerance_window() {
    let a = Vec3I::new(0, 0, 0);
    let b = Vec3I::new(300, 0, 400);
    assert_eq!(dist_sq(a, b), 250_000);
    // distance 500: the odometer is within tolerance only in [490, 510].
    assert!(within_pos_tolerance(250_000, 500));
    assert!(within_pos_tolerance(250_000, 490));
    assert!(within_pos_tolerance(250_000, 510));
    assert!(!within_pos_tolerance(250_000, 489));
    assert!(!within_pos_tolerance(250_000, 511));
    assert_eq!(step_mm(1000, 100), 100);
}

#[test]
fn destination_converges_and_snaps_exactly() {
    let mut rig = Rig::new(Vec3I::new(0, 0, 0), 0);
    rig.m.start(MoveTo::Destination(Vec3I::new(300, 0, 400)));
    // First pass initializes: heading cached, both components attached.
    rig.tick(100);
    assert!(rig.lin.is_some());
    assert!(rig.ang.is_some());
    assert_eq!(rig.m.heading, Some(2600));
    // Distance 500 mm at 1000 mm/s and 100 ms ticks: the odometer reads 100,
    // 200, ... and first enters the tolerance window at 500, on the fifth
    // integration step; the position snaps exactly to the destination on that
    // very tick and never earlier.
    for k in 1..=4 {
        rig.tick(100);
        assert_eq!(rig.lin.as_ref().map(|l| l.traveled_mm), Some(100 * k));
        assert_ne!(rig.t.pos, Vec3I::new(300, 0, 400));
    }
    rig.tick(100);
    assert!(rig.lin.is_none());
    assert_eq!(rig.t.pos, Vec3I::new(300, 0, 400));
    // Turning at a full turn per second, 640 mils per tick, the facing is
    // first within the alignment tolerance of 2600 at 2560.
    assert!(rig.ang.is_none());
    assert!(aligned(rig.t.yaw, 2600));
    // One more pass and the actuator reports finished.
    rig.tick(100);
    assert!(rig.m.is_finished());
}

#[test]
fn zero_distance_destination_completes_on_first_check() {
    let mut rig = Rig::new(Vec3I::new(70, 0, 70), 1234);
    rig.m.start(MoveTo::Destination(Vec3I::new(70, 0, 70)));
    // The first actuator pass completes the linear part immediately: the
    // position stays put and no linear component is ever attached, whatever
    // the tick length.
    rig.tick(10);
    assert!(rig.lin.is_none());
    assert_eq!(rig.t.pos, Vec3I::new(70, 0, 70));
    // Heading falls back to the current facing, which is already aligned.
    assert_eq!(rig.m.heading, Some(1234));
    rig.tick(10);
    assert!(rig.ang.is_none());
    rig.tick(10);
    assert!(rig.m.is_finished());
    assert_eq!(rig.t.pos, Vec3I::new(70, 0, 70));
}

#[test]
fn near_destination_snaps_at_initialization() {
    // Within the 10 mm tolerance from the start: the first actuator pass
    // snaps exactly to the destination and attaches no linear component,
    // independent of speed and tick length.
    let mut rig = Rig::new(Vec3I::new(0, 0, 0), 0);
    rig.m.start(MoveTo::Destination(Vec3I::new(3, 0, -4)));
    rig.tick(100);
    assert!(rig.lin.is_none());
    assert_eq!(rig.t.pos, Vec3I::new(3, 0, -4));
}

#[test]
fn whole_turn_tick_leaves_the_facing_unchanged() {
    // Rotating by a full speed * dt angle: whole turns land where they
    // started, a three-quarter turn advances by exactly that angle.
    let mut t = Transform { pos: Vec3I::new(0, 0, 0), yaw: 500 };
    let ang = Some(AngularVelocity { ccw: true, speed_mils_s: 6400 });
    angular_velocity(&ang, &mut t, 1000);
    assert_eq!(t.yaw, 500);
    angular_velocity(&ang, &mut t, 750);
    assert_eq!(t.yaw, wrap_mils(500 + 4800));
}

#[test]
fn direction_target_turns_in_place() {
    let mut rig = Rig::new(Vec3I::new(5, 0, 5), 0);
    rig.m.start(MoveTo::Direction(3200));
    rig.tick(100);
    assert!(rig.lin.is_none());
    assert!(rig.ang.is_some());
    let mut guard = 0;
    while !rig.m.is_finished() && guard < 100 {
        rig.tick(100);
        guard += 1;
    }
    assert!(rig.m.is_finished());
    assert!(aligned(rig.t.yaw, 3200));
    assert_eq!(rig.t.pos, Vec3I::new(5, 0, 5));
}

#[test]
fn external_stop_cleans_up_components() {
    let mut rig = Rig::new(Vec3I::new(0, 0, 0), 0);
    rig.m.start(MoveTo::Destination(Vec3I::new(10_000, 0, 0)));
    rig.tick(100);
    assert!(rig.lin.is_some());
    rig.m.stop();
    rig.tick(100);
    assert!(rig.lin.is_none());
    assert!(rig.ang.is_none());
    assert!(rig.m.is_finished());
}

#[test]
fn mover_start_replaces_target_and_clears_heading() {
    let mut m = Mover::default();
    m.start(MoveTo::Direction(100));
    assert_eq!(m.move_to, Some(MoveTo::Direction(100)));
    assert_eq!(m.heading, None);
    assert!(!m.is_finished());
    m.stop();
    assert!(m.is_finished());
}

#[test]
fn moving_to_marker_removes_itself_on_arrival() {
    let mut t = Transform { pos: Vec3I::new(0, 0, 0), yaw: 0 };
    let mut moving = Some(MovingTo::new(Vec3I::new(0, 0, -500)));
    let mut trans: Option<Translating> = None;
    let mut turn: Option<TurningTo> = None;
    let mut rot: Option<Rotating> = None;
    start_moving_to(
        moving.as_ref().unwrap(),
        &t,
        &MovingSpeed(1000),
        &mut trans,
        &mut turn,
    );
    // Straight ahead: the travel turn is toward bearing zero.
    assert_eq!(turn.as_ref().map(|tt| tt.direction), Some(0));
    start_turning_to(turn.as_ref().unwrap(), &t, &TurningSpeed(6400), &mut rot);
    // Already facing the way: the turn marker removes itself first.
    turning_to(&mut turn, &mut rot, &t);
    assert!(turn.is_none());
    assert!(rot.is_none());
    for _ in 0..5 {
        translating(&mut trans, 100);
        rotating(&rot, &mut t, 100);
        moving_to(&mut moving, &mut trans, &mut t);
    }
    assert!(moving.is_none());
    assert_eq!(t.pos, Vec3I::new(0, 0, -500));
    // Early-removal cleanup: with the marker gone, the transients go too.
    clean_up_moving_to(&moving, &mut trans, &mut turn);
    assert!(trans.is_none());
}

#[test]
fn top_parent_walks_to_the_root() {
    let parents: Vec<Option<usize>> = vec![None, Some(0), Some(1), Some(1)];
    assert_eq!(get_top_parent(3, &parents), 0);
    assert_eq!(get_top_parent(2, &parents), 0);
    assert_eq!(get_top_parent(0, &parents), 0);
    // A malformed cyclic hierarchy cannot hang the walk.
    let cycle: Vec<Option<usize>> = vec![Some(1), Some(0)];
    let r = get_top_parent(0, &cycle);
    assert!(r < 2);
}
