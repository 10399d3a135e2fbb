use pod_racers::aim::solve_aim;
use pod_racers::controller::{steer, Command, Controller, Observation, Power};
use pod_racers::course::{Course, DiscoveredCourse};
use pod_racers::geometry::{intersect_lines, isqrt, Position, Vector};
use pod_racers::pod::{PodInfo, PodState};
use pod_racers::policy::{decide_thrust, BoostPolicy, UpcomingTurn};

fn v(x: i64, y: i64) -> Vector {
    Vector { x, y }
}

fn line(c: &Command) -> String {
    match c.power {
        Power::Boost => format!("{} {} BOOST", c.target_x, c.target_y),
        Power::Thrust(t) => format!("{} {} {}", c.target_x, c.target_y, t),
    }
}

#[test]
fn rotate_by_zero_keeps_vector() {
    for w in [v(3, -7), v(0, 0), v(-12, 5), v(100000, 1)] {
        assert_eq!(w.rotate(0), w);
    }
}

#[test]
fn rotate_and_back_gives_vector() {
    let w = v(3, -7);
    for k in [-9i64, -4, -1, 1, 2, 3, 5, 1000] {
        assert_eq!(w.rotate(k).rotate(-k), w);
    }
    assert_eq!(w.rotate(1), v(7, 3));
    assert_eq!(w.rotate(2), v(-3, 7));
    assert_eq!(w.rotate(-1), v(-7, -3));
}

#[test]
fn angle_to_self_is_zero() {
    for w in [v(3, -7), v(-1, 0), v(0, 5), v(123, 456)] {
        let a = w.get_angle(&w);
        assert!(a.is_zero());
        assert!(!a.is_half_turn());
    }
}

#[test]
fn angle_to_opposite_is_half_turn() {
    for w in [v(3, -7), v(-1, 0), v(0, 5), v(123, 456)] {
        let a = w.get_angle(&v(-w.x, -w.y));
        assert!(a.is_half_turn());
        assert!(!a.is_zero());
    }
}

#[test]
fn angle_thresholds() {
    // 45 degrees
    let a = v(1, 0).get_angle(&v(1, 1));
    assert!(a.below_right());
    assert!(!a.above_70());
    assert!(!a.below_15());
    assert!(a.below_110());
    // 80 degrees, roughly
    let b = v(1, 0).get_angle(&v(176, 1000));
    assert!(b.above_70());
    // 100 degrees, roughly, and 120 degrees, roughly
    assert!(v(1, 0).get_angle(&v(-176, 1000)).below_110());
    assert!(!v(1, 0).get_angle(&v(-577, 1000)).below_110());
    // 10 degrees, roughly
    assert!(v(1, 0).get_angle(&v(1000, 176)).below_15());
}

#[test]
fn intersect_lines_meets_at_crossing_point() {
    let p = v(250, -40);
    let b = v(3, 1);
    let d = v(-2, 5);
    let a = v(p.x - 7 * b.x, p.y - 7 * b.y);
    let c = v(p.x + 4 * d.x, p.y + 4 * d.y);
    assert_eq!(intersect_lines(&a, &b, &c, &d), p);
}

#[test]
fn intersect_lines_truncates_toward_zero() {
    // lines: (0, 0) + t(2, 1) and (5, 0) + u(0, 1) cross at (5, 2.5).
    let r = intersect_lines(&v(0, 0), &v(2, 1), &v(5, 0), &v(0, 1));
    assert_eq!(r, v(5, 2));
    // (0, 0) + t(-2, -1) and (-5, 0) + u(0, 1) cross at (-5, -2.5).
    let r = intersect_lines(&v(0, 0), &v(-2, -1), &v(-5, 0), &v(0, 1));
    assert_eq!(r, v(-5, -2));
}

#[test]
fn aim_at_rest_is_checkpoint() {
    for (px, py, cx, cy) in [(0, 0, 1000, 0), (-300, 77, 4000, -2500), (5, 5, 5, 5)] {
        let r = solve_aim(&Position::new(px, py), &v(0, 0), &Position::new(cx, cy));
        assert_eq!(r, v(cx as i64, cy as i64));
    }
}

#[test]
fn aim_moving_away_is_checkpoint() {
    let r = solve_aim(&Position::new(0, 0), &v(-10, 3), &Position::new(1000, 0));
    assert_eq!(r, v(1000, 0));
    // at right angles: not toward the checkpoint either
    let r = solve_aim(&Position::new(0, 0), &v(0, 10), &Position::new(1000, 0));
    assert_eq!(r, v(1000, 0));
}

#[test]
fn aim_degenerate_components_is_checkpoint() {
    // the perpendicular (-300, 1000) and the velocity share their x component
    let r = solve_aim(&Position::new(0, 0), &v(-300, 2000), &Position::new(1000, 300));
    assert_eq!(r, v(1000, 300));
    // ... or their y component
    let r = solve_aim(&Position::new(0, 0), &v(700, 1000), &Position::new(1000, 300));
    assert_eq!(r, v(1000, 300));
}

#[test]
fn aim_lead_point_within_radius() {
    let r = solve_aim(&Position::new(0, 0), &v(10, 5), &Position::new(1000, 0));
    assert_eq!(r, v(1000, 500));
}

#[test]
fn aim_lead_point_clamped_to_radius() {
    let r = solve_aim(&Position::new(0, 0), &v(10, 10), &Position::new(1000, 0));
    assert_eq!(r, v(1000, 600));
    let r = solve_aim(&Position::new(0, 0), &v(10, 0), &Position::new(1000, 1000));
    assert_eq!(r, v(1424, 575));
}

#[test]
fn aim_never_beyond_radius() {
    let checkpoints = [(1000, 0), (1000, 1000), (-2500, 300), (0, -4000), (7, 9)];
    let velocities = [(10, 5), (10, 10), (10, 0), (-3, 250), (400, -399), (1, 1), (-50, -70)];
    for (cx, cy) in checkpoints {
        for (vx, vy) in velocities {
            let r = solve_aim(&Position::new(0, 0), &v(vx, vy), &Position::new(cx, cy));
            assert!((r.x - cx as i64).abs() <= 600);
            assert!((r.y - cy as i64).abs() <= 600);
        }
    }
}

#[test]
fn thrust_misaligned_is_minimum() {
    for near in [false, true] {
        for turn in [UpcomingTurn::Unknown, UpcomingTurn::Sharp, UpcomingTurn::Gentle] {
            for speed_sq in [0u128, 100, 1_000_000] {
                assert_eq!(decide_thrust(true, near, turn, speed_sq), 15);
            }
        }
    }
}

#[test]
fn thrust_aligned_and_far_is_full() {
    for turn in [UpcomingTurn::Unknown, UpcomingTurn::Sharp, UpcomingTurn::Gentle] {
        for speed_sq in [0u128, 100, 1_000_000] {
            assert_eq!(decide_thrust(false, false, turn, speed_sq), 100);
        }
    }
}

#[test]
fn thrust_near_checkpoint() {
    assert_eq!(decide_thrust(false, true, UpcomingTurn::Unknown, 501 * 501), 15);
    assert_eq!(decide_thrust(false, true, UpcomingTurn::Unknown, 500 * 500), 100);
    assert_eq!(decide_thrust(false, true, UpcomingTurn::Sharp, 401 * 401), 15);
    assert_eq!(decide_thrust(false, true, UpcomingTurn::Sharp, 400 * 400), 100);
    assert_eq!(decide_thrust(false, true, UpcomingTurn::Gentle, 900 * 900), 100);
}

#[test]
fn boost_fires_once() {
    let mut b = BoostPolicy::new();
    assert!(!b.try_boost(false, true));
    assert!(!b.try_boost(true, false));
    assert!(b.try_boost(true, true));
    for _ in 0..100 {
        assert!(!b.try_boost(true, true));
    }
    assert_eq!(b.remaining, 0);
}

#[test]
fn discovered_course_closes_after_one_lap() {
    let a = Position::new(100, 200);
    let b = Position::new(5000, 800);
    let c = Position::new(9000, 4000);
    let mut course = DiscoveredCourse::new();
    let mut seen = Vec::new();
    let mut laps = Vec::new();
    for p in [a, b, c, a, b, c] {
        seen.push(course.observe(&p));
        laps.push(course.first_lap);
    }
    assert_eq!(seen, vec![0, 1, 2, 0, 1, 2]);
    assert_eq!(course.checkpoints, vec![a, b, c]);
    assert_eq!(laps, vec![true, true, true, false, false, false]);
    assert_eq!(course.next_after(2), Some(a));
    assert_eq!(course.next_after(0), Some(b));
}

#[test]
fn discovered_course_unknown_next_on_first_lap() {
    let mut course = DiscoveredCourse::new();
    let i = course.observe(&Position::new(1, 1));
    assert_eq!(course.next_after(i), None);
    // the same target twice does not end the lap
    let j = course.observe(&Position::new(1, 1));
    assert_eq!(i, j);
    assert!(course.first_lap);
}

#[test]
fn course_resolves_next_with_wraparound() {
    let cps = vec![Position::new(1, 2), Position::new(3, 4), Position::new(5, 6)];
    let course = Course::new(cps.clone());
    assert_eq!(course.resolve_next(0), cps[1]);
    assert_eq!(course.resolve_next(1), cps[2]);
    assert_eq!(course.resolve_next(2), cps[0]);
    assert_eq!(course.resolve_next(7), cps[2]);
    assert_eq!(course.resolve_next(usize::MAX), cps[1]);
}

#[test]
fn pod_velocity_from_positions() {
    let mut pod = PodInfo::new();
    pod.new_position(10, 20);
    assert_eq!(pod.speed, v(0, 0));
    pod.new_position(15, 12);
    assert_eq!(pod.speed, v(5, -8));
    assert_eq!(pod.last_position, Some(Position::new(10, 20)));
    assert_eq!(pod.position, Some(Position::new(15, 12)));
}

#[test]
fn square_roots() {
    assert_eq!(isqrt(0), 0);
    assert_eq!(isqrt(1), 1);
    assert_eq!(isqrt(15), 3);
    assert_eq!(isqrt(16), 4);
    assert_eq!(isqrt(u64::MAX), 0xffff_ffff);
    assert_eq!(v(3, 4).module(), 5);
    assert_eq!(v(-16000, 9000).module(), 18357);
    assert_eq!(v(3, 4).module_squared(), 25);
    assert_eq!(v(3, 4).dot_product(&v(-4, 3)), 0);
    assert_eq!(v(3, 4).determinant(&v(-4, 3)), 25);
}

#[test]
fn end_to_end_at_rest_full_thrust() {
    let mut controller = Controller::new();
    controller.boost.remaining = 0;
    let obs = Observation { x: 0, y: 0, checkpoint_x: 1000, checkpoint_y: 0, distance: 1000, angle: 0 };
    let cmd = controller.tick(&obs);
    assert_eq!(cmd, Command { target_x: 1000, target_y: 0, power: Power::Thrust(100) });
    assert_eq!(line(&cmd), "1000 0 100");
}

#[test]
fn controller_heading_80_degrees_slows_down() {
    let mut controller = Controller::new();
    for distance in [100, 2000, 9000] {
        let obs = Observation { x: 0, y: 0, checkpoint_x: 1000, checkpoint_y: 0, distance, angle: 80 };
        assert_eq!(controller.tick(&obs).power, Power::Thrust(15));
    }
}

#[test]
fn controller_boosts_once_when_far_and_aligned() {
    let mut controller = Controller::new();
    let far = Observation { x: 0, y: 0, checkpoint_x: 12000, checkpoint_y: 0, distance: 12000, angle: 3 };
    assert_eq!(controller.tick(&far).power, Power::Boost);
    assert_eq!(controller.tick(&far).power, Power::Thrust(100));
    assert_eq!(controller.boost.remaining, 0);
}

#[test]
fn controller_slows_for_unknown_turn_when_fast() {
    let mut controller = Controller::new();
    let first = Observation { x: 0, y: 0, checkpoint_x: 3000, checkpoint_y: 0, distance: 3000, angle: 0 };
    controller.tick(&first);
    let second = Observation { x: 600, y: 0, checkpoint_x: 3000, checkpoint_y: 0, distance: 2400, angle: 0 };
    let cmd = controller.tick(&second);
    assert_eq!(cmd.power, Power::Thrust(15));
    assert_eq!((cmd.target_x, cmd.target_y), (3000, 0));
}

#[test]
fn steer_known_course() {
    let course = Course::new(vec![Position::new(1000, 0), Position::new(1000, 5000), Position::new(-4000, 0)]);
    let mut pod = PodState::new(0, 0, 0, 0, 0, 0);
    let cmd = steer(&mut pod, &course);
    assert_eq!(line(&cmd), "1000 0 100");
    // far away and aligned: boost, once
    let mut pod = PodState::new(4000, 5000, 0, -300, 90, 2);
    let course2 = Course::new(vec![Position::new(1000, 0), Position::new(4000, 5000), Position::new(4000, -2000)]);
    let cmd = steer(&mut pod, &course2);
    assert_eq!(cmd.power, Power::Boost);
    let cmd = steer(&mut pod, &course2);
    assert_eq!(cmd.power, Power::Thrust(100));
    pod.update(4000, 5000, 0, -300, 90, 2);
    assert_eq!(pod.boost.remaining, 0);
}

#[test]
fn steer_sharp_turn_near_checkpoint_when_fast() {
    // pod at (0, 0) moving fast toward (1000, 0); next checkpoint back near the pod
    let course = Course::new(vec![Position::new(1000, 0), Position::new(0, 100)]);
    let mut pod = PodState::new(0, 0, 500, 0, 0, 0);
    pod.boost.remaining = 0;
    let cmd = steer(&mut pod, &course);
    assert_eq!(cmd.power, Power::Thrust(15));
    // a gentle turn: the next checkpoint lies straight ahead
    let course = Course::new(vec![Position::new(1000, 0), Position::new(5000, 0)]);
    let cmd = steer(&mut pod, &course);
    assert_eq!(cmd.power, Power::Thrust(100));
}
