//! One tick of control: observation in, steering command out.
use vstd::prelude::*;

use crate::aim::{is_aim_point, offset, solve_aim, velocity_in_range};
use crate::course::{next_index, Course, DiscoveredCourse};
use crate::geometry::{abs, det, dot, norm_sq, Angle, Position, Vector};
use crate::pod::{derived_velocity, PodInfo, PodState};
use crate::policy::{
    boost_fires, decide_thrust, thrust_for, BoostPolicy, UpcomingTurn,
};

verus! {

/// The engine order of a command.
#[derive(Clone, Copy, Debug, PartialEq, Eq, Structural)]
pub enum Power {
    Thrust(u8),
    Boost,
}

/// One steering command: where to aim and with what power.
#[derive(Clone, Copy, Debug, PartialEq, Eq, Structural)]
pub struct Command {
    pub target_x: i64,
    pub target_y: i64,
    pub power: Power,
}

/// The square of the course diagonal, a 16000 × 9000 field.
pub const DIAGONAL_SQ: i128 = 337_000_000;

/// With a learned course: the checkpoint is close when it lies nearer than
/// a seventh of the course diagonal.
pub open spec fn near_checkpoint(distance: int) -> bool {
    distance < 0 || 49 * (distance * distance) < DIAGONAL_SQ
}

/// With a learned course: the checkpoint is far enough to boost when it
/// lies beyond the course diagonal divided by 2.7.
pub open spec fn far_from_checkpoint(distance: int) -> bool {
    distance > 0 && 729 * (distance * distance) > 100 * DIAGONAL_SQ
}

/// The heading error, in degrees, is above 70°.
pub open spec fn misaligned_degrees(angle: int) -> bool {
    abs(angle) > 70
}

/// The heading error, in degrees, is below 15°.
pub open spec fn aligned_degrees(angle: int) -> bool {
    abs(angle) < 15
}

/// The turn at `checkpoint`, from the angle between the directions from the
/// checkpoint to the pod and to the checkpoint after it.
pub open spec fn upcoming_turn(position: Position, checkpoint: Position, after: Option<Position>) -> UpcomingTurn {
    match after {
        None => UpcomingTurn::Unknown,
        Some(a) => {
            let to_pod = offset(checkpoint, position);
            let to_after = offset(checkpoint, a);
            if (Angle {
                cos_part: dot(to_pod, to_after) as i128,
                sin_part: det(to_pod, to_after) as i128,
            }).below_110_spec() {
                UpcomingTurn::Sharp
            } else {
                UpcomingTurn::Gentle
            }
        },
    }
}

proof fn lemma_small_products(a: Vector, b: Vector)
    requires
        velocity_in_range(a),
        velocity_in_range(b),
    ensures
        -0x200_0000_0000 <= dot(a, b) <= 0x200_0000_0000,
        -0x200_0000_0000 <= det(a, b) <= 0x200_0000_0000,
{
    assert(-0x200_0000_0000 <= dot(a, b) <= 0x200_0000_0000) by (nonlinear_arith)
        requires
            -1_000_000 <= a.x <= 1_000_000,
            -1_000_000 <= a.y <= 1_000_000,
            -1_000_000 <= b.x <= 1_000_000,
            -1_000_000 <= b.y <= 1_000_000,
    ;
    assert(-0x200_0000_0000 <= det(a, b) <= 0x200_0000_0000) by (nonlinear_arith)
        requires
            -1_000_000 <= a.x <= 1_000_000,
            -1_000_000 <= a.y <= 1_000_000,
            -1_000_000 <= b.x <= 1_000_000,
            -1_000_000 <= b.y <= 1_000_000,
    ;
}

/// Classifies the turn at `checkpoint` toward `after`.
fn classify_turn(position: &Position, checkpoint: &Position, after: Option<Position>) -> (r: UpcomingTurn)
    requires
        position.in_world(),
        checkpoint.in_world(),
        after matches Some(a) ==> a.in_world(),
    ensures
        r == upcoming_turn(*position, *checkpoint, after),
{
    match after {
        None => UpcomingTurn::Unknown,
        Some(a) => {
            let centre = Vector::new(checkpoint);
            let to_pod = Vector::new(position).substract(&centre);
            let to_after = Vector::new(&a).substract(&centre);
            proof {
                lemma_small_products(to_pod, to_after);
            }
            let curve = to_pod.get_angle(&to_after);
            if curve.below_110() {
                UpcomingTurn::Sharp
            } else {
                UpcomingTurn::Gentle
            }
        },
    }
}

/// An observation of the learned-course protocol: the pod's position, its
/// next checkpoint, the distance to it and the heading error in degrees.
#[derive(Clone, Copy, Debug, PartialEq, Eq, Structural)]
pub struct Observation {
    pub x: i32,
    pub y: i32,
    pub checkpoint_x: i32,
    pub checkpoint_y: i32,
    pub distance: i32,
    pub angle: i32,
}

/// The controller of one pod on a course it learns while racing.
pub struct Controller {
    pub course: DiscoveredCourse,
    pub pod: PodInfo,
    pub boost: BoostPolicy,
}

impl Controller {
    pub open spec fn wf(&self) -> bool {
        &&& self.course.wf()
        &&& forall|i: int|
            0 <= i < self.course.checkpoints@.len() ==> #[trigger] self.course.checkpoints@[i].in_world()
        &&& self.pod.position matches Some(p) ==> p.in_world()
    }

    pub fn new() -> (r: Controller)
        ensures
            r.wf(),
            r.course.checkpoints@.len() == 0,
            r.course.first_lap,
            r.pod.position.is_none(),
            r.boost.remaining == crate::policy::BOOSTS_PER_RACE,
    {
        Controller { course: DiscoveredCourse::new(), pod: PodInfo::new(), boost: BoostPolicy::new() }
    }

    /// Runs one tick: tracks the pod, learns the checkpoint, aims, and picks
    /// thrust or boost.
    pub fn tick(&mut self, obs: &Observation) -> (r: Command)
        requires
            old(self).wf(),
            old(self).course.checkpoints@.len() < usize::MAX,
            (Position { x: obs.x, y: obs.y }).in_world(),
            (Position { x: obs.checkpoint_x, y: obs.checkpoint_y }).in_world(),
        ensures
            final(self).wf(),
            ({
                let position = Position { x: obs.x, y: obs.y };
                let checkpoint = Position { x: obs.checkpoint_x, y: obs.checkpoint_y };
                let velocity = derived_velocity(old(self).pod.position, position);
                let cps = final(self).course.checkpoints@;
                let index = cps.index_of(checkpoint);
                let after = if final(self).course.first_lap {
                    None
                } else {
                    Some(cps[next_index(index, cps.len() as int)])
                };
                let fired = boost_fires(
                    old(self).boost.remaining as int,
                    far_from_checkpoint(obs.distance as int),
                    aligned_degrees(obs.angle as int),
                );
                &&& final(self).pod.position == Some(position)
                &&& final(self).pod.speed == velocity
                &&& cps == if old(self).course.checkpoints@.contains(checkpoint) {
                    old(self).course.checkpoints@
                } else {
                    old(self).course.checkpoints@.push(checkpoint)
                }
                &&& 0 <= index < cps.len()
                &&& final(self).course.first_lap == (old(self).course.first_lap && index + 1
                    == cps.len())
                &&& final(self).boost.remaining == if fired {
                    old(self).boost.remaining - 1
                } else {
                    old(self).boost.remaining as int
                }
                &&& is_aim_point(position, velocity, checkpoint, Vector { x: r.target_x, y: r.target_y })
                &&& r.power == if fired {
                    Power::Boost
                } else {
                    Power::Thrust(
                        thrust_for(
                            misaligned_degrees(obs.angle as int),
                            near_checkpoint(obs.distance as int),
                            upcoming_turn(position, checkpoint, after),
                            norm_sq(velocity),
                        ) as u8,
                    )
                }
            }),
    {
        let ghost old_position = self.pod.position;
        self.pod.new_position(obs.x, obs.y);
        let position = Position::new(obs.x, obs.y);
        let checkpoint = Position::new(obs.checkpoint_x, obs.checkpoint_y);
        let index = self.course.observe(&checkpoint);
        proof {
            let cps = self.course.checkpoints@;
            assert(cps.index_of(checkpoint) == index) by {
                cps.index_of_first_ensures(checkpoint);
                let j = cps.index_of(checkpoint);
                assert(cps.contains(checkpoint));
                if j != index {
                    if j < index {
                        assert(cps[j] != cps[index as int]);
                    } else {
                        assert(cps[index as int] != cps[j]);
                    }
                }
            }
            assert forall|i: int| 0 <= i < cps.len() implies #[trigger] cps[i].in_world() by {
                if i == cps.len() - 1 && cps.len() > old(self).course.checkpoints@.len() {
                    assert(cps[i] == checkpoint);
                } else {
                    assert(cps[i] == old(self).course.checkpoints@[i]);
                }
            }
        }
        let after = self.course.next_after(index);
        let velocity = self.pod.speed;
        let aim = solve_aim(&position, &velocity, &checkpoint);
        let upcoming = classify_turn(&position, &checkpoint, after);
        proof {
            lemma_small_products(velocity, velocity);
            assert(norm_sq(velocity) >= 0) by (nonlinear_arith);
        }
        let speed_sq = velocity.module_squared();
        let thrust = decide_thrust(
            obs.angle > 70 || obs.angle < -70,
            near_distance(obs.distance),
            upcoming,
            speed_sq as u128,
        );
        let fired = self.boost.try_boost(
            far_distance(obs.distance),
            -15 < obs.angle && obs.angle < 15,
        );
        Command {
            target_x: aim.x,
            target_y: aim.y,
            power: if fired {
                Power::Boost
            } else {
                Power::Thrust(thrust)
            },
        }
    }
}

/// With a known course: the checkpoint is close within four capture radii.
pub const NEAR_DISTANCE: i128 = 2400;

/// With a known course: the checkpoint is far enough to boost beyond five
/// capture radii.
pub const BOOST_DISTANCE: i128 = 3000;

/// The heading error of a pod with a known course: the angle from its
/// direction to the checkpoint to its velocity.
pub open spec fn heading_error(position: Position, velocity: Vector, checkpoint: Position) -> Angle {
    let p = offset(position, checkpoint);
    Angle { cos_part: dot(p, velocity) as i128, sin_part: det(p, velocity) as i128 }
}

/// The pods and checkpoints of a known course lie in the world.
pub open spec fn steerable(pod: PodState, course: Course) -> bool {
    &&& course.checkpoints@.len() > 0
    &&& forall|i: int|
        0 <= i < course.checkpoints@.len() ==> #[trigger] course.checkpoints@[i].in_world()
    &&& pod.next_checkpoint < course.checkpoints@.len()
    &&& pod.position.in_world()
    &&& velocity_in_range(pod.speed)
}

/// Steers a pod on a course known from the start, toward the checkpoint
/// it is heading for, and spends its boost when it fires.
pub fn steer(pod: &mut PodState, course: &Course) -> (r: Command)
    requires
        steerable(*old(pod), *course),
    ensures
        ({
            let position = old(pod).position;
            let velocity = old(pod).speed;
            let cps = course.checkpoints@;
            let checkpoint = cps[old(pod).next_checkpoint as int];
            let after = cps[next_index(old(pod).next_checkpoint as int, cps.len() as int)];
            let dist_sq = norm_sq(offset(position, checkpoint));
            let heading = heading_error(position, velocity, checkpoint);
            let fired = boost_fires(
                old(pod).boost.remaining as int,
                dist_sq > BOOST_DISTANCE * BOOST_DISTANCE,
                heading.below_15_spec(),
            );
            &&& final(pod).position == position
            &&& final(pod).speed == velocity
            &&& final(pod).angle == old(pod).angle
            &&& final(pod).next_checkpoint == old(pod).next_checkpoint
            &&& final(pod).boost.remaining == if fired {
                old(pod).boost.remaining - 1
            } else {
                old(pod).boost.remaining as int
            }
            &&& is_aim_point(position, velocity, checkpoint, Vector { x: r.target_x, y: r.target_y })
            &&& r.power == if fired {
                Power::Boost
            } else {
                Power::Thrust(
                    thrust_for(
                        heading.above_70_spec(),
                        dist_sq < NEAR_DISTANCE * NEAR_DISTANCE,
                        upcoming_turn(position, checkpoint, Some(after)),
                        norm_sq(velocity),
                    ) as u8,
                )
            }
        }),
{
    let position = pod.position;
    let velocity = pod.speed;
    let checkpoint = course.checkpoints[pod.next_checkpoint];
    let after = course.resolve_next(pod.next_checkpoint);
    assert(checkpoint.in_world() && after.in_world()) by {
        let cps = course.checkpoints@;
        assert(cps[pod.next_checkpoint as int].in_world());
        let j = next_index(pod.next_checkpoint as int, cps.len() as int);
        assert(0 <= j < cps.len());
        assert(cps[j].in_world());
    }
    let aim = solve_aim(&position, &velocity, &checkpoint);
    let upcoming = classify_turn(&position, &checkpoint, Some(after));
    let to_checkpoint = Vector::new(&checkpoint).substract(&Vector::new(&position));
    proof {
        lemma_small_products(to_checkpoint, velocity);
        lemma_small_products(to_checkpoint, to_checkpoint);
        lemma_small_products(velocity, velocity);
        assert(norm_sq(velocity) >= 0) by (nonlinear_arith);
    }
    let heading = to_checkpoint.get_angle(&velocity);
    let dist_sq = to_checkpoint.module_squared();
    let speed_sq = velocity.module_squared();
    let thrust = decide_thrust(
        heading.above_70(),
        dist_sq < NEAR_DISTANCE * NEAR_DISTANCE,
        upcoming,
        speed_sq as u128,
    );
    let fired = pod.boost.try_boost(dist_sq > BOOST_DISTANCE * BOOST_DISTANCE, heading.below_15());
    Command {
        target_x: aim.x,
        target_y: aim.y,
        power: if fired {
            Power::Boost
        } else {
            Power::Thrust(thrust)
        },
    }
}

fn near_distance(distance: i32) -> (r: bool)
    ensures
        r == near_checkpoint(distance as int),
{
    let d = distance as i128;
    assert(0 <= d * d <= 0x4000_0000_0000_0000) by (nonlinear_arith)
        requires
            -0x8000_0000 <= d <= 0x8000_0000,
    ;
    let sq = d * d;
    d < 0 || 49 * sq < DIAGONAL_SQ
}

fn far_distance(distance: i32) -> (r: bool)
    ensures
        r == far_from_checkpoint(distance as int),
{
    let d = distance as i128;
    assert(0 <= d * d <= 0x4000_0000_0000_0000) by (nonlinear_arith)
        requires
            -0x8000_0000 <= d <= 0x8000_0000,
    ;
    let sq = d * d;
    d > 0 && 729 * sq > 100 * DIAGONAL_SQ
}

} // verus!
