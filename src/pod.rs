//! The kinematic state of a controlled pod, updated once per tick.
use vstd::prelude::*;

use crate::geometry::{Position, Vector};
use crate::policy::{BoostPolicy, BOOSTS_PER_RACE};

verus! {

/// The velocity seen between two ticks: the move since the previous
/// position, or none before a previous position is known.
pub open spec fn derived_velocity(previous: Option<Position>, now: Position) -> Vector {
    match previous {
        Some(p) => Vector { x: (now.x - p.x) as i64, y: (now.y - p.y) as i64 },
        None => Vector { x: 0, y: 0 },
    }
}

/// A pod whose velocity is derived from its successive positions.
pub struct PodInfo {
    pub last_position: Option<Position>,
    pub position: Option<Position>,
    pub speed: Vector,
}

impl PodInfo {
    pub fn new() -> (r: PodInfo)
        ensures
            r.last_position.is_none(),
            r.position.is_none(),
            r.speed == (Vector { x: 0, y: 0 }),
    {
        PodInfo { last_position: None, position: None, speed: Vector::zero() }
    }

    /// Records the position of this tick and derives the velocity from it.
    pub fn new_position(&mut self, x: i32, y: i32)
        ensures
            final(self).last_position == old(self).position,
            final(self).position == Some(Position { x, y }),
            final(self).speed == derived_velocity(old(self).position, Position { x, y }),
    {
        self.last_position = self.position;
        self.position = Some(Position::new(x, y));
        self.speed = match self.last_position {
            Some(p) => Vector { x: x as i64 - p.x as i64, y: y as i64 - p.y as i64 },
            None => Vector::zero(),
        };
    }
}

/// A pod whose full state comes with each observation.
pub struct PodState {
    pub position: Position,
    pub speed: Vector,
    /// Heading in degrees.
    pub angle: i32,
    /// Index of the checkpoint the pod is heading for.
    pub next_checkpoint: usize,
    pub boost: BoostPolicy,
}

impl PodState {
    /// The state of a pod at the start of a race, with its full boost budget.
    pub fn new(x: i32, y: i32, speed_x: i32, speed_y: i32, angle: i32, next_checkpoint: usize) -> (r:
        PodState)
        ensures
            r.position == (Position { x, y }),
            r.speed == (Vector { x: speed_x as i64, y: speed_y as i64 }),
            r.angle == angle,
            r.next_checkpoint == next_checkpoint,
            r.boost.remaining == BOOSTS_PER_RACE,
    {
        PodState {
            position: Position::new(x, y),
            speed: Vector { x: speed_x as i64, y: speed_y as i64 },
            angle,
            next_checkpoint,
            boost: BoostPolicy::new(),
        }
    }

    /// Takes in the observation of a new tick; the boost budget carries over.
    pub fn update(&mut self, x: i32, y: i32, speed_x: i32, speed_y: i32, angle: i32, next_checkpoint: usize)
        ensures
            final(self).position == (Position { x, y }),
            final(self).speed == (Vector { x: speed_x as i64, y: speed_y as i64 }),
            final(self).angle == angle,
            final(self).next_checkpoint == next_checkpoint,
            final(self).boost == old(self).boost,
    {
        self.position = Position::new(x, y);
        self.speed = Vector { x: speed_x as i64, y: speed_y as i64 };
        self.angle = angle;
        self.next_checkpoint = next_checkpoint;
    }
}

} // verus!
