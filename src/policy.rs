//! Engine power: the thrust decision table and the one-shot boost.
use vstd::prelude::*;

verus! {

/// The least thrust worth giving: used whenever the pod should slow down.
pub const MIN_THRUST: u8 = 15;

/// Full power.
pub const MAX_THRUST: u8 = 100;

/// Boosts a pod holds at the start of a race.
pub const BOOSTS_PER_RACE: u32 = 1;

/// What is known of the turn that follows the next checkpoint.
#[derive(Clone, Copy, Debug, PartialEq, Eq, Structural)]
pub enum UpcomingTurn {
    /// The checkpoint after the next one is not known yet.
    Unknown,
    /// The path bends by less than 110° at the checkpoint.
    Sharp,
    /// The path bends gently, or not at all.
    Gentle,
}

/// The thrust for a tick, first matching rule first.
pub open spec fn thrust_for(misaligned: bool, near: bool, upcoming: UpcomingTurn, speed_sq: int) -> int {
    if misaligned {
        MIN_THRUST as int
    } else if near {
        match upcoming {
            UpcomingTurn::Unknown => if speed_sq > 500 * 500 {
                MIN_THRUST as int
            } else {
                MAX_THRUST as int
            },
            UpcomingTurn::Sharp => if speed_sq > 400 * 400 {
                MIN_THRUST as int
            } else {
                MAX_THRUST as int
            },
            UpcomingTurn::Gentle => MAX_THRUST as int,
        }
    } else {
        MAX_THRUST as int
    }
}

/// Decides the engine power from the heading error being above 70°
/// (`misaligned`), the pod being close to the checkpoint (`near`), the turn
/// ahead, and the squared speed.
pub fn decide_thrust(misaligned: bool, near: bool, upcoming: UpcomingTurn, speed_sq: u128) -> (r: u8)
    ensures
        r == thrust_for(misaligned, near, upcoming, speed_sq as int),
        MIN_THRUST <= r <= MAX_THRUST,
        misaligned ==> r == MIN_THRUST,
        !misaligned && !near ==> r == MAX_THRUST,
{
    if misaligned {
        MIN_THRUST
    } else if near {
        match upcoming {
            UpcomingTurn::Unknown => if speed_sq > 500 * 500 {
                MIN_THRUST
            } else {
                MAX_THRUST
            },
            UpcomingTurn::Sharp => if speed_sq > 400 * 400 {
                MIN_THRUST
            } else {
                MAX_THRUST
            },
            UpcomingTurn::Gentle => MAX_THRUST,
        }
    } else {
        MAX_THRUST
    }
}

/// The boost budget of one pod.
#[derive(Clone, Copy, Debug, PartialEq, Eq, Structural)]
pub struct BoostPolicy {
    pub remaining: u32,
}

/// Whether a boost fires with `remaining` boosts left under the given conditions.
pub open spec fn boost_fires(remaining: int, far: bool, aligned: bool) -> bool {
    remaining > 0 && far && aligned
}

/// The number of boosts fired over a sequence of ticks, each given as
/// (far from the checkpoint, aligned with it), starting with `remaining` left.
pub open spec fn boosts_fired(remaining: int, ticks: Seq<(bool, bool)>) -> int
    decreases ticks.len(),
{
    if ticks.len() == 0 {
        0
    } else {
        let fired = boost_fires(remaining, ticks[0].0, ticks[0].1);
        let left = if fired {
            remaining - 1
        } else {
            remaining
        };
        (if fired {
            1int
        } else {
            0
        }) + boosts_fired(left, ticks.drop_first())
    }
}

impl BoostPolicy {
    pub fn new() -> (r: BoostPolicy)
        ensures
            r.remaining == BOOSTS_PER_RACE,
    {
        BoostPolicy { remaining: BOOSTS_PER_RACE }
    }

    /// Fires the boost when one is left, the checkpoint is far and the pod
    /// is aligned with it; firing spends it.
    pub fn try_boost(&mut self, far: bool, aligned: bool) -> (fired: bool)
        ensures
            fired == boost_fires(old(self).remaining as int, far, aligned),
            final(self).remaining == if fired {
                old(self).remaining - 1
            } else {
                old(self).remaining as int
            },
    {
        if self.remaining > 0 && far && aligned {
            self.remaining = self.remaining - 1;
            true
        } else {
            false
        }
    }
}

/// Over any sequence of ticks a pod never fires more boosts than it holds.
pub proof fn lemma_boosts_bounded(remaining: int, ticks: Seq<(bool, bool)>)
    requires
        remaining >= 0,
    ensures
        0 <= boosts_fired(remaining, ticks) <= remaining,
    decreases ticks.len(),
{
    if ticks.len() > 0 {
        let fired = boost_fires(remaining, ticks[0].0, ticks[0].1);
        let left = if fired {
            remaining - 1
        } else {
            remaining
        };
        lemma_boosts_bounded(left, ticks.drop_first());
    }
}

/// The boosts left after a sequence of ticks, starting with `remaining`.
pub open spec fn boosts_left(remaining: int, ticks: Seq<(bool, bool)>) -> int
    decreases ticks.len(),
{
    if ticks.len() == 0 {
        remaining
    } else if boost_fires(remaining, ticks[0].0, ticks[0].1) {
        boosts_left(remaining - 1, ticks.drop_first())
    } else {
        boosts_left(remaining, ticks.drop_first())
    }
}

proof fn lemma_boosts_left(remaining: int, ticks: Seq<(bool, bool)>)
    ensures
        boosts_left(remaining, ticks) == remaining - boosts_fired(remaining, ticks),
    decreases ticks.len(),
{
    if ticks.len() > 0 {
        if boost_fires(remaining, ticks[0].0, ticks[0].1) {
            lemma_boosts_left(remaining - 1, ticks.drop_first());
        } else {
            lemma_boosts_left(remaining, ticks.drop_first());
        }
    }
}

/// A pod starting a race fires its boost at most once over any sequence of
/// ticks; once it has fired, no later tick fires again, whatever its
/// conditions.
pub proof fn lemma_boost_fires_at_most_once(ticks: Seq<(bool, bool)>, later: Seq<(bool, bool)>)
    ensures
        boosts_fired(BOOSTS_PER_RACE as int, ticks) <= 1,
        boosts_fired(BOOSTS_PER_RACE as int, ticks) == 1 ==> boosts_fired(
            boosts_left(BOOSTS_PER_RACE as int, ticks),
            later,
        ) == 0,
{
    lemma_boosts_bounded(BOOSTS_PER_RACE as int, ticks);
    lemma_boosts_left(BOOSTS_PER_RACE as int, ticks);
    lemma_boosts_bounded(0, later);
}

} // verus!
