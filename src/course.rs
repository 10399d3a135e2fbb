//! Checkpoint memory: a course given up front, or one learned while racing.
use vstd::arithmetic::div_mod::{
    lemma_fundamental_div_mod, lemma_mod_multiples_vanish, lemma_mod_self_0, lemma_small_mod,
};
use vstd::prelude::*;

use crate::geometry::Position;

verus! {

/// The index that follows `index` on a cyclic course of `count` checkpoints.
pub open spec fn next_index(index: int, count: int) -> int {
    (index + 1) % count
}

proof fn lemma_next_index(i: int, count: int)
    requires
        0 <= i < count,
    ensures
        next_index(i, count) == if i + 1 == count {
            0
        } else {
            i + 1
        },
{
    if i + 1 == count {
        lemma_mod_self_0(count);
    } else {
        lemma_small_mod((i + 1) as nat, count as nat);
    }
}

/// A course whose checkpoints are known from the start, in racing order.
pub struct Course {
    pub checkpoints: Vec<Position>,
}

impl Course {
    pub fn new(checkpoints: Vec<Position>) -> (r: Course)
        ensures
            r.checkpoints@ == checkpoints@,
    {
        Course { checkpoints }
    }

    /// The checkpoint that follows `index`, wrapping around the lap.
    pub fn resolve_next(&self, index: usize) -> (r: Position)
        requires
            self.checkpoints@.len() > 0,
        ensures
            r == self.checkpoints@[next_index(index as int, self.checkpoints@.len() as int)],
    {
        let count = self.checkpoints.len();
        let i = index % count;
        proof {
            lemma_fundamental_div_mod(index as int, count as int);
            lemma_mod_multiples_vanish(
                (index as int) / (count as int),
                i as int + 1,
                count as int,
            );
            lemma_next_index(i as int, count as int);
        }
        if i + 1 == count {
            self.checkpoints[0]
        } else {
            self.checkpoints[i + 1]
        }
    }
}

/// The checkpoints of a course learned from the stream of targets, in the
/// order they were first seen, and whether the first lap is still running.
pub struct DiscoveredCourse {
    pub checkpoints: Vec<Position>,
    pub first_lap: bool,
}

/// No checkpoint appears twice.
pub open spec fn distinct(s: Seq<Position>) -> bool {
    forall|i: int, j: int| 0 <= i < j < s.len() ==> s[i] != s[j]
}

impl DiscoveredCourse {
    pub open spec fn wf(&self) -> bool {
        distinct(self.checkpoints@)
    }

    pub fn new() -> (r: DiscoveredCourse)
        ensures
            r.checkpoints@ == Seq::<Position>::empty(),
            r.first_lap,
            r.wf(),
    {
        DiscoveredCourse { checkpoints: Vec::new(), first_lap: true }
    }

    /// The index of `p` among the known checkpoints, if it is one.
    pub fn find(&self, p: &Position) -> (r: Option<usize>)
        ensures
            match r {
                Some(i) => i < self.checkpoints@.len() && self.checkpoints@[i as int] == *p,
                None => !self.checkpoints@.contains(*p),
            },
    {
        let mut i: usize = 0;
        while i < self.checkpoints.len()
            invariant
                i <= self.checkpoints@.len(),
                forall|j: int| 0 <= j < i ==> self.checkpoints@[j] != *p,
            decreases self.checkpoints@.len() - i,
        {
            if self.checkpoints[i] == *p {
                return Some(i);
            }
            i = i + 1;
        }
        None
    }

    /// Records the target `p`: a new checkpoint is appended, a known one
    /// keeps its place. Returns its index. The first lap ends when the
    /// target is a known checkpoint other than the last one found.
    pub fn observe(&mut self, p: &Position) -> (index: usize)
        requires
            old(self).wf(),
            old(self).checkpoints@.len() < usize::MAX,
        ensures
            final(self).wf(),
            old(self).checkpoints@.contains(*p) ==> final(self).checkpoints@ == old(
                self,
            ).checkpoints@,
            !old(self).checkpoints@.contains(*p) ==> final(self).checkpoints@ == old(
                self,
            ).checkpoints@.push(*p),
            index < final(self).checkpoints@.len(),
            final(self).checkpoints@[index as int] == *p,
            final(self).first_lap == (old(self).first_lap && index + 1
                == final(self).checkpoints@.len()),
    {
        let index = match self.find(p) {
            Some(i) => i,
            None => {
                self.checkpoints.push(*p);
                self.checkpoints.len() - 1
            },
        };
        if self.first_lap && index + 1 < self.checkpoints.len() {
            self.first_lap = false;
        }
        index
    }

    /// The checkpoint after the one at `index`, once the whole lap is known.
    pub fn next_after(&self, index: usize) -> (r: Option<Position>)
        requires
            index < self.checkpoints@.len(),
        ensures
            self.first_lap ==> r.is_none(),
            !self.first_lap ==> r == Some(
                self.checkpoints@[next_index(index as int, self.checkpoints@.len() as int)],
            ),
    {
        proof {
            lemma_next_index(index as int, self.checkpoints@.len() as int);
        }
        if self.first_lap {
            None
        } else if index == self.checkpoints.len() - 1 {
            Some(self.checkpoints[0])
        } else {
            Some(self.checkpoints[index + 1])
        }
    }
}

} // verus!
