//! A scheduler that serves one of a fixed number of calls in turn.

use vstd::arithmetic::div_mod::{lemma_fundamental_div_mod, lemma_fundamental_div_mod_converse};
use vstd::prelude::*;

verus! {

/// Whether the call at `index` may return without anything.
pub open spec fn returns_nothing<T, F: Fn(usize) -> Vec<T>>(call: F, index: int) -> bool {
    exists|nothing: Vec<T>| #[trigger]
        call.ensures((index as usize,), nothing) && nothing@.len() == 0
}

/// What one round does when it starts at `start`: it passes over `skipped`
/// calls that returned nothing. If a call is left, that call returned
/// `result`, which holds something, and the cursor stands behind it. If all
/// were passed over, the result holds nothing and the cursor is where it was.
pub open spec fn served<T, F: Fn(usize) -> Vec<T>>(
    call: F,
    count: int,
    start: int,
    skipped: int,
    result: Vec<T>,
    next: int,
) -> bool {
    &&& 0 <= skipped <= count
    &&& forall|j: int| 0 <= j < skipped ==> returns_nothing(call, #[trigger] ((start + j) % count))
    &&& if skipped < count {
        &&& result@.len() > 0
        &&& call.ensures((((start + skipped) % count) as usize,), result)
        &&& next == (start + skipped + 1) % count
    } else {
        &&& result@.len() == 0
        &&& next == start
    }
}

/// One step forward on a ring of `count` places.
pub proof fn lemma_ring_step(at: int, count: int)
    requires
        0 <= at,
        0 < count,
    ensures
        (at + 1) % count == if at % count + 1 == count {
            0
        } else {
            at % count + 1
        },
        0 <= at % count < count,
{
    lemma_fundamental_div_mod(at, count);
    let q = at / count;
    let r = at % count;
    assert(at == count * q + r);
    assert(count * q == q * count) by (nonlinear_arith);
    if r + 1 == count {
        assert(at + 1 == (q + 1) * count + 0) by (nonlinear_arith)
            requires
                at == q * count + r,
                r + 1 == count,
        ;
        lemma_fundamental_div_mod_converse(at + 1, count, q + 1, 0);
    } else {
        lemma_fundamental_div_mod_converse(at + 1, count, q, r + 1);
    }
}

/// A full turn of a ring of `count` places ends where it began.
pub proof fn lemma_ring_turn(start: int, count: int)
    requires
        0 <= start < count,
    ensures
        (start + count) % count == start,
        start % count == start,
{
    lemma_fundamental_div_mod_converse(start + count, count, 1, start);
    lemma_fundamental_div_mod_converse(start, count, 0, start);
}

/// The cursor of a round-robin schedule.
#[derive(Clone, Copy, Debug, PartialEq, Eq)]
pub struct RoundRobin {
    index: usize,
}

impl Default for RoundRobin {
    fn default() -> (schedule: RoundRobin)
        ensures
            schedule.cursor() == 0,
    {
        RoundRobin { index: 0 }
    }
}

impl RoundRobin {
    /// The place of the call that is tried first in the next round, before it
    /// is reduced to the number of calls of that round.
    pub closed spec fn cursor(&self) -> int {
        self.index as int
    }

    /// A schedule that starts with the first call.
    pub fn new() -> (schedule: RoundRobin)
        ensures
            schedule.cursor() == 0,
    {
        RoundRobin { index: 0 }
    }

    /// Serves the next of `count` calls, where `call` makes the call at the
    /// place it is given. Starting at the cursor, the calls are made in turn
    /// until one returns something; that result is returned, and the cursor
    /// then stands behind that call. When all `count` calls returned nothing,
    /// the result holds nothing and the cursor is where it was.
    pub fn call_next<T, F: Fn(usize) -> Vec<T>>(&mut self, count: usize, call: F) -> (result: Vec<T>)
        requires
            count > 0,
            forall|index: usize| index < count ==> call.requires((index,)),
        ensures
            0 <= final(self).cursor() < count,
            exists|skipped: int| #[trigger]
                served(
                    call,
                    count as int,
                    old(self).cursor() % (count as int),
                    skipped,
                    result,
                    final(self).cursor(),
                ),
    {
        let start: usize = self.index % count;
        let mut next: usize = start;
        let mut tried: usize = 0;
        proof {
            lemma_ring_turn(start as int, count as int);
        }
        while tried < count
            invariant
                count > 0,
                start < count,
                next < count,
                tried <= count,
                start == old(self).cursor() % (count as int),
                next == (start + tried) % (count as int),
                forall|index: usize| index < count ==> call.requires((index,)),
                forall|j: int|
                    0 <= j < tried ==> returns_nothing(
                        call,
                        #[trigger] ((start + j) % (count as int)),
                    ),
            decreases count - tried,
        {
            let result = call(next);
            let ghost at = next;
            proof {
                lemma_ring_step(start + tried, count as int);
            }
            next = if next + 1 == count {
                0
            } else {
                next + 1
            };
            if result.len() > 0 {
                self.index = next;
                proof {
                    assert(served(
                        call,
                        count as int,
                        old(self).cursor() % (count as int),
                        tried as int,
                        result,
                        self.cursor(),
                    ));
                }
                return result;
            }
            proof {
                assert(call.ensures((at,), result) && result@.len() == 0);
                assert(returns_nothing(call, at as int));
            }
            tried += 1;
        }
        self.index = next;
        let result: Vec<T> = Vec::new();
        proof {
            lemma_ring_turn(start as int, count as int);
            assert(served(
                call,
                count as int,
                old(self).cursor() % (count as int),
                count as int,
                result,
                self.cursor(),
            ));
        }
        result
    }
}

} // verus!
