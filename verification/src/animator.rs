//! The wobble drawn after the cursor has been thrown: an endless, fixed
//! sequence of small relative moves.
//!
//! The sequence is made of bursts. A burst walks the four sides of a square
//! whose side is one of thirteen magnitudes and then yields the stop marker
//! `(0, 0)`. The magnitudes are taken in a fixed order, the walk turns through
//! four patterns in step with them, and after the last magnitude the sequence
//! starts over.

use vstd::prelude::*;

verus! {

/// The value that closes a burst.
pub const STOP_TREMBLING: (i32, i32) = (0, 0);

/// Number of values in a burst: four sides and the stop marker.
pub const BURST_LEN: usize = 5;

/// Number of values after which the sequence repeats.
pub const PERIOD: usize = 65;

/// Side length of the square walked by burst `k` of a round.
pub open spec fn magnitude(k: int) -> int {
    seq![15int, 8, 10, 9, 16, 7, 18, 13, 6, 11, 19, 12, 17][k]
}

/// Side `side` (0 to 3) of the square of side length `dist`, walked in
/// pattern `pattern` (0 to 3).
///
/// ```text
///  pattern 2   pattern 0
///   2 < 1       1 > 2
///   v   ^       ^   v
///   3 > 0       0 < 3
///  pattern 1   pattern 3
///   1 < 0       0 > 1
///   v   ^       ^   v
///   2 > 3       3 < 2
/// ```
pub open spec fn side_move(pattern: int, side: int, dist: int) -> (int, int) {
    let up = (0int, dist);
    let right = (dist, 0int);
    let down = (0int, -dist);
    let left = (-dist, 0int);
    if pattern == 0 {
        seq![up, right, down, left][side]
    } else if pattern == 1 {
        seq![left, down, right, up][side]
    } else if pattern == 2 {
        seq![up, left, down, right][side]
    } else {
        seq![right, down, left, up][side]
    }
}

/// The `n`-th value of the sequence, counted from zero.
pub open spec fn tremble(n: nat) -> (int, int) {
    let phase = n as int % PERIOD as int;
    let burst = phase / BURST_LEN as int;
    let side = phase % BURST_LEN as int;
    if side == BURST_LEN - 1 {
        (0, 0)
    } else {
        side_move(burst % 4, side, magnitude(burst))
    }
}

/// Generator of the wobble sequence. It can only be restarted by making a
/// new one.
pub struct Animator {
    burst: usize,
    side: usize,
    produced: Ghost<nat>,
}

impl Animator {
    #[verifier::type_invariant]
    spec fn inv(self) -> bool {
        &&& self.burst * BURST_LEN + self.side < PERIOD
        &&& self.side < BURST_LEN
        &&& self.produced@ % PERIOD as nat == self.burst * BURST_LEN + self.side
    }

    /// How many values this generator has yielded so far.
    pub closed spec fn produced(&self) -> nat {
        self.produced@
    }

    /// Yields the next value: the `n`-th value of the sequence, where `n` is
    /// the number of values yielded before.
    pub fn next(&mut self) -> (step: (i32, i32))
        ensures
            (step.0 as int, step.1 as int) == tremble(old(self).produced()),
            final(self).produced() == old(self).produced() + 1,
    {
        proof {
            use_type_invariant(&*self);
        }
        let step = if self.side == 4 {
            STOP_TREMBLING
        } else {
            side_step(self.burst % 4, self.side, magnitude_at(self.burst))
        };
        let (burst, side): (usize, usize) = if self.side < 4 {
            (self.burst, self.side + 1)
        } else if self.burst < 12 {
            (self.burst + 1, 0)
        } else {
            (0, 0)
        };
        *self = Animator { burst, side, produced: Ghost((self.produced@ + 1) as nat) };
        step
    }
}

/// A fresh generator, about to yield the first value of the sequence.
pub fn trembles() -> (animator: Animator)
    ensures
        animator.produced() == 0,
{
    Animator { burst: 0, side: 0, produced: Ghost(0) }
}

/// Whether `step` is the marker that closes a burst.
pub fn is_stop(step: (i32, i32)) -> (stop: bool)
    ensures
        stop == (step.0 == 0 && step.1 == 0),
{
    step.0 == STOP_TREMBLING.0 && step.1 == STOP_TREMBLING.1
}

fn magnitude_at(k: usize) -> (dist: i32)
    requires
        k < 13,
    ensures
        dist == magnitude(k as int),
        6 <= dist <= 19,
{
    let table: [i32; 13] = [15, 8, 10, 9, 16, 7, 18, 13, 6, 11, 19, 12, 17];
    table[k]
}

fn side_step(pattern: usize, side: usize, dist: i32) -> (step: (i32, i32))
    requires
        pattern < 4,
        side < 4,
        -1000 <= dist <= 1000,
    ensures
        (step.0 as int, step.1 as int) == side_move(pattern as int, side as int, dist as int),
{
    match (pattern, side) {
        (0, 0) | (2, 0) | (1, 3) | (3, 3) => (0, dist),
        (0, 1) | (1, 2) | (2, 3) | (3, 0) => (dist, 0),
        (0, 2) | (2, 2) | (1, 1) | (3, 1) => (0, -dist),
        _ => (-dist, 0),
    }
}

/// The stop marker is yielded at the end of every burst and nowhere else:
/// each run of five values holds it exactly once, in the last place.
pub proof fn lemma_stop_closes_each_burst(n: nat)
    ensures
        tremble(n) == (0int, 0int) <==> n % 5 == 4,
{
}

/// The sequence repeats after sixty-five values.
pub proof fn lemma_tremble_repeats(n: nat)
    ensures
        tremble(n + 65) == tremble(n),
{
}

/// Every value that is not the stop marker moves along one axis only, by the
/// magnitude of its burst.
pub proof fn lemma_side_length(n: nat)
    requires
        n % 5 != 4,
    ensures
        ({
            let (dx, dy) = tremble(n);
            let dist = magnitude((n as int % 65) / 5);
            (dx == 0 && (dy == dist || dy == -dist)) || (dy == 0 && (dx == dist || dx == -dist))
        }),
{
}

/// A burst is a closed path: its four sides add up to no movement at all.
pub proof fn lemma_burst_returns_to_origin(n: nat)
    requires
        n % 5 == 0,
    ensures
        tremble(n).0 + tremble(n + 1).0 + tremble(n + 2).0 + tremble(n + 3).0 == 0,
        tremble(n).1 + tremble(n + 1).1 + tremble(n + 2).1 + tremble(n + 3).1 == 0,
{
}

} // verus!
