//! Bresenham's line algorithm in any number of dimensions: which axes of a raster to step
//! along, move by move, to come close to the straight line between two points.

use vstd::prelude::*;

verus! {

/// The absolute value of a difference.
pub open spec fn spec_abs(delta: int) -> int {
    if delta < 0 {
        -delta
    } else {
        delta
    }
}

/// The sign of a difference: -1, 0 or 1.
pub open spec fn spec_signum(delta: int) -> int {
    if delta < 0 {
        -1
    } else if delta > 0 {
        1
    } else {
        0
    }
}

/// `index` is the first place of `lengths` that holds their maximum.
pub open spec fn is_first_maximum(lengths: Seq<i32>, index: int) -> bool {
    &&& 0 <= index < lengths.len()
    &&& forall|i: int| 0 <= i < lengths.len() ==> lengths[i] <= lengths[index]
    &&& forall|i: int| 0 <= i < index ==> lengths[i] < lengths[index]
}

/// A walk along the line from one point to another, one move at a time. Every move steps
/// along the axis with the biggest distance to travel, and along the other axes as often
/// as keeps the walk close to the line.
pub struct Bresenham<const N: usize> {
    signs: [i8; N],
    errors: [i32; N],
    lengths: [i32; N],
    longest_index: usize,
    count: i32,
    current_position: [i32; N],
    target: Ghost<Seq<int>>,
    owed: Ghost<Seq<int>>,
}

/// What a walk knows.
pub struct BresenhamView {
    /// The direction of travel along each axis: -1, 0 or 1.
    pub signs: Seq<i8>,
    /// The error term of each axis.
    pub errors: Seq<i32>,
    /// The distance between start and end along each axis.
    pub lengths: Seq<i32>,
    /// The first axis with the biggest distance.
    pub longest_index: int,
    /// The number of moves that are left.
    pub count: int,
    /// Where the walk stands.
    pub position: Seq<i32>,
    /// Where the walk ends.
    pub target: Seq<int>,
    /// The number of steps that each axis still has to take.
    pub owed: Seq<int>,
}

impl BresenhamView {
    /// The biggest distance.
    pub open spec fn longest(&self) -> int {
        self.lengths[self.longest_index] as int
    }

    /// What holds of a walk of `n` dimensions at all times.
    pub open spec fn well_formed(&self, n: int) -> bool {
        &&& n >= 2
        &&& self.signs.len() == n
        &&& self.errors.len() == n
        &&& self.lengths.len() == n
        &&& self.position.len() == n
        &&& self.target.len() == n
        &&& self.owed.len() == n
        &&& is_first_maximum(self.lengths, self.longest_index)
        &&& 0 <= self.count <= self.longest()
        &&& forall|i: int|
            0 <= i < n ==> {
                &&& 0 <= #[trigger] self.lengths[i]
                &&& 0 <= self.errors[i]
                &&& self.errors[i] < self.longest() || self.longest() == 0
                &&& -1 <= self.signs[i] <= 1
                &&& 0 <= self.owed[i] <= self.lengths[i]
                &&& self.owed[i] * self.longest() == self.lengths[i] * self.count + self.longest()
                    / 2 - self.errors[i]
                &&& self.target[i] == self.position[i] + self.signs[i] * self.owed[i]
                &&& i32::MIN <= self.target[i] <= i32::MAX
            }
    }

    /// Whether the next move steps along axis `i`.
    pub open spec fn steps_along(&self, i: int) -> bool {
        self.errors[i] - self.lengths[i] < 0
    }

    /// The walk after its next move. A walk that is over stays as it is.
    pub open spec fn moved(self) -> BresenhamView {
        if self.count <= 0 {
            self
        } else {
            BresenhamView {
                errors: Seq::new(
                    self.errors.len(),
                    |i: int|
                        if self.steps_along(i) {
                            (self.errors[i] - self.lengths[i] + self.longest()) as i32
                        } else {
                            (self.errors[i] - self.lengths[i]) as i32
                        },
                ),
                position: Seq::new(
                    self.position.len(),
                    |i: int|
                        if self.steps_along(i) {
                            (self.position[i] + self.signs[i]) as i32
                        } else {
                            self.position[i]
                        },
                ),
                owed: Seq::new(
                    self.owed.len(),
                    |i: int|
                        if self.steps_along(i) {
                            self.owed[i] - 1
                        } else {
                            self.owed[i]
                        },
                ),
                count: self.count - 1,
                ..self
            }
        }
    }

    /// The axes that the next move steps along, or `None` when the walk is over.
    pub open spec fn next_move(&self) -> Option<Seq<bool>> {
        if self.count <= 0 {
            None
        } else {
            Some(Seq::new(self.errors.len(), |i: int| self.steps_along(i)))
        }
    }
}

/// One axis of one move: the error term stays inside the biggest distance, and an axis
/// that steps still owed a step.
proof fn lemma_axis_move(longest: int, length: int, count: int, error: int, owed: int)
    requires
        longest >= 1,
        0 <= length <= longest,
        count >= 1,
        0 <= error < longest,
        0 <= owed,
        owed * longest == length * count + longest / 2 - error,
    ensures
        error - length < 0 ==> {
            &&& owed >= 1
            &&& (owed - 1) * longest == length * (count - 1) + longest / 2 - (error - length
                + longest)
            &&& 0 <= error - length + longest < longest
        },
        error - length >= 0 ==> {
            &&& owed * longest == length * (count - 1) + longest / 2 - (error - length)
            &&& 0 <= error - length < longest
        },
{
    assert(length * (count - 1) == length * count - length) by (nonlinear_arith);
    if error - length < 0 {
        assert(length * count >= length) by (nonlinear_arith)
            requires
                count >= 1,
                length >= 0,
        ;
        assert(owed >= 1) by (nonlinear_arith)
            requires
                owed * longest > 0,
                longest >= 1,
                owed >= 0,
        ;
        assert((owed - 1) * longest == owed * longest - longest) by (nonlinear_arith);
    }
}

/// A walk that is over stands at its end.
pub proof fn lemma_finished_at_target(walk: BresenhamView, n: int)
    requires
        walk.well_formed(n),
        walk.count == 0,
    ensures
        forall|i: int| 0 <= i < n ==> #[trigger] walk.position[i] == walk.target[i],
        walk.next_move() is None,
{
    assert forall|i: int| 0 <= i < n implies #[trigger] walk.position[i] == walk.target[i] by {
        let longest = walk.longest();
        let owed = walk.owed[i];
        assert(0 <= walk.lengths[i]);
        if longest == 0 {
            assert(walk.lengths[i] <= walk.lengths[walk.longest_index]);
        } else {
            let error = walk.errors[i] as int;
            assert(walk.lengths[i] * 0 == 0);
            assert(owed * longest == longest / 2 - error);
            assert(owed == 0) by (nonlinear_arith)
                requires
                    owed >= 0,
                    longest >= 1,
                    owed * longest == longest / 2 - error,
                    0 <= error,
                    longest / 2 < longest,
            ;
        }
        assert(walk.signs[i] * 0 == 0);
    }
}

/// Every move keeps a walk well formed, and leaves its end where it was.
pub proof fn lemma_moved_well_formed(walk: BresenhamView, n: int)
    requires
        walk.well_formed(n),
    ensures
        walk.moved().well_formed(n),
        walk.moved().target == walk.target,
{
    if walk.count > 0 {
        let after = walk.moved();
        let longest = walk.longest();
        assert forall|i: int| 0 <= i < n implies {
            &&& 0 <= #[trigger] after.lengths[i]
            &&& 0 <= after.errors[i]
            &&& after.errors[i] < after.longest() || after.longest() == 0
            &&& -1 <= after.signs[i] <= 1
            &&& 0 <= after.owed[i] <= after.lengths[i]
            &&& after.owed[i] * after.longest() == after.lengths[i] * after.count
                + after.longest() / 2 - after.errors[i]
            &&& after.target[i] == after.position[i] + after.signs[i] * after.owed[i]
            &&& i32::MIN <= after.target[i] <= i32::MAX
        } by {
            assert(0 <= walk.lengths[i]);
            assert(walk.lengths[i] <= walk.lengths[walk.longest_index]);
            lemma_axis_move(
                longest,
                walk.lengths[i] as int,
                walk.count,
                walk.errors[i] as int,
                walk.owed[i],
            );
            lemma_axis_position(
                walk.position[i] as int,
                walk.signs[i] as int,
                walk.owed[i],
                walk.target[i],
            );
        }
    }
}

/// One axis of one move: a step towards the end stays between where the walk stands and
/// its end.
proof fn lemma_axis_position(position: int, sign: int, owed: int, target: int)
    requires
        -1 <= sign <= 1,
        owed >= 0,
        target == position + sign * owed,
        i32::MIN <= position <= i32::MAX,
        i32::MIN <= target <= i32::MAX,
    ensures
        owed >= 1 ==> {
            &&& i32::MIN <= position + sign <= i32::MAX
            &&& target == position + sign + sign * (owed - 1)
        },
{
    if owed >= 1 {
        assert(sign * (owed - 1) == sign * owed - sign) by (nonlinear_arith);
        if sign == 1 {
            assert(sign * owed == owed);
        } else if sign == -1 {
            assert(sign * owed == -owed) by (nonlinear_arith)
                requires
                    sign == -1,
            ;
        } else {
            assert(sign * owed == 0);
        }
    }
}

impl<const N: usize> View for Bresenham<N> {
    type V = BresenhamView;

    closed spec fn view(&self) -> BresenhamView {
        BresenhamView {
            signs: self.signs@,
            errors: self.errors@,
            lengths: self.lengths@,
            longest_index: self.longest_index as int,
            count: self.count as int,
            position: self.current_position@,
            target: self.target@,
            owed: self.owed@,
        }
    }
}

impl<const N: usize> Bresenham<N> {
    /// What holds of a walk at all times.
    pub open spec fn well_formed(&self) -> bool {
        self@.well_formed(N as int)
    }

    /// The walk from `start` to `end`. The distance along each axis must be a number that
    /// `i32` holds, and there must be two dimensions at least.
    pub fn new(start: [i32; N], end: [i32; N]) -> (walk: Self)
        requires
            N >= 2,
            forall|i: int| 0 <= i < N ==> spec_abs(#[trigger] end[i] - start[i]) <= i32::MAX,
        ensures
            walk.well_formed(),
            walk@.position == start@,
            walk@.target == end@.map_values(|coordinate: i32| coordinate as int),
            forall|i: int|
                0 <= i < N ==> {
                    &&& #[trigger] walk@.lengths[i] == spec_abs(end[i] - start[i])
                    &&& walk@.signs[i] == spec_signum(end[i] - start[i])
                    &&& walk@.errors[i] == walk@.longest() / 2
                    &&& walk@.owed[i] == walk@.lengths[i]
                },
            is_first_maximum(walk@.lengths, walk@.longest_index),
            walk@.count == walk@.longest(),
    {
        let mut signs: [i8; N] = [0; N];
        let mut lengths: [i32; N] = [0; N];
        let mut longest_index: usize = 0;
        let mut i: usize = 0;
        while i < N
            invariant
                N >= 2,
                i <= N,
                forall|j: int| 0 <= j < N ==> spec_abs(#[trigger] end[j] - start[j]) <= i32::MAX,
                forall|j: int|
                    0 <= j < i ==> #[trigger] lengths@[j] == spec_abs(end@[j] - start@[j]),
                forall|j: int|
                    0 <= j < i ==> #[trigger] signs@[j] == spec_signum(end@[j] - start@[j]),
                forall|j: int| i <= j < N ==> #[trigger] lengths@[j] == 0,
                0 <= longest_index < N,
                i > 0 ==> longest_index < i,
                forall|j: int|
                    0 <= j < i ==> #[trigger] lengths@[j] <= lengths@[longest_index as int],
                forall|j: int|
                    0 <= j < longest_index ==> #[trigger] lengths@[j] < lengths@[
                        longest_index as int
                    ],
            decreases N - i,
        {
            assert(spec_abs(end[i as int] - start[i as int]) <= i32::MAX);
            let delta: i64 = end[i] as i64 - start[i] as i64;
            if delta < 0 {
                lengths[i] = (-delta) as i32;
                signs[i] = -1;
            } else if delta > 0 {
                lengths[i] = delta as i32;
                signs[i] = 1;
            } else {
                lengths[i] = 0;
                signs[i] = 0;
            }
            if lengths[i] > lengths[longest_index] {
                longest_index = i;
            }
            i += 1;
        }
        let longest = lengths[longest_index];
        let errors: [i32; N] = [longest / 2; N];
        let ghost target = end@.map_values(|coordinate: i32| coordinate as int);
        let ghost owed = lengths@.map_values(|length: i32| length as int);
        let walk = Bresenham {
            lengths,
            longest_index,
            count: longest,
            current_position: start,
            signs,
            errors,
            target: Ghost(target),
            owed: Ghost(owed),
        };
        proof {
            assert forall|j: int| 0 <= j < N implies {
                &&& walk@.owed[j] * walk@.longest() == #[trigger] walk@.lengths[j] * walk@.count
                    + walk@.longest() / 2 - walk@.errors[j]
                &&& walk@.target[j] == walk@.position[j] + walk@.signs[j] * walk@.owed[j]
                &&& walk@.errors[j] < walk@.longest() || walk@.longest() == 0
            } by {
                let delta = end[j] - start[j];
                assert(spec_abs(delta) <= i32::MAX);
                assert(walk@.lengths[j] == spec_abs(delta));
                assert(walk@.signs[j] == spec_signum(delta));
                assert(walk@.signs[j] * walk@.owed[j] == delta) by (nonlinear_arith)
                    requires
                        walk@.signs[j] == spec_signum(delta),
                        walk@.owed[j] == spec_abs(delta),
                ;
            }
        }
        walk
    }

    /// Tells whether the walk is over.
    pub fn has_finished(&self) -> (finished: bool)
        ensures
            finished == (self@.count <= 0),
    {
        self.count <= 0
    }

    /// The number of moves that were made.
    pub fn steps_taken(&self) -> (steps: u32)
        requires
            self.well_formed(),
        ensures
            steps == self@.longest() - self@.count,
    {
        (self.lengths[self.longest_index] - self.count) as u32
    }

    /// The biggest distance between start and end along an axis.
    pub fn lengths(&self) -> (longest: i32)
        requires
            self.well_formed(),
        ensures
            longest == self@.longest(),
    {
        self.lengths[self.longest_index]
    }

    /// The number of moves that are left.
    pub fn countt(&self) -> (count: i32)
        ensures
            count == self@.count,
    {
        self.count
    }

    /// Returns the index of the axis with the biggest distance to travel: the first of
    /// them, where several have it.
    pub fn get_longest_index(&self) -> (index: usize)
        ensures
            index == self@.longest_index,
    {
        self.longest_index
    }

    /// The number of moves that are left.
    pub fn len(&self) -> (moves: usize)
        requires
            self.well_formed(),
        ensures
            moves == self@.count,
    {
        self.count as usize
    }

    /// Makes the next move and tells which axes it steps along, or `None` when the walk is
    /// over.
    pub fn next(&mut self) -> (changed_axis: Option<[bool; N]>)
        requires
            old(self).well_formed(),
        ensures
            final(self).well_formed(),
            final(self)@ == old(self)@.moved(),
            changed_axis is Some <==> old(self)@.next_move() is Some,
            changed_axis matches Some(axes) ==> Some(axes@) == old(self)@.next_move(),
    {
        if self.has_finished() {
            return None;
        }
        let ghost before = self@;
        let longest = self.lengths[self.longest_index];
        self.count = self.count - 1;
        let mut changed_axis: [bool; N] = [false; N];
        let mut i: usize = 0;
        while i < N
            invariant
                i <= N,
                before.well_formed(N as int),
                before.count > 0,
                longest == before.longest(),
                self.lengths@ == before.lengths,
                self.signs@ == before.signs,
                self.longest_index == before.longest_index,
                self.count == before.count - 1,
                self.target@ == before.target,
                self.errors@.len() == N,
                self.current_position@.len() == N,
                self.owed@.len() == N,
                changed_axis@.len() == N,
                forall|j: int| 0 <= j < i ==> #[trigger] self.errors@[j] == before.moved().errors[j],
                forall|j: int|
                    0 <= j < i ==> #[trigger] self.current_position@[j] == before.moved().position[j],
                forall|j: int| 0 <= j < i ==> #[trigger] self.owed@[j] == before.moved().owed[j],
                forall|j: int| 0 <= j < i ==> #[trigger] changed_axis@[j] == before.steps_along(j),
                forall|j: int| i <= j < N ==> #[trigger] changed_axis@[j] == false,
                forall|j: int| i <= j < N ==> #[trigger] self.errors@[j] == before.errors[j],
                forall|j: int|
                    i <= j < N ==> #[trigger] self.current_position@[j] == before.position[j],
                forall|j: int| i <= j < N ==> #[trigger] self.owed@[j] == before.owed[j],
            decreases N - i,
        {
            proof {
                let j = i as int;
                assert(0 <= before.lengths[j]);
                assert(before.lengths[j] <= before.lengths[before.longest_index]);
                lemma_axis_move(
                    longest as int,
                    before.lengths[j] as int,
                    before.count,
                    before.errors[j] as int,
                    before.owed[j],
                );
                lemma_axis_position(
                    before.position[j] as int,
                    before.signs[j] as int,
                    before.owed[j],
                    before.target[j],
                );
            }
            let error: i32 = self.errors[i] - self.lengths[i];
            if error < 0 {
                self.errors[i] = error + longest;
                self.current_position[i] = self.current_position[i] + self.signs[i] as i32;
                changed_axis[i] = true;
                proof {
                    self.owed@ = self.owed@.update(i as int, self.owed@[i as int] - 1);
                }
            } else {
                self.errors[i] = error;
            }
            i += 1;
        }
        proof {
            lemma_moved_well_formed(before, N as int);
            assert(self@.errors =~= before.moved().errors);
            assert(self@.position =~= before.moved().position);
            assert(self@.owed =~= before.moved().owed);
            assert(changed_axis@ =~= before.next_move().unwrap());
        }
        Some(changed_axis)
    }
}

} // verus!
