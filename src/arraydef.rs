//! Contiguous ranges of task identifiers, as used by array jobs.
use vstd::prelude::*;

verus! {

/// The ascending run of identifiers `start, start + 1, ..., start + count - 1`.
///
/// A range is never empty, and its last identifier fits in a `u32`.
#[derive(Clone, Copy, Debug, PartialEq, Eq)]
pub struct TaskIdRange {
    start: u32,
    count: u32,
}

/// The identifiers `start, ..., start + count - 1`.
pub open spec fn id_run(start: int, count: int) -> Seq<u32> {
    Seq::new(count as nat, |i: int| (start + i) as u32)
}

/// A range that `TaskIdRange::new` accepts.
pub open spec fn valid_range(start: int, count: int) -> bool {
    0 <= start && 1 <= count <= u32::MAX && start + count - 1 <= u32::MAX
}

impl View for TaskIdRange {
    type V = Seq<u32>;

    /// The identifiers of the range, in ascending order.
    closed spec fn view(&self) -> Seq<u32> {
        id_run(self.start as int, self.count as int)
    }
}

impl TaskIdRange {
    #[verifier::type_invariant]
    spec fn inv(self) -> bool {
        valid_range(self.start as int, self.count as int)
    }

    /// The range of `count` identifiers that starts at `start`.
    pub fn new(start: u32, count: u32) -> (r: TaskIdRange)
        requires
            valid_range(start as int, count as int),
        ensures
            r@ == id_run(start as int, count as int),
    {
        TaskIdRange { start, count }
    }

    /// The first identifier of the range.
    pub fn start(&self) -> (r: u32)
        ensures
            self@.len() >= 1,
            r == self@[0],
    {
        proof {
            use_type_invariant(self);
        }
        self.start
    }

    /// How many identifiers the range holds.
    pub fn count(&self) -> (r: u32)
        ensures
            r as nat == self@.len(),
            valid_range(self@[0] as int, r as int),
            self@ == id_run(self@[0] as int, r as int),
    {
        proof {
            use_type_invariant(self);
        }
        self.count
    }

    /// The last identifier of the range.
    pub fn end(&self) -> (r: u32)
        ensures
            self@.len() >= 1,
            r == self@.last(),
    {
        proof {
            use_type_invariant(self);
        }
        self.start + (self.count - 1)
    }

    /// The identifiers of the range, from the first to the last; the
    /// iterator is lazy and can be asked for again.
    pub fn iter(&self) -> (r: std::ops::RangeInclusive<u32>)
        ensures
            self@.len() >= 1,
            r@.start == self@[0],
            r@.end == self@.last(),
            !r@.exhausted,
    {
        proof {
            use_type_invariant(self);
        }
        std::ops::RangeInclusive::new(self.start, self.start + (self.count - 1))
    }
}

/// The set of task identifiers of an array job: one range.
#[derive(Clone, Copy, Debug, PartialEq, Eq)]
pub struct ArrayDef {
    range: TaskIdRange,
}

impl View for ArrayDef {
    type V = Seq<u32>;

    /// The identifiers of the array, in ascending order.
    closed spec fn view(&self) -> Seq<u32> {
        self.range@
    }
}

impl ArrayDef {
    /// The array job that covers exactly `range`.
    pub fn new(range: TaskIdRange) -> (r: ArrayDef)
        ensures
            r@ == range@,
    {
        ArrayDef { range }
    }

    /// The range of the array.
    pub fn range(&self) -> (r: TaskIdRange)
        ensures
            r@ == self@,
    {
        self.range
    }

    /// The identifiers of the array, in ascending order.
    pub fn iter(&self) -> (r: std::ops::RangeInclusive<u32>)
        ensures
            self@.len() >= 1,
            r@.start == self@[0],
            r@.end == self@.last(),
            !r@.exhausted,
    {
        self.range.iter()
    }
}

} // verus!
