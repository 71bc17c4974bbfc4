//! Inclusive address ranges and their containment and overlap tests.

use vstd::prelude::*;

verus! {

/// Defines a physical address range with a minimum and maximum address.
pub struct AddressRange {
    pub start_pointer: usize,
    pub end_pointer: usize,
}

impl AddressRange {
    /// An ordered range: the start never exceeds the end.
    pub open spec fn wf(&self) -> bool {
        self.start_pointer <= self.end_pointer
    }

    /// True when `point` lies between the start and the end, both inclusive.
    pub open spec fn spec_contains_point(&self, point: int) -> bool {
        self.start_pointer <= point <= self.end_pointer
    }

    /// True when `other` lies entirely inside this range.
    pub open spec fn spec_contains(&self, other: &AddressRange) -> bool {
        other.start_pointer >= self.start_pointer && other.end_pointer <= self.end_pointer
    }

    /// True when the two ranges share at least one point, assuming both are ordered.
    pub open spec fn spec_overlaps(&self, other: &AddressRange) -> bool {
        self.spec_contains_point(other.start_pointer as int)
            || self.spec_contains_point(other.end_pointer as int)
            || other.spec_contains_point(self.start_pointer as int)
            || other.spec_contains_point(self.end_pointer as int)
    }

    /// Constructs a new AddressRange.
    pub fn new(start_pointer: usize, end_pointer: usize) -> (r: Self)
        ensures
            r.start_pointer == start_pointer,
            r.end_pointer == end_pointer,
    {
        Self { start_pointer, end_pointer }
    }

    /// Calculates the size of the address range as the difference between the
    /// end pointer and the start pointer.
    pub fn size(&self) -> (r: usize)
        requires
            self.wf(),
        ensures
            r == self.end_pointer - self.start_pointer,
    {
        self.end_pointer - self.start_pointer
    }

    /// Checks if the other address range is completely inside this address range.
    pub fn contains(&self, other: &AddressRange) -> (r: bool)
        ensures
            r == self.spec_contains(other),
    {
        other.start_pointer >= self.start_pointer && other.end_pointer <= self.end_pointer
    }

    /// Checks if the other address range intersects this address range, i.e.
    /// start or end of either range falls inside the other.
    pub fn overlaps(&self, other: &AddressRange) -> (r: bool)
        ensures
            r == self.spec_overlaps(other),
    {
        self.point_in_range(other.start_pointer)
            || self.point_in_range(other.end_pointer)
            || other.point_in_range(self.start_pointer)
            || other.point_in_range(self.end_pointer)
    }

    /// Checks if a number "point" is between the start and the end of this range.
    fn point_in_range(&self, point: usize) -> (r: bool)
        ensures
            r == self.spec_contains_point(point as int),
    {
        point >= self.start_pointer && point <= self.end_pointer
    }
}

} // verus!
