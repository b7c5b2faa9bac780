//! Small self-contained samples.

use vstd::prelude::*;
use vstd::std_specs::ops::AddSpec;
use std::ops::Add;

pub mod download;
pub mod linkedlist;
pub mod macrodemo;
pub mod rsdemo;
pub mod utilsdemo;
pub mod wordcount;

verus! {

/// A point in the plane.
#[derive(Debug)]
#[verifier::reject_recursive_types(T)]
pub struct Point<T: Add<T, Output = T>> {
    pub x: T,
    pub y: T,
}

impl<T: Add<T, Output = T>> Add for Point<T> {
    type Output = Point<T>;

    /// The point whose coordinates are the sums of the coordinates of `self`
    /// and `p`.
    fn add(self, p: Point<T>) -> (r: Point<T>) {
        Point { x: self.x + p.x, y: self.y + p.y }
    }
}

impl<T: Add<T, Output = T>> vstd::std_specs::ops::AddSpecImpl for Point<T> {
    open spec fn obeys_add_spec() -> bool {
        T::obeys_add_spec()
    }

    open spec fn add_req(self, rhs: Point<T>) -> bool {
        self.x.add_req(rhs.x) && self.y.add_req(rhs.y)
    }

    open spec fn add_spec(self, rhs: Point<T>) -> Point<T> {
        Point { x: self.x.add_spec(rhs.x), y: self.y.add_spec(rhs.y) }
    }
}

/// The sum of `a` and `b`.
pub fn add_point<T: Add<T, Output = T>>(a: T, b: T) -> (r: T)
    requires
        a.add_req(b),
    ensures
        T::obeys_add_spec() ==> r == a.add_spec(b),
{
    a + b
}

} // verus!
