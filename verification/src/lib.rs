//! A small cooperative executor core with its timer, and a handful of
//! verified utilities that accompany it.

use vstd::prelude::*;

pub mod apps;
pub mod config;
pub mod executor;
pub mod schedule;
pub mod text;
pub mod timer;
pub mod tutorial;

verus! {

/// Adds two to `a`.
pub fn add_two(a: i32) -> (r: i32)
    requires
        a <= i32::MAX - 2,
    ensures
        r == a + 2,
{
    internal_adder(a, 2)
}

/// Sum of `a` and `b`.
pub fn internal_adder(a: i32, b: i32) -> (r: i32)
    requires
        i32::MIN <= a + b <= i32::MAX,
    ensures
        r == a + b,
{
    a + b
}

} // verus!
