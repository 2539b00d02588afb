use vstd::prelude::*;

pub mod args;
pub mod decimal;
pub mod run;

verus! {

/// The constant that every successful run prints last.
pub fn answer() -> (r: i32)
    ensures
        r == 42,
{
    42
}

} // verus!
