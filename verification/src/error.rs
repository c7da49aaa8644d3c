//! The generic error of the game's commands.
use vstd::prelude::*;

verus! {

/// A command could not be carried out (an unknown player, game or tag).
#[derive(Debug, Clone, Copy, PartialEq, Eq, Structural)]
pub struct MyError;

impl MyError {
    /// The text shown for this error.
    pub fn message(&self) -> (r: &'static str)
        ensures
            r@ == "MyError"@,
    {
        "MyError"
    }
}

} // verus!
