//! The validation capability: a type reports whether its state is
//! structurally correct, with a message when it is not.

use vstd::prelude::*;

verus! {

/// A type whose values can check their own structural correctness.
pub trait Validate {
    /// The outcome that validation reports for this value: `Ok` when it is
    /// well formed, otherwise the message that describes the first problem.
    spec fn validation_outcome(&self) -> Result<(), Seq<char>>;

    /// Checks the value, returning a descriptive message on failure.
    fn validate(&self) -> (r: Result<(), String>)
        ensures
            match r {
                Ok(_) => self.validation_outcome() is Ok,
                Err(msg) => self.validation_outcome() == Err::<(), Seq<char>>(msg@),
            },
    ;

    /// True exactly when `validate` succeeds.
    fn is_valid(&self) -> (r: bool)
        ensures
            r == self.validation_outcome() is Ok,
    {
        self.validate().is_ok()
    }
}

} // verus!
