//! The role shared by all reporters.

use vstd::prelude::*;

verus! {

/// Anything that turns the registry's snapshots into an external representation.
pub trait Reporter {
    /// The identity given to the reporter when it was made.
    spec fn name_text(&self) -> Seq<char>;

    /// The caller-assigned identity of this reporter.
    fn get_unique_reporter_name(&self) -> (r: &'static str)
        ensures
            r@ == self.name_text(),
    ;
}

} // verus!
