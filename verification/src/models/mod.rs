//! Configuration models: routes, backends, retry policy and gateway settings.
use vstd::prelude::*;

pub mod error;
pub mod router;
pub mod settings;

verus! {

/// The outcome of a check that either passes or fails with a message, by text.
pub open spec fn check_view(r: Result<(), String>) -> Result<(), Seq<char>> {
    match r {
        Ok(_) => Ok(()),
        Err(e) => Err(e@),
    }
}

} // verus!
