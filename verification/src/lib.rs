//! In-memory store for a stream-overlay control panel: a fixed set of match
//! "setups" (two players, match metadata, commentary), with validated
//! wholesale updates, side swapping, and a JSON file format for persistence.
use vstd::prelude::*;

pub mod model;
pub mod parse;
pub mod roundtrip;
pub mod ser;
pub mod store;
pub mod text;

verus! {

/// True exactly when a best-of count is one the store accepts.
pub fn best_of_ok(best_of: u8) -> (r: bool)
    ensures
        r == (best_of == 3 || best_of == 5),
{
    best_of == 3 || best_of == 5
}

} // verus!
