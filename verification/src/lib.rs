//! rpdf: a small PDF toolkit — object model, parser and page-editing commands.

pub mod cli;
pub mod edit;
pub mod parser;
pub mod text;
pub mod types;

use vstd::prelude::*;

verus! {

/// The version string of this library.
pub fn version() -> (v: &'static str)
    ensures
        v@ == "0.1.0"@,
        v@.len() > 0,
{
    let v = "0.1.0";
    proof {
        reveal_strlit("0.1.0");
    }
    v
}

} // verus!
