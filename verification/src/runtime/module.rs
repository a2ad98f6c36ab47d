use vstd::prelude::*;

use super::value::Value;

verus! {

/// A loaded module: its global variables, once they have been set up.
pub struct Module {
    pub globals: Option<Vec<Value>>,
}

impl Module {
    /// A module without globals.
    pub fn new() -> (r: Self)
        ensures
            r.globals is None,
    {
        Module { globals: None }
    }
}

} // verus!
