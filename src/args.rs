use vstd::prelude::*;

verus! {

/// What the command line asks for.
pub struct LC3Args {
    pub path_to_assembled: String,
    pub debug_mode: bool,
}

} // verus!
