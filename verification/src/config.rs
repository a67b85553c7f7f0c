use vstd::prelude::*;

verus! {

/// The paths to rename and the editor command to invoke, as the caller
/// resolved them from its arguments and environment.
pub struct Config {
    pub paths: Vec<String>,
    pub editor: String,
}

} // verus!
