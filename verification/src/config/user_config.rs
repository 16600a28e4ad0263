//! What the user has set.

use vstd::prelude::*;

verus! {

/// The settings of the user.
#[derive(Clone, Copy, Debug, PartialEq, Eq, Structural)]
pub struct UserConfig {
    pub debug: bool,
}

impl Default for UserConfig {
    fn default() -> (r: Self)
        ensures
            r.debug == false,
    {
        UserConfig { debug: false }
    }
}

} // verus!
