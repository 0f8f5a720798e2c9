//! The control plane: what the proxy answers when it is asked for its
//! configuration.

use vstd::prelude::*;

verus! {

/// The control service.
#[derive(Debug, Clone, Copy, PartialEq, Eq, Structural)]
pub struct MyControl;

/// The answer of a proxy that has no configuration to show.
pub open spec fn no_config() -> Seq<char> {
    "No config yet, amateur"@
}

impl Default for MyControl {
    fn default() -> (r: MyControl)
        ensures
            r == MyControl,
    {
        MyControl
    }
}

impl MyControl {
    /// The contents of the answer to a request for the configuration.
    pub fn get_config(&self) -> (r: String)
        ensures
            r@ == no_config(),
    {
        "No config yet, amateur".to_owned()
    }
}

} // verus!
