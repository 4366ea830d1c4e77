use vstd::prelude::*;

verus! {

/// Switches the run loop consults: whether to log every executed
/// instruction and whether to single-step under key control.
pub struct DebugLevels {
    pub log_all: bool,
    pub step: bool,
}

impl Default for DebugLevels {
    fn default() -> (d: Self)
        ensures
            !d.log_all,
            !d.step,
    {
        Self { log_all: false, step: false }
    }
}

} // verus!
