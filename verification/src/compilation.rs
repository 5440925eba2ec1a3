use vstd::prelude::*;

verus! {

/// What the engine shares with every module while it renders: settings that
/// hold for the whole build. Modules read it and never change it.
pub struct Compilation {
    /// Prefix under which emitted files are served.
    pub public_path: String,
}

} // verus!
