use vstd::prelude::*;

verus! {

/// What a module is, as its loader declared it.
#[derive(Clone, Copy, Debug, PartialEq, Eq, Hash, Structural)]
pub enum ModuleType {
    Js,
    Jsx,
    Ts,
    Tsx,
    Css,
    Json,
    Asset,
}

/// A kind of output that a module can be rendered to.
#[derive(Clone, Copy, Debug, PartialEq, Eq, Hash, Structural)]
pub enum SourceType {
    JavaScript,
    Css,
    Asset,
}

} // verus!
