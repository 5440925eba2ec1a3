//! The module graph of a bundler: one node per compiled unit, the capability
//! every kind of module offers, and the split of a node's outgoing edges into
//! those that ship with it and those that may load later.

pub mod asset;
pub mod compilation;
pub mod dependency;
pub mod graph;
mod keyed;
pub mod kinds;
pub mod module;
pub mod traversal;

pub use asset::AssetModule;
pub use compilation::Compilation;
pub use dependency::{Dependency, DependencyView, ModuleDependency, ModuleDependencyView, ResolveKind};
pub use kinds::{ModuleType, SourceType};
pub use module::{
    same_module, BoxModule, Module, ModuleGraphModule, ModuleIdentity, ModuleRenderResult,
};
pub use graph::ModuleGraph;
