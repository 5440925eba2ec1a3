use vstd::prelude::*;

use crate::compilation::Compilation;
use crate::dependency::{Dependency, ModuleDependency};
use crate::graph::ModuleGraph;
use crate::kinds::{ModuleType, SourceType};
use crate::traversal::{lemma_neighbors_push, neighbors, nodes_of};

verus! {

/// `anyhow::Error`, the error that a module gives when it cannot be rendered.
/// It is declared so that it can stand in the signature of `Module::render`.
/// Nothing is claimed of it: Verus sees no inside of such a value, and this
/// library hands it on unread.
#[verifier::external_type_specification]
#[verifier::external_body]
pub struct ExRenderError(anyhow::Error);

/// What a module renders to. Whoever merges the output knows these three
/// forms and no others, and tells them apart by matching.
#[derive(Clone, Debug, PartialEq, Eq)]
pub enum ModuleRenderResult {
    JavaScript(String),
    Css(String),
    Asset(Vec<u8>),
}

/// Who a node is: what a module is told about the node that owns it.
#[derive(Clone, Debug, PartialEq, Eq)]
pub struct ModuleIdentity {
    /// Set only for entry points that the user declared.
    pub name: Option<String>,
    /// The name by which emitted output addresses the module.
    pub id: String,
    /// The resolved location; the key of the node in its graph.
    pub uri: String,
    /// The kind of the module, kept here so that filtering need not ask it.
    pub module_type: ModuleType,
}

/// Whether a module is what it was: nothing of it has changed. It is said
/// of references, so that it can be said of a module of unknown size.
pub open spec fn same_module<T: ?Sized>(before: &T, after: &T) -> bool {
    before == after
}

/// What every kind of module offers, so that nothing outside a module has
/// to know which kind it is. The kinds are not listed anywhere: a new one
/// is a new implementation of this trait.
///
/// Reading a module (`module_type`, `source_types`, `render`) takes a shared
/// reference and changes nothing, so many readers may work at once. Finding
/// its edges (`dependencies`) takes the module exclusively.
pub trait Module: Send + Sync {
    /// The kind that `module_type` reports.
    spec fn spec_module_type(&self) -> ModuleType;

    /// The kinds of output that `source_types` reports, in its order. They
    /// may depend on the module as it stands, on its node (who it is and
    /// which edges leave it) and on the build, and on nothing else.
    spec fn spec_source_types(
        &self,
        module: &ModuleIdentity,
        dependencies: Seq<Dependency>,
        compilation: &Compilation,
    ) -> Seq<SourceType>;

    /// The kind of the module.
    fn module_type(&self) -> (kind: ModuleType)
        ensures
            kind == self.spec_module_type(),
    ;

    /// The kinds of output this module can render to, as things stand, each
    /// named once. The module is told of its node: who it is, and the edges
    /// that leave it.
    fn source_types(
        &self,
        module: &ModuleIdentity,
        dependencies: &[Dependency],
        compilation: &Compilation,
    ) -> (kinds: &[SourceType])
        ensures
            kinds@ == self.spec_source_types(module, dependencies@, compilation),
            kinds@.no_duplicates(),
    ;

    /// Renders the module to one kind of output. A kind that the module does
    /// not offer gives no output, and that is no failure. An error means
    /// that the module cannot be rendered to this kind at all; it is for
    /// the caller to report, not to try again.
    fn render(
        &self,
        requested_source_type: SourceType,
        module: &ModuleIdentity,
        dependencies: &[Dependency],
        compilation: &Compilation,
    ) -> (rendered: Result<Option<ModuleRenderResult>, anyhow::Error>)
        ensures
            !self.spec_source_types(module, dependencies@, compilation).contains(
                requested_source_type,
            ) ==> rendered matches Ok(None),
    ;

    /// The edges found while the module's content was produced. A kind of
    /// module that imports nothing need not write this: left as it is, it
    /// gives no edges and leaves the module as it was.
    fn dependencies(&mut self) -> (edges: Vec<ModuleDependency>)
        default_ensures
            edges@.len() == 0,
            same_module(&*old(self), &*final(self)),
    {
        Vec::new()
    }
}

/// A module of any kind, owned.
pub type BoxModule = Box<dyn Module>;

/// One node of the graph: a module, who it is, and the edges that leave it.
///
/// A graph holds nodes of every kind of module, so its nodes are of the
/// default form, `ModuleGraphModule<dyn Module>`: make them from a
/// `BoxModule`. Edges name no node; the graph is asked where they lead.
/// The edges of a node are those that it was made with: they can be read,
/// through `dependencies`, and not changed.
pub struct ModuleGraphModule<M: ?Sized = dyn Module> {
    /// Who the node is.
    pub identity: ModuleIdentity,
    dependencies: Vec<Dependency>,
    /// The module itself, which only this node owns.
    pub module: Box<M>,
}

impl<M: Module + ?Sized> ModuleGraphModule<M> {
    /// Who the node is.
    pub closed spec fn spec_identity(&self) -> ModuleIdentity {
        self.identity
    }

    /// The edges that leave the node, in the order in which the source
    /// declared them.
    pub closed spec fn spec_dependencies(&self) -> Seq<Dependency> {
        self.dependencies@
    }

    /// The module that the node owns.
    pub closed spec fn spec_module(&self) -> &M {
        &*self.module
    }

    /// Whether the kind kept on the node is the kind that its module
    /// declares.
    pub open spec fn mirrors_module(&self) -> bool {
        self.spec_identity().module_type == self.spec_module().spec_module_type()
    }

    /// Makes a node of a module, its identity and the edges found in it.
    /// The edges are taken as they are, in their order.
    pub fn new(
        name: Option<String>,
        id: String,
        uri: String,
        module: Box<M>,
        dependencies: Vec<Dependency>,
        module_type: ModuleType,
    ) -> (node: Self)
        ensures
            node.spec_identity().name == name,
            node.spec_identity().id == id,
            node.spec_identity().uri == uri,
            node.spec_identity().module_type == module_type,
            same_module(node.spec_module(), &*module),
            node.spec_dependencies() == dependencies@,
            node.mirrors_module() <==> module_type == module.spec_module_type(),
    {
        ModuleGraphModule {
            identity: ModuleIdentity { name, id, uri, module_type },
            dependencies,
            module,
        }
    }

    /// Who the node is.
    pub fn identity(&self) -> (identity: &ModuleIdentity)
        ensures
            *identity == self.spec_identity(),
    {
        &self.identity
    }

    /// The edges that leave the node, in the order in which the source
    /// declared them.
    pub fn dependencies(&self) -> (edges: &[Dependency])
        ensures
            edges@ == self.spec_dependencies(),
    {
        self.dependencies.as_slice()
    }

    /// The module that the node owns.
    pub fn module(&self) -> (module: &M)
        ensures
            same_module(module, self.spec_module()),
    {
        &*self.module
    }

    /// The nodes that this node must ship with: for each edge that is no
    /// dynamic import and that the graph has a node for, that node, in the
    /// order of the edges. An edge that leads nowhere is passed over.
    pub fn depended_modules<'a>(&self, module_graph: &'a ModuleGraph) -> (found: Vec<
        &'a ModuleGraphModule,
    >)
        ensures
            nodes_of(found@) == neighbors(self.spec_dependencies(), *module_graph, false),
    {
        self.follow_edges(module_graph, false)
    }

    /// The nodes that may load after this node: for each edge that is a
    /// dynamic import and that the graph has a node for, that node, in the
    /// order of the edges. An edge that leads nowhere is passed over.
    pub fn dynamic_depended_modules<'a>(&self, module_graph: &'a ModuleGraph) -> (found: Vec<
        &'a ModuleGraphModule,
    >)
        ensures
            nodes_of(found@) == neighbors(self.spec_dependencies(), *module_graph, true),
    {
        self.follow_edges(module_graph, true)
    }

    fn follow_edges<'a>(&self, module_graph: &'a ModuleGraph, dynamic: bool) -> (found: Vec<
        &'a ModuleGraphModule,
    >)
        ensures
            nodes_of(found@) == neighbors(self.spec_dependencies(), *module_graph, dynamic),
    {
        let mut found: Vec<&'a ModuleGraphModule> = Vec::new();
        let mut i: usize = 0;
        assert(self.dependencies@.take(0) =~= Seq::empty());
        assert(nodes_of(found@) =~= neighbors(Seq::empty(), *module_graph, dynamic)) by {
            reveal(Seq::filter);
        }
        while i < self.dependencies.len()
            invariant
                i <= self.dependencies.len(),
                nodes_of(found@) == neighbors(
                    self.dependencies@.take(i as int),
                    *module_graph,
                    dynamic,
                ),
            decreases self.dependencies.len() - i,
        {
            let edge = &self.dependencies[i];
            proof {
                lemma_neighbors_push(
                    self.dependencies@.take(i as int),
                    *edge,
                    *module_graph,
                    dynamic,
                );
                assert(self.dependencies@.take(i + 1) =~= self.dependencies@.take(i as int).push(
                    *edge,
                ));
            }
            if edge.is_dynamic() == dynamic {
                if let Some(node) = module_graph.module_by_dependency(edge) {
                    let ghost before = found@;
                    found.push(node);
                    assert(nodes_of(found@) =~= nodes_of(before).push(*node));
                }
            }
            i += 1;
        }
        assert(self.dependencies@.take(i as int) =~= self.dependencies@);
        found
    }
}

} // verus!
