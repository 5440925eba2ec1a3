use vstd::prelude::*;

use crate::dependency::{Dependency, DependencyView};
use crate::keyed::{
    distinct_keys, keyed_at, lemma_absent, lemma_found, lemma_put, lemma_size, table,
};
use crate::module::ModuleGraphModule;

verus! {

/// One answer of the resolver: an edge, and the uri that it leads to.
struct Resolution {
    dependency: Dependency,
    uri: String,
}

/// The owner of all nodes. Nodes never point at each other: an edge is
/// followed by asking the graph, first for the uri that the edge was
/// resolved to, then for the node of that uri. So modules that import each
/// other are no harder to hold than any others.
pub struct ModuleGraph {
    resolutions: Vec<Resolution>,
    modules: Vec<ModuleGraphModule>,
}

spec fn uri_of() -> spec_fn(ModuleGraphModule) -> Seq<char> {
    |node: ModuleGraphModule| node.spec_identity().uri@
}

spec fn itself() -> spec_fn(ModuleGraphModule) -> ModuleGraphModule {
    |node: ModuleGraphModule| node
}

spec fn edge_of() -> spec_fn(Resolution) -> DependencyView {
    |answer: Resolution| answer.dependency@
}

spec fn target_of() -> spec_fn(Resolution) -> Seq<char> {
    |answer: Resolution| answer.uri@
}

impl ModuleGraph {
    /// No uri has two nodes, and no edge has two answers.
    #[verifier::type_invariant]
    closed spec fn well_formed(&self) -> bool {
        distinct_keys(self.modules@, uri_of()) && distinct_keys(self.resolutions@, edge_of())
    }

    /// The nodes of the graph, each under its uri.
    pub closed spec fn nodes(&self) -> Map<Seq<char>, ModuleGraphModule> {
        table(self.modules@, uri_of(), itself())
    }

    /// What the resolver found: for each edge that it resolved, the uri.
    pub closed spec fn resolutions(&self) -> Map<DependencyView, Seq<char>> {
        table(self.resolutions@, edge_of(), target_of())
    }

    /// The node that an edge leads to: the edge was resolved, and the graph
    /// holds a node under the uri that it was resolved to.
    pub open spec fn resolve(&self, edge: DependencyView) -> Option<ModuleGraphModule> {
        if self.resolutions().contains_key(edge) && self.nodes().contains_key(
            self.resolutions()[edge],
        ) {
            Some(self.nodes()[self.resolutions()[edge]])
        } else {
            None
        }
    }

    /// Each node stands under its own uri, so no two nodes of a graph have
    /// the same uri.
    pub proof fn lemma_nodes_under_their_uris(&self)
        ensures
            forall|uri: Seq<char>|
                self.nodes().contains_key(uri) ==> (#[trigger] self.nodes()[uri]).spec_identity().uri@
                    == uri,
    {
        assert forall|uri: Seq<char>| self.nodes().contains_key(uri) implies (
        #[trigger] self.nodes()[uri]).spec_identity().uri@ == uri by {
            let at = choose|i: int| keyed_at(self.modules@, uri_of(), uri, i);
            assert(keyed_at(self.modules@, uri_of(), uri, at));
        }
    }

    /// A graph without nodes, in which no edge is resolved.
    pub fn new() -> (graph: Self)
        ensures
            graph.nodes() == Map::<Seq<char>, ModuleGraphModule>::empty(),
            graph.resolutions() == Map::<DependencyView, Seq<char>>::empty(),
    {
        let graph = ModuleGraph { resolutions: Vec::new(), modules: Vec::new() };
        assert(graph.nodes() =~= Map::<Seq<char>, ModuleGraphModule>::empty());
        assert(graph.resolutions() =~= Map::<DependencyView, Seq<char>>::empty());
        graph
    }

    /// How many nodes the graph holds.
    pub fn len(&self) -> (count: usize)
        ensures
            self.nodes().dom().finite(),
            count == self.nodes().dom().len(),
    {
        proof {
            use_type_invariant(self);
            lemma_size(self.modules@, uri_of(), itself());
        }
        self.modules.len()
    }

    fn position_of_uri(&self, uri: &String) -> (found: Option<usize>)
        ensures
            match found {
                Some(i) => keyed_at(self.modules@, uri_of(), uri@, i as int),
                None => forall|i: int| !keyed_at(self.modules@, uri_of(), uri@, i),
            },
    {
        let mut i: usize = 0;
        while i < self.modules.len()
            invariant
                i <= self.modules.len(),
                forall|k: int| 0 <= k < i ==> !keyed_at(self.modules@, uri_of(), uri@, k),
            decreases self.modules.len() - i,
        {
            if self.modules[i].identity().uri == *uri {
                return Some(i);
            }
            i += 1;
        }
        None
    }

    fn position_of_edge(&self, dependency: &Dependency) -> (found: Option<usize>)
        ensures
            match found {
                Some(i) => keyed_at(self.resolutions@, edge_of(), dependency@, i as int),
                None => forall|i: int| !keyed_at(self.resolutions@, edge_of(), dependency@, i),
            },
    {
        let mut i: usize = 0;
        while i < self.resolutions.len()
            invariant
                i <= self.resolutions.len(),
                forall|k: int|
                    0 <= k < i ==> !keyed_at(self.resolutions@, edge_of(), dependency@, k),
            decreases self.resolutions.len() - i,
        {
            if self.resolutions[i].dependency.same_as(dependency) {
                return Some(i);
            }
            i += 1;
        }
        None
    }

    /// Puts a node into the graph under its uri. A node that was there
    /// under the same uri is replaced; no other node is touched.
    pub fn add_module(&mut self, module: ModuleGraphModule)
        ensures
            final(self).nodes() == old(self).nodes().insert(module.spec_identity().uri@, module),
            final(self).resolutions() == old(self).resolutions(),
    {
        proof {
            use_type_invariant(&*self);
        }
        let ghost before = self.modules@;
        let found = self.position_of_uri(&module.identity().uri);
        let mut modules: Vec<ModuleGraphModule> = Vec::new();
        core::mem::swap(&mut self.modules, &mut modules);
        let ghost place: int;
        match found {
            Some(i) => {
                proof {
                    place = i as int;
                }
                modules.set(i, module);
            },
            None => {
                proof {
                    place = before.len() as int;
                    assert forall|k: int| 0 <= k < before.len() implies uri_of()(
                        #[trigger] before[k],
                    ) != uri_of()(module) by {
                        assert(!keyed_at(before, uri_of(), module.spec_identity().uri@, k));
                    }
                }
                modules.push(module);
            },
        }
        proof {
            lemma_put(before, modules@, uri_of(), itself(), module, place);
        }
        self.modules = modules;
    }

    /// Records what the resolver found for an edge: the uri that the edge
    /// leads to. An earlier answer for the same edge is replaced.
    pub fn add_dependency(&mut self, dependency: Dependency, resolved_uri: String)
        ensures
            final(self).resolutions() == old(self).resolutions().insert(
                dependency@,
                resolved_uri@,
            ),
            final(self).nodes() == old(self).nodes(),
    {
        proof {
            use_type_invariant(&*self);
        }
        let ghost before = self.resolutions@;
        let found = self.position_of_edge(&dependency);
        let answer = Resolution { dependency, uri: resolved_uri };
        let mut resolutions: Vec<Resolution> = Vec::new();
        core::mem::swap(&mut self.resolutions, &mut resolutions);
        let ghost place: int;
        match found {
            Some(i) => {
                proof {
                    place = i as int;
                }
                resolutions.set(i, answer);
            },
            None => {
                proof {
                    place = before.len() as int;
                    assert forall|k: int| 0 <= k < before.len() implies edge_of()(
                        #[trigger] before[k],
                    ) != edge_of()(answer) by {
                        assert(!keyed_at(before, edge_of(), answer.dependency@, k));
                    }
                }
                resolutions.push(answer);
            },
        }
        proof {
            lemma_put(before, resolutions@, edge_of(), target_of(), answer, place);
        }
        self.resolutions = resolutions;
    }

    /// The node under a uri, if the graph holds one.
    pub fn module_by_uri(&self, uri: &String) -> (found: Option<&ModuleGraphModule>)
        ensures
            match found {
                Some(node) => self.nodes().contains_key(uri@) && self.nodes()[uri@] == *node
                    && node.spec_identity().uri@ == uri@,
                None => !self.nodes().contains_key(uri@),
            },
    {
        proof {
            use_type_invariant(self);
        }
        match self.position_of_uri(uri) {
            Some(i) => {
                proof {
                    lemma_found(self.modules@, uri_of(), itself(), i as int);
                }
                Some(&self.modules[i])
            },
            None => {
                proof {
                    lemma_absent(self.modules@, uri_of(), itself(), uri@);
                }
                None
            },
        }
    }

    /// The node that an edge leads to, if it leads to one. An edge that was
    /// never resolved, or whose target the graph does not hold, leads
    /// nowhere, and that is no error.
    pub fn module_by_dependency(&self, dependency: &Dependency) -> (found: Option<
        &ModuleGraphModule,
    >)
        ensures
            match found {
                Some(node) => self.resolve(dependency@) == Some(*node),
                None => self.resolve(dependency@) is None,
            },
    {
        proof {
            use_type_invariant(self);
        }
        match self.position_of_edge(dependency) {
            Some(i) => {
                proof {
                    lemma_found(self.resolutions@, edge_of(), target_of(), i as int);
                }
                self.module_by_uri(&self.resolutions[i].uri)
            },
            None => {
                proof {
                    lemma_absent(self.resolutions@, edge_of(), target_of(), dependency@);
                }
                None
            },
        }
    }
}

} // verus!
