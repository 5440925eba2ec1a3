use vstd::prelude::*;

verus! {

/// How an import asks for its target. A record keeps the kind that it was
/// made with.
#[derive(Clone, Copy, Debug, PartialEq, Eq, Hash, Structural)]
pub enum ResolveKind {
    Import,
    Require,
    DynamicImport,
    AtImport,
}

impl ResolveKind {
    /// Only `DynamicImport` marks a point where the output may be split.
    pub open spec fn spec_is_dynamic(self) -> bool {
        self == ResolveKind::DynamicImport
    }

    /// Whether an import of this kind may be loaded apart from its
    /// importer. Every kind but `DynamicImport` ships with the importer.
    #[verifier::when_used_as_spec(spec_is_dynamic)]
    pub fn is_dynamic(self) -> (dynamic: bool)
        ensures
            dynamic == self.spec_is_dynamic(),
    {
        match self {
            ResolveKind::DynamicImport => true,
            _ => false,
        }
    }
}

/// An edge as a module declares it: the text of the import and its kind.
#[derive(Clone, Debug, PartialEq, Eq, Hash)]
pub struct ModuleDependency {
    pub specifier: String,
    pub kind: ResolveKind,
}

/// A declared edge with its text as a sequence of characters.
pub struct ModuleDependencyView {
    pub specifier: Seq<char>,
    pub kind: ResolveKind,
}

impl View for ModuleDependency {
    type V = ModuleDependencyView;

    open spec fn view(&self) -> ModuleDependencyView {
        ModuleDependencyView { specifier: self.specifier@, kind: self.kind }
    }
}

/// An edge as the graph keys it: the declared edge and the uri of the module
/// that declared it. An entry point is imported by nobody.
#[derive(Clone, Debug, PartialEq, Eq, Hash)]
pub struct Dependency {
    pub importer: Option<String>,
    pub detail: ModuleDependency,
}

/// An edge as the graph keys it, with its texts as sequences of characters.
/// Two edges are the same key when their views are equal.
pub struct DependencyView {
    pub importer: Option<Seq<char>>,
    pub detail: ModuleDependencyView,
}

impl View for Dependency {
    type V = DependencyView;

    open spec fn view(&self) -> DependencyView {
        DependencyView {
            importer: match self.importer {
                Some(uri) => Some(uri@),
                None => None,
            },
            detail: self.detail@,
        }
    }
}

impl DependencyView {
    /// Whether the edge is a dynamic import.
    pub open spec fn is_dynamic(self) -> bool {
        self.detail.kind.spec_is_dynamic()
    }
}

impl ModuleDependency {
    /// Whether two declared edges read the same: same text, same kind.
    pub fn same_as(&self, other: &ModuleDependency) -> (same: bool)
        ensures
            same == (self@ == other@),
    {
        self.specifier == other.specifier && self.kind == other.kind
    }
}

impl Dependency {
    pub open spec fn spec_is_dynamic(&self) -> bool {
        self@.is_dynamic()
    }

    /// Whether the edge is a dynamic import.
    #[verifier::when_used_as_spec(spec_is_dynamic)]
    pub fn is_dynamic(&self) -> (dynamic: bool)
        ensures
            dynamic == self@.is_dynamic(),
    {
        self.detail.kind.is_dynamic()
    }

    /// Whether two edges are the same key: same importer, same text, same kind.
    pub fn same_as(&self, other: &Dependency) -> (same: bool)
        ensures
            same == (self@ == other@),
    {
        let same_importer = match &self.importer {
            Some(a) => match &other.importer {
                Some(b) => *a == *b,
                None => false,
            },
            None => other.importer.is_none(),
        };
        same_importer && self.detail.same_as(&other.detail)
    }
}

} // verus!
