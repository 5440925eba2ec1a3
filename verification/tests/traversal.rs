use module_graph::{
    AssetModule, BoxModule, Compilation, Dependency, Module, ModuleDependency, ModuleGraph,
    ModuleGraphModule, ModuleIdentity, ModuleRenderResult, ModuleType, ResolveKind, SourceType,
};

/// A script that renders to its own text.
struct ScriptModule {
    source: String,
}

const SCRIPT_KINDS: [SourceType; 1] = [SourceType::JavaScript];

impl Module for ScriptModule {
    fn spec_module_type(&self) -> ModuleType {
        unreachable!()
    }

    fn spec_source_types(
        &self,
        _module: &ModuleIdentity,
        _dependencies: vstd::seq::Seq<Dependency>,
        _compilation: &Compilation,
    ) -> vstd::seq::Seq<SourceType> {
        unreachable!()
    }

    fn module_type(&self) -> ModuleType {
        ModuleType::Js
    }

    fn source_types(
        &self,
        _module: &ModuleIdentity,
        _dependencies: &[Dependency],
        _compilation: &Compilation,
    ) -> &[SourceType] {
        &SCRIPT_KINDS
    }

    fn render(
        &self,
        requested_source_type: SourceType,
        _module: &ModuleIdentity,
        _dependencies: &[Dependency],
        _compilation: &Compilation,
    ) -> Result<Option<ModuleRenderResult>, anyhow::Error> {
        match requested_source_type {
            SourceType::JavaScript => Ok(Some(ModuleRenderResult::JavaScript(self.source.clone()))),
            _ => Ok(None),
        }
    }
}

fn edge(importer: &str, specifier: &str, kind: ResolveKind) -> Dependency {
    Dependency {
        importer: Some(importer.to_string()),
        detail: ModuleDependency { specifier: specifier.to_string(), kind },
    }
}

fn script(uri: &str, dependencies: Vec<Dependency>) -> ModuleGraphModule {
    let module: BoxModule = Box::new(ScriptModule { source: format!("// {}", uri) });
    ModuleGraphModule::new(
        None,
        uri.trim_start_matches('/').to_string(),
        uri.to_string(),
        module,
        dependencies,
        ModuleType::Js,
    )
}

fn uris(found: &[&ModuleGraphModule]) -> Vec<String> {
    found.iter().map(|node| node.identity.uri.clone()).collect()
}

/// A imports B, reaches C by a dynamic import, and names X, which nobody
/// resolved; B, C and D import nothing.
fn small_graph() -> ModuleGraph {
    let mut graph = ModuleGraph::new();
    graph.add_module(script(
        "/a",
        vec![
            edge("/a", "./b", ResolveKind::Import),
            edge("/a", "./x", ResolveKind::Import),
            edge("/a", "./c", ResolveKind::DynamicImport),
            edge("/a", "./b", ResolveKind::DynamicImport),
            edge("/a", "./d", ResolveKind::Require),
        ],
    ));
    graph.add_module(script("/b", Vec::new()));
    graph.add_module(script("/c", Vec::new()));
    graph.add_module(script("/d", Vec::new()));
    graph.add_dependency(edge("/a", "./b", ResolveKind::Import), "/b".to_string());
    graph.add_dependency(edge("/a", "./c", ResolveKind::DynamicImport), "/c".to_string());
    graph.add_dependency(edge("/a", "./b", ResolveKind::DynamicImport), "/b".to_string());
    graph.add_dependency(edge("/a", "./d", ResolveKind::Require), "/d".to_string());
    graph
}

#[test]
fn static_and_dynamic_edges_are_told_apart() {
    let mut graph = ModuleGraph::new();
    graph.add_module(script(
        "/a",
        vec![
            edge("/a", "./b", ResolveKind::Import),
            edge("/a", "./c", ResolveKind::DynamicImport),
        ],
    ));
    graph.add_module(script("/b", Vec::new()));
    graph.add_module(script("/c", Vec::new()));
    graph.add_dependency(edge("/a", "./b", ResolveKind::Import), "/b".to_string());
    graph.add_dependency(edge("/a", "./c", ResolveKind::DynamicImport), "/c".to_string());

    let a = graph.module_by_uri(&"/a".to_string()).unwrap();
    assert_eq!(a.module.module_type(), ModuleType::Js);
    assert_eq!(uris(&a.depended_modules(&graph)), vec!["/b".to_string()]);
    assert_eq!(uris(&a.dynamic_depended_modules(&graph)), vec!["/c".to_string()]);
}

#[test]
fn edge_without_a_node_is_omitted_every_time() {
    let mut graph = ModuleGraph::new();
    graph.add_module(script("/a", vec![edge("/a", "D", ResolveKind::Import)]));
    let a = graph.module_by_uri(&"/a".to_string()).unwrap();
    for _ in 0..2 {
        assert!(a.depended_modules(&graph).is_empty());
        assert!(a.dynamic_depended_modules(&graph).is_empty());
    }
}

#[test]
fn edge_resolved_to_a_missing_node_is_omitted() {
    let mut graph = ModuleGraph::new();
    graph.add_module(script(
        "/a",
        vec![
            edge("/a", "D", ResolveKind::Import),
            edge("/a", "E", ResolveKind::DynamicImport),
        ],
    ));
    graph.add_dependency(edge("/a", "D", ResolveKind::Import), "/d".to_string());
    graph.add_dependency(edge("/a", "E", ResolveKind::DynamicImport), "/e".to_string());
    let a = graph.module_by_uri(&"/a".to_string()).unwrap();
    assert!(a.depended_modules(&graph).is_empty());
    assert!(a.dynamic_depended_modules(&graph).is_empty());
    assert!(a.depended_modules(&graph).is_empty());
    assert!(a.dynamic_depended_modules(&graph).is_empty());
}

#[test]
fn leaf_asset_has_no_neighbors_and_renders_its_bytes() {
    let bytes: Vec<u8> = vec![0x89, 0x50, 0x4e, 0x47, 0, 255];
    let module: BoxModule = Box::new(AssetModule::new(bytes.clone()));
    let mut graph = ModuleGraph::new();
    graph.add_module(ModuleGraphModule::new(
        None,
        "logo".to_string(),
        "/logo.png".to_string(),
        module,
        Vec::new(),
        ModuleType::Asset,
    ));
    let compilation = Compilation { public_path: "/".to_string() };
    let leaf = graph.module_by_uri(&"/logo.png".to_string()).unwrap();
    assert!(leaf.depended_modules(&graph).is_empty());
    assert!(leaf.dynamic_depended_modules(&graph).is_empty());
    assert!(leaf.dependencies().is_empty());
    let rendered = leaf
        .module
        .render(SourceType::Asset, &leaf.identity, leaf.dependencies(), &compilation)
        .unwrap();
    assert_eq!(rendered, Some(ModuleRenderResult::Asset(bytes)));
}

#[test]
fn modules_that_import_each_other_find_each_other() {
    let mut graph = ModuleGraph::new();
    graph.add_module(script("/a", vec![edge("/a", "./b", ResolveKind::Import)]));
    graph.add_module(script("/b", vec![edge("/b", "./a", ResolveKind::Import)]));
    graph.add_dependency(edge("/a", "./b", ResolveKind::Import), "/b".to_string());
    graph.add_dependency(edge("/b", "./a", ResolveKind::Import), "/a".to_string());

    let a = graph.module_by_uri(&"/a".to_string()).unwrap();
    let b = graph.module_by_uri(&"/b".to_string()).unwrap();
    assert_eq!(uris(&a.depended_modules(&graph)), vec!["/b".to_string()]);
    assert_eq!(uris(&b.depended_modules(&graph)), vec!["/a".to_string()]);
    assert!(a.dynamic_depended_modules(&graph).is_empty());
    assert!(b.dynamic_depended_modules(&graph).is_empty());

    // Round the cycle and back: the node reached is the node started from.
    let back = b.depended_modules(&graph)[0].depended_modules(&graph);
    assert!(std::ptr::eq(back[0], b));
}

#[test]
fn module_that_imports_itself_finds_itself() {
    let mut graph = ModuleGraph::new();
    graph.add_module(script("/a", vec![edge("/a", "./a", ResolveKind::Require)]));
    graph.add_dependency(edge("/a", "./a", ResolveKind::Require), "/a".to_string());
    let a = graph.module_by_uri(&"/a".to_string()).unwrap();
    let found = a.depended_modules(&graph);
    assert_eq!(found.len(), 1);
    assert!(std::ptr::eq(found[0], a));
}

#[test]
fn traversals_part_the_resolvable_edges() {
    let graph = small_graph();
    let a = graph.module_by_uri(&"/a".to_string()).unwrap();
    let kept = a.depended_modules(&graph);
    let later = a.dynamic_depended_modules(&graph);
    assert_eq!(uris(&kept), vec!["/b".to_string(), "/d".to_string()]);
    assert_eq!(uris(&later), vec!["/c".to_string(), "/b".to_string()]);

    let resolvable: Vec<&Dependency> = a
        .dependencies()
        .iter()
        .filter(|edge| graph.module_by_dependency(edge).is_some())
        .collect();
    assert_eq!(resolvable.len(), 4);
    assert_eq!(kept.len() + later.len(), resolvable.len());
    for edge in resolvable {
        let target = graph.module_by_dependency(edge).unwrap();
        let in_kept = kept.iter().any(|node| std::ptr::eq(*node, target));
        let in_later = later.iter().any(|node| std::ptr::eq(*node, target));
        if edge.is_dynamic() {
            assert!(in_later);
        } else {
            assert!(in_kept);
        }
    }
}

#[test]
fn node_imported_both_ways_is_found_by_both_traversals() {
    let graph = small_graph();
    let a = graph.module_by_uri(&"/a".to_string()).unwrap();
    let b = graph.module_by_uri(&"/b".to_string()).unwrap();
    assert!(a.depended_modules(&graph).iter().any(|node| std::ptr::eq(*node, b)));
    assert!(a.dynamic_depended_modules(&graph).iter().any(|node| std::ptr::eq(*node, b)));
}

#[test]
fn traversals_keep_the_order_of_the_edges() {
    let mut graph = ModuleGraph::new();
    let names = ["/m3", "/m1", "/m4", "/m0", "/m2"];
    let mut edges = Vec::new();
    for name in names {
        edges.push(edge("/a", name, ResolveKind::Import));
        edges.push(edge("/a", name, ResolveKind::DynamicImport));
        graph.add_module(script(name, Vec::new()));
        graph.add_dependency(edge("/a", name, ResolveKind::Import), name.to_string());
        graph.add_dependency(edge("/a", name, ResolveKind::DynamicImport), name.to_string());
    }
    edges.reverse();
    graph.add_module(script("/a", edges));
    let a = graph.module_by_uri(&"/a".to_string()).unwrap();
    let expected: Vec<String> = names.iter().rev().map(|name| name.to_string()).collect();
    assert_eq!(uris(&a.depended_modules(&graph)), expected);
    assert_eq!(uris(&a.dynamic_depended_modules(&graph)), expected);
}

#[test]
fn every_kind_but_dynamic_import_is_static() {
    let mut graph = ModuleGraph::new();
    let kinds = [
        ResolveKind::Import,
        ResolveKind::Require,
        ResolveKind::DynamicImport,
        ResolveKind::AtImport,
    ];
    let mut edges = Vec::new();
    for (i, kind) in kinds.iter().enumerate() {
        let uri = format!("/m{}", i);
        edges.push(edge("/a", &uri, *kind));
        graph.add_module(script(&uri, Vec::new()));
        graph.add_dependency(edge("/a", &uri, *kind), uri.clone());
    }
    graph.add_module(script("/a", edges));
    let a = graph.module_by_uri(&"/a".to_string()).unwrap();
    assert_eq!(
        uris(&a.depended_modules(&graph)),
        vec!["/m0".to_string(), "/m1".to_string(), "/m3".to_string()]
    );
    assert_eq!(uris(&a.dynamic_depended_modules(&graph)), vec!["/m2".to_string()]);
}

#[test]
fn repeated_traversals_find_the_same_nodes() {
    let graph = small_graph();
    let a = graph.module_by_uri(&"/a".to_string()).unwrap();
    let first = a.depended_modules(&graph);
    let second = a.depended_modules(&graph);
    assert_eq!(first.len(), second.len());
    for (one, other) in first.iter().zip(second.iter()) {
        assert!(std::ptr::eq(*one, *other));
    }
    let first = a.dynamic_depended_modules(&graph);
    let second = a.dynamic_depended_modules(&graph);
    assert_eq!(first.len(), second.len());
    for (one, other) in first.iter().zip(second.iter()) {
        assert!(std::ptr::eq(*one, *other));
    }
}

#[test]
fn unresolved_edge_changes_nothing_else() {
    let graph = small_graph();
    let size = graph.len();
    let a = graph.module_by_uri(&"/a".to_string()).unwrap();
    let kept = uris(&a.depended_modules(&graph));
    let later = uris(&a.dynamic_depended_modules(&graph));
    assert!(!kept.contains(&"/x".to_string()));
    assert!(!later.contains(&"/x".to_string()));
    assert_eq!(graph.len(), size);

    // The same node without the edge that leads nowhere finds the same.
    let mut edges = a.dependencies().to_vec();
    let unresolved = edges.remove(1);
    assert_eq!(unresolved.detail.specifier, "./x");
    let without = script("/a", edges);
    assert_eq!(uris(&without.depended_modules(&graph)), kept);
    assert_eq!(uris(&without.dynamic_depended_modules(&graph)), later);
}

#[test]
fn node_without_edges_has_no_neighbors() {
    let graph = small_graph();
    let d = graph.module_by_uri(&"/d".to_string()).unwrap();
    assert!(d.depended_modules(&graph).is_empty());
    assert!(d.dynamic_depended_modules(&graph).is_empty());
}

#[test]
fn node_outside_the_graph_can_be_traversed() {
    let graph = small_graph();
    let loose = script("/a", vec![edge("/a", "./c", ResolveKind::DynamicImport)]);
    assert!(loose.depended_modules(&graph).is_empty());
    assert_eq!(uris(&loose.dynamic_depended_modules(&graph)), vec!["/c".to_string()]);
}
