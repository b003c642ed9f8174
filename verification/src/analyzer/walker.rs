//! What the first pass does with one import and with one exported binding.

use crate::i18n_packages::{preset_kind, preset_member_type};
use crate::i18n_types::{opt_member, I18nMember, I18nType, MemberView};
use crate::node::{
    edge_target, edges_view, find_edge_target, i18n_export_of, lemma_edge_index_found,
    lemma_export_index_found, put_edge, Edge, EdgeView, ExportView, NodeView,
};
use crate::node_store::{
    connect, graph_wf, grown, importing_index, lemma_connect, lemma_connect_links,
    lemma_connect_shape, lemma_export, lemma_grown_trans, lemma_mark, lemma_node_index_found,
    linked_by, links_wf, mark, node_index, same_names, store_wf, NodeStore,
};
use crate::pattern::{is_external, matches_external, Externals};
use crate::resolver::{find_resolution, resolved_path, Resolution};
use crate::syntax::{all_after, NodeKind, SyntaxTree};
use crate::text::{contains_index, text_eq};
use crate::walk_utils::{defined_node, hook_namespace, Scene, WalkerUtils};
use vstd::prelude::*;

verus! {

/// What the walk over one file goes by.
pub struct Setting {
    /// The tree of the file.
    pub tree: SyntaxTree,
    /// The place of the file in the graph.
    pub node: int,
    /// The patterns of the external packages.
    pub externals: Seq<Seq<char>>,
    /// What the import specifiers of the file resolve to.
    pub resolutions: Seq<Resolution>,
    /// The nodes that exported a translation primitive when the walk began.
    pub exporters: Seq<usize>,
}

/// What the walk over one file has done so far.
pub struct Pass {
    /// The graph.
    pub store: Seq<NodeView>,
    /// The imports whose target is not a node of the graph yet.
    pub pending: Seq<EdgeView>,
}

impl Setting {
    /// The scene that texts are read in, over the graph `store`.
    pub open spec fn scene(self, store: Seq<NodeView>) -> Scene {
        Scene { tree: self.tree, store, node: self.node }
    }

    /// The setting fits the graph `store`: the file is one of its nodes, and
    /// the nodes noted as exporting a translation primitive do so.
    pub open spec fn fits(self, store: Seq<NodeView>) -> bool {
        &&& self.tree.wf()
        &&& 0 <= self.node < store.len()
        &&& forall|j: usize| #[trigger]
            self.exporters.contains(j) ==> j < store.len() && store[j as int].exported_i18n
    }

    /// The edges of the file, and the imports that wait, lead where the
    /// answers of the resolver say.
    pub open spec fn agrees(self, pass: Pass) -> bool {
        &&& answers_agree(pass.store[self.node].importing, self.resolutions)
        &&& answers_agree(pass.pending, self.resolutions)
    }

    /// A step of the walk from `before` to `after` was sound: where the walk
    /// agreed with the resolver before, it still does, and the laws of the
    /// graph still hold if they held.
    pub open spec fn sound(self, before: Pass, after: Pass) -> bool {
        self.agrees(before) ==> self.agrees(after) && (graph_wf(before.store) ==> graph_wf(
            after.store,
        ))
    }
}

/// The nodes among `store[from..]` that export a translation primitive.
pub open spec fn exporters_from(store: Seq<NodeView>, from: int) -> Seq<usize>
    decreases store.len() - from,
{
    if from < 0 || from >= store.len() {
        Seq::empty()
    } else if store[from].exported_i18n {
        seq![from as usize] + exporters_from(store, from + 1)
    } else {
        exporters_from(store, from + 1)
    }
}

/// The nodes of `store` that export a translation primitive.
pub open spec fn exporters_of(store: Seq<NodeView>) -> Seq<usize> {
    exporters_from(store, 0)
}

/// Every edge of `edges` leads where the answers of the resolver say.
pub open spec fn answers_agree(edges: Seq<EdgeView>, resolutions: Seq<Resolution>) -> bool {
    forall|k: int|
        0 <= k < edges.len() ==> resolved_path(resolutions, (#[trigger] edges[k]).specifier)
            == Some(edges[k].target)
}

/// Recording an edge that the answers of the resolver give keeps the edges in
/// agreement with the answers.
pub proof fn lemma_put_edge_agrees(
    edges: Seq<EdgeView>,
    specifier: Seq<char>,
    target: Seq<char>,
    resolutions: Seq<Resolution>,
)
    requires
        answers_agree(edges, resolutions),
        resolved_path(resolutions, specifier) == Some(target),
    ensures
        answers_agree(put_edge(edges, specifier, target), resolutions),
        edge_target(edges, specifier) is None || edge_target(edges, specifier) == Some(target),
{
    let after = put_edge(edges, specifier, target);
    lemma_edge_index_found(edges, specifier, edges.len() as int);
    assert forall|k: int| 0 <= k < after.len() implies resolved_path(
        resolutions,
        (#[trigger] after[k]).specifier,
    ) == Some(after[k].target) by {
        if k < edges.len() && after[k] != edges[k] {
        } else if k < edges.len() {
            assert(after[k] == edges[k]);
        }
    }
}

/// The graph `after` came from `before` by a step of the walk over the file
/// at node `node`: nothing was taken away, no node was added, the edges of
/// every other node are as they were, a store that was in order still is,
/// and every edge is closed if every edge was.
pub open spec fn kept(before: Seq<NodeView>, after: Seq<NodeView>, node: int) -> bool {
    &&& grown(before, after)
    &&& after.len() == before.len()
    &&& forall|n: int|
        0 <= n < before.len() && n != node ==> (#[trigger] after[n]).importing
            == before[n].importing
    &&& (store_wf(before) ==> store_wf(after))
    &&& (links_wf(before) ==> links_wf(after))
}

/// Steps of the walk can be put one after the other.
pub proof fn lemma_kept_trans(a: Seq<NodeView>, b: Seq<NodeView>, c: Seq<NodeView>, node: int)
    requires
        kept(a, b, node),
        kept(b, c, node),
    ensures
        kept(a, c, node),
{
    lemma_grown_trans(a, b, c);
    assert forall|n: int| 0 <= n < a.len() && n != node implies (#[trigger] c[n]).importing
        == a[n].importing by {
        assert(b[n].importing == a[n].importing);
    }
}

/// A setting that fits a graph fits what the graph grows into.
pub proof fn lemma_fits_grown(setting: Setting, before: Seq<NodeView>, after: Seq<NodeView>)
    requires
        setting.fits(before),
        grown(before, after),
    ensures
        setting.fits(after),
{
    assert forall|j: usize| #[trigger] setting.exporters.contains(j) implies j < after.len()
        && after[j as int].exported_i18n by {
        assert(after[j as int].file_path == before[j as int].file_path);
    }
}

/// Whether one of `specifiers[from..]` is a classified export among `members`, or is `*`.
pub open spec fn names_i18n_from(members: Seq<ExportView>, specifiers: Seq<Seq<char>>, from: int) -> bool
    decreases specifiers.len() - from,
{
    if from < 0 || from >= specifiers.len() {
        false
    } else {
        i18n_export_of(members, specifiers[from]) is Some || specifiers[from] == "*"@
            || names_i18n_from(members, specifiers, from + 1)
    }
}

/// `pending` with the import `source -> path` noted, unless `source` is noted already.
pub open spec fn pending_put(pending: Seq<EdgeView>, source: Seq<char>, path: Seq<char>) -> Seq<EdgeView> {
    if edge_target(pending, source) is Some {
        pending
    } else {
        pending.push(EdgeView { specifier: source, target: path })
    }
}

/// The state of the walk after the import of `source` with the names
/// `specifiers` was resolved.
///
/// * An unresolved specifier changes nothing.
/// * An external specifier changes nothing, unless its target was noted as
///   exporting a translation primitive when the walk began.
/// * A target that is a node of the graph gets the file as importer, and the
///   specifier leads from the file to the target, wherever it led before; the
///   file is marked when the target was noted as exporting a translation
///   primitive and one of the names is among its classified exports or is `*`.
/// * Any other target is noted for later.
pub open spec fn resolve_import(setting: Setting, pass: Pass, source: Seq<char>, specifiers: Seq<Seq<char>>) -> Pass {
    match resolved_path(setting.resolutions, source) {
        Some(path) => match node_index(pass.store, path) {
            Some(target) => {
                let noted = setting.exporters.contains(target as usize);
                if is_external(setting.externals, source) && !noted {
                    pass
                } else {
                    let linked = connect(pass.store, setting.node, source, target);
                    if noted && names_i18n_from(pass.store[target].exporting, specifiers, 0) {
                        Pass { store: mark(linked, setting.node), pending: pass.pending }
                    } else {
                        Pass { store: linked, pending: pass.pending }
                    }
                }
            },
            None => if is_external(setting.externals, source) {
                pass
            } else {
                Pass { store: pass.store, pending: pending_put(pass.pending, source, path) }
            },
        },
        None => pass,
    }
}

/// The node that the import of `source` leads to and is recorded for: the
/// node with the path that the resolver answers, unless `source` is an
/// external package and that node was not noted as exporting a translation
/// primitive.
pub open spec fn connects(setting: Setting, store: Seq<NodeView>, source: Seq<char>) -> Option<int> {
    match resolved_path(setting.resolutions, source) {
        Some(path) => match node_index(store, path) {
            Some(target) => if is_external(setting.externals, source) && !setting.exporters.contains(
                target as usize,
            ) {
                None
            } else {
                Some(target)
            },
            None => None,
        },
        None => None,
    }
}

/// An import of an external package changes nothing, unless it resolves to a
/// node that was noted as exporting a translation primitive when the walk began.
pub proof fn lemma_external_import_dropped(
    setting: Setting,
    pass: Pass,
    source: Seq<char>,
    specifiers: Seq<Seq<char>>,
)
    requires
        is_external(setting.externals, source),
        match resolved_path(setting.resolutions, source) {
            Some(path) => match node_index(pass.store, path) {
                Some(target) => !setting.exporters.contains(target as usize),
                None => true,
            },
            None => true,
        },
    ensures
        resolve_import(setting, pass, source, specifiers) == pass,
{
}

/// The classification that a preset name stands for.
pub open spec fn fallback_member(name: Seq<char>) -> Option<MemberView> {
    match preset_kind(name) {
        Some(kind) => Some(MemberView { kind, ns: None }),
        None => None,
    }
}

/// The classification of call `call`: its callee is a named import of a
/// classified export of another module; the namespace is the one that the
/// first argument of the call names.
pub open spec fn imported_member(scene: Scene, call: usize) -> Option<MemberView> {
    match scene.kind(call) {
        NodeKind::Call { callee, .. } => match scene.kind(callee) {
            NodeKind::Identifier { reference, .. } => match defined_node(scene.tree, reference) {
                Some(declaration) => match (scene.kind(declaration), scene.parent(declaration)) {
                    (NodeKind::ImportSpecifier { imported, .. }, Some(parent)) => match scene.kind(
                        parent,
                    ) {
                        NodeKind::ImportDeclaration { source, .. } => match importing_index(
                            scene.store,
                            scene.node,
                            source@,
                        ) {
                            Some(target) => match i18n_export_of(
                                scene.store[target].exporting,
                                imported@,
                            ) {
                                Some(member) => Some(
                                    MemberView {
                                        kind: member.kind,
                                        ns: hook_namespace(
                                            scene.tree,
                                            scene.store,
                                            scene.node,
                                            call,
                                        ),
                                    },
                                ),
                                None => None,
                            },
                            None => None,
                        },
                        _ => None,
                    },
                    _ => None,
                },
                None => None,
            },
            _ => None,
        },
        _ => None,
    }
}

/// The call that statement `statement` returns: the expression of an arrow
/// function with an expression body, or the argument of `return`.
pub open spec fn single_call(tree: SyntaxTree, statement: usize, expression_body: bool) -> Option<usize> {
    match tree.nodes[statement as int].kind {
        NodeKind::ExpressionStatement { expression } => if expression_body && tree.nodes[expression as int].kind is Call {
            Some(expression)
        } else {
            None
        },
        NodeKind::Return { argument: Some(argument) } => if !expression_body && tree.nodes[argument as int].kind is Call {
            Some(argument)
        } else {
            None
        },
        _ => None,
    }
}

/// Whether node `id` is a call of the plain name `name`.
pub open spec fn calls_named(tree: SyntaxTree, id: usize, name: Seq<char>) -> bool {
    match tree.nodes[id as int].kind {
        NodeKind::Call { callee, .. } => match tree.nodes[callee as int].kind {
            NodeKind::Identifier { name: callee_name, .. } => callee_name@ == name,
            _ => false,
        },
        _ => false,
    }
}

/// Whether one of the declarators `from..` is initialized by a call of the preset hook.
pub open spec fn declares_hook_from(tree: SyntaxTree, declarations: Seq<usize>, from: int) -> bool
    decreases declarations.len() - from,
{
    if from < 0 || from >= declarations.len() {
        false
    } else {
        let here = match tree.nodes[declarations[from] as int].kind {
            NodeKind::VariableDeclarator { init: Some(init), .. } => calls_named(
                tree,
                init,
                "useTranslation"@,
            ),
            _ => false,
        };
        here || declares_hook_from(tree, declarations, from + 1)
    }
}

/// Whether statement `id` binds the result of the preset hook.
pub open spec fn statement_contains_use_translation(tree: SyntaxTree, id: usize) -> bool {
    match tree.nodes[id as int].kind {
        NodeKind::VariableDeclaration { declarations } => declares_hook_from(tree, declarations@, 0),
        _ => false,
    }
}

/// Whether statement `id` returns a call of the preset translator.
pub open spec fn statement_returns_t(tree: SyntaxTree, id: usize) -> bool {
    match tree.nodes[id as int].kind {
        NodeKind::Return { argument: Some(argument) } => calls_named(tree, argument, "t"@),
        _ => false,
    }
}

/// Whether one of the statements `from..` binds the result of the preset hook.
pub open spec fn uses_hook_from(tree: SyntaxTree, statements: Seq<usize>, from: int) -> bool
    decreases statements.len() - from,
{
    if from < 0 || from >= statements.len() {
        false
    } else {
        statement_contains_use_translation(tree, statements[from]) || uses_hook_from(
            tree,
            statements,
            from + 1,
        )
    }
}

/// Whether one of the statements `from..` returns a call of the preset translator.
pub open spec fn returns_t_from(tree: SyntaxTree, statements: Seq<usize>, from: int) -> bool
    decreases statements.len() - from,
{
    if from < 0 || from >= statements.len() {
        false
    } else {
        statement_returns_t(tree, statements[from]) || returns_t_from(tree, statements, from + 1)
    }
}

/// Whether a function with the body `statements` is a hook of its own making:
/// it calls the preset hook and returns a call of the translator.
pub open spec fn is_custom_i18n_hook_function(tree: SyntaxTree, statements: Seq<usize>) -> bool {
    uses_hook_from(tree, statements, 0) && returns_t_from(tree, statements, 0)
}

/// The classification that the function `init` earns the name it is bound to.
pub open spec fn function_member(scene: Scene, init: usize) -> Option<MemberView> {
    match scene.kind(init) {
        NodeKind::Arrow { body, expression, .. } => if body.len() == 1 {
            match single_call(scene.tree, body[0], expression) {
                Some(call) => imported_member(scene, call),
                None => None,
            }
        } else if is_custom_i18n_hook_function(scene.tree, body@) {
            Some(MemberView { kind: I18nType::Hook, ns: None })
        } else {
            None
        },
        NodeKind::Function { body: Some(body), expression, .. } => if expression && body.len()
            == 1 {
            match single_call(scene.tree, body[0], false) {
                Some(call) => imported_member(scene, call),
                None => None,
            }
        } else {
            None
        },
        _ => None,
    }
}

/// The classification of the binding made by declarator `declarator`.
///
/// In a file that imports a translation primitive, a function that returns the
/// call of an imported primitive takes over its kind, and a function that
/// wraps the preset hook is a hook. Failing that, a binding with a preset name
/// has the kind of that name.
pub open spec fn resolve_i18n_export(scene: Scene, declarator: usize) -> Option<MemberView> {
    match scene.kind(declarator) {
        NodeKind::VariableDeclarator { id, init } => {
            let fallback = match scene.kind(id) {
                NodeKind::BindingIdentifier { name, .. } => fallback_member(name@),
                _ => None,
            };
            let earned = match init {
                Some(function) => if scene.store[scene.node].imported_i18n {
                    function_member(scene, function)
                } else {
                    None
                },
                None => None,
            };
            match earned {
                Some(member) => Some(member),
                None => fallback,
            }
        },
        _ => None,
    }
}

/// `store` after the file exported `name` as `member`.
pub open spec fn with_export_at(store: Seq<NodeView>, node: int, name: Seq<char>, member: Option<MemberView>) -> Seq<
    NodeView,
> {
    store.update(node, store[node].with_export(name, member))
}

/// The view of a list of names with their classifications.
pub open spec fn named_members(members: Seq<(String, Option<I18nMember>)>) -> Seq<
    (Seq<char>, Option<MemberView>),
> {
    members.map_values(|m: (String, Option<I18nMember>)| (m.0@, opt_member(m.1)))
}

/// `store` after the file exported each of `members[from..]`, one after the other.
pub open spec fn with_exports_at(
    store: Seq<NodeView>,
    node: int,
    members: Seq<(Seq<char>, Option<MemberView>)>,
    from: int,
) -> Seq<NodeView>
    decreases members.len() - from,
{
    if from < 0 || from >= members.len() {
        store
    } else {
        with_exports_at(
            with_export_at(store, node, members[from].0, members[from].1),
            node,
            members,
            from + 1,
        )
    }
}

/// The walk over the tree of one file during the first pass.
pub struct Walker<'a> {
    /// The place of the file in the graph.
    pub node: usize,
    /// The tree of the file.
    pub tree: &'a SyntaxTree,
    /// The compiled patterns of the external packages.
    pub externals: &'a Externals,
    /// What the import specifiers of the file resolve to.
    pub resolutions: &'a Vec<Resolution>,
    /// The nodes that exported a translation primitive when the walk began.
    pub i18n_methods: Vec<usize>,
    /// The imports whose target is not a node of the graph yet.
    pub importing_collection: Vec<Edge>,
}

impl<'a> Walker<'a> {
    /// What the walk goes by.
    pub open spec fn setting(&self) -> Setting {
        Setting {
            tree: *self.tree,
            node: self.node as int,
            externals: self.externals@,
            resolutions: self.resolutions@,
            exporters: self.i18n_methods@,
        }
    }

    /// The state of the walk over the graph `store`.
    pub open spec fn pass(&self, store: Seq<NodeView>) -> Pass {
        Pass { store, pending: edges_view(self.importing_collection@) }
    }

    /// The walk fits the graph `store`: its setting does.
    pub open spec fn fits(&self, store: Seq<NodeView>) -> bool {
        self.setting().fits(store)
    }

    /// `after` is this walk in a later state: it goes by the same setting.
    pub open spec fn same_setting(&self, after: &Self) -> bool {
        &&& after.node == self.node
        &&& after.tree == self.tree
        &&& after.externals == self.externals
        &&& after.resolutions == self.resolutions
        &&& after.i18n_methods == self.i18n_methods
    }

    /// The walk of the file at node `node` of `store`, which notes the nodes
    /// of `store` that export a translation primitive. No import waits yet.
    pub fn new(
        node: usize,
        tree: &'a SyntaxTree,
        externals: &'a Externals,
        resolutions: &'a Vec<Resolution>,
        store: &NodeStore,
    ) -> (walker: Self)
        requires
            tree.wf(),
            node < store.nodes.len(),
        ensures
            walker.node == node,
            walker.tree == tree,
            walker.externals == externals,
            walker.resolutions == resolutions,
            walker.importing_collection@.len() == 0,
            walker.fits(store@),
            walker.i18n_methods@ == exporters_of(store@),
            forall|j: int|
                0 <= j < store@.len() ==> (walker.i18n_methods@.contains(j as usize)
                    <==> store@[j].exported_i18n),
    {
        let mut exporters: Vec<usize> = Vec::new();
        let mut j: usize = 0;
        while j < store.nodes.len()
            invariant
                j <= store.nodes.len(),
                exporters@ + exporters_from(store@, j as int) == exporters_of(store@),
                forall|k: int|
                    0 <= k < exporters.len() ==> (#[trigger] exporters[k]) < j
                        && store@[exporters[k] as int].exported_i18n,
                forall|i: int|
                    0 <= i < j ==> (exporters@.contains(i as usize) <==> store@[i].exported_i18n),
            decreases store.nodes.len() - j,
        {
            assert(store@[j as int] == store.nodes[j as int]@);
            let ghost before = exporters@;
            if store.nodes[j].has_exported_i18n_methods {
                exporters.push(j);
                assert(exporters@[before.len() as int] == j);
                assert(before.push(j) + exporters_from(store@, j + 1) =~= before + exporters_from(
                    store@,
                    j as int,
                ));
                assert forall|i: int| 0 <= i < j + 1 implies (exporters@.contains(i as usize)
                    <==> store@[i].exported_i18n) by {
                    if i < j {
                        if before.contains(i as usize) {
                            let at = choose|at: int| 0 <= at < before.len() && before[at] == i;
                            assert(exporters@[at] == i);
                        }
                        if exporters@.contains(i as usize) {
                            let at = choose|at: int|
                                0 <= at < exporters@.len() && exporters@[at] == i;
                            assert(at < before.len());
                            assert(before[at] == i);
                        }
                    }
                }
            } else {
                assert forall|i: int| 0 <= i < j + 1 implies (exporters@.contains(i as usize)
                    <==> store@[i].exported_i18n) by {
                    if i == j && exporters@.contains(i as usize) {
                        let at = choose|at: int| 0 <= at < exporters@.len() && exporters@[at] == i;
                        assert(exporters[at] < j);
                    }
                }
            }
            j += 1;
        }
        assert(exporters@ + Seq::<usize>::empty() =~= exporters@);
        let walker = Self {
            node,
            tree,
            externals,
            resolutions,
            i18n_methods: exporters,
            importing_collection: Vec::new(),
        };
        assert(edges_view(walker.importing_collection@) =~= Seq::empty());
        walker
    }

    /// The imports whose target was not a node of the graph, in the order in
    /// which they were met.
    pub fn get_importing_collection(&self) -> (pending: &Vec<Edge>)
        ensures
            pending == &self.importing_collection,
    {
        &self.importing_collection
    }

    fn resolved_path(&self, specifier: &str) -> (path: Option<&'a String>)
        ensures
            match path {
                Some(text) => resolved_path(self.resolutions@, specifier@) == Some(text@),
                None => resolved_path(self.resolutions@, specifier@) is None,
            },
    {
        find_resolution(self.resolutions, specifier)
    }

    fn names_i18n(members: &Vec<crate::node::Export>, specifiers: &Vec<String>) -> (named: bool)
        ensures
            named == names_i18n_from(
                crate::node::exports_view(members@),
                specifiers.deep_view(),
                0,
            ),
    {
        let ghost views = crate::node::exports_view(members@);
        let ghost names = specifiers.deep_view();
        let mut i: usize = 0;
        while i < specifiers.len()
            invariant
                i <= specifiers.len(),
                views == crate::node::exports_view(members@),
                names == specifiers.deep_view(),
                names_i18n_from(views, names, i as int) == names_i18n_from(views, names, 0),
            decreases specifiers.len() - i,
        {
            assert(names[i as int] == specifiers[i as int]@);
            if crate::node::find_i18n_member(members, specifiers[i].as_str()).is_some() || text_eq(
                specifiers[i].as_str(),
                "*",
            ) {
                return true;
            }
            i += 1;
        }
        false
    }

    /// Resolves the import of `source` with the names `specifiers`.
    ///
    /// Where the import leads to a node of the graph and is not dropped as
    /// an external one, the edge of `source` is recorded, in place of the one
    /// that `source` had; the target lists the file among its importers; and
    /// the file is marked when the target was noted and one of the names is
    /// a classified export of it or `*`. The laws of the graph are kept where
    /// the edges of the file agree with the answers of the resolver.
    pub fn resolve_import(&mut self, store: &mut NodeStore, source: &str, specifiers: &Vec<String>)
        requires
            old(self).fits(old(store)@),
        ensures
            old(self).same_setting(final(self)),
            final(self).pass(final(store)@) == resolve_import(
                old(self).setting(),
                old(self).pass(old(store)@),
                source@,
                specifiers.deep_view(),
            ),
            connects(old(self).setting(), old(store)@, source@) matches Some(target) ==> {
                &&& linked_by(old(store)@, final(store)@, old(self).node as int, source@, target)
                &&& final(self).importing_collection@ == old(self).importing_collection@
                &&& final(store)@[old(self).node as int].imported_i18n == (old(
                    store,
                )@[old(self).node as int].imported_i18n || (old(self).i18n_methods@.contains(
                    target as usize,
                ) && names_i18n_from(old(store)@[target].exporting, specifiers.deep_view(), 0)))
                &&& (old(self).i18n_methods@.contains(target as usize) ==> old(
                    store,
                )@[target].exported_i18n)
            },
            kept(old(store)@, final(store)@, old(self).node as int),
            old(self).setting().sound(old(self).pass(old(store)@), final(self).pass(final(store)@)),
            final(self).fits(final(store)@),
    {
        let ghost before = store@;
        let ghost setting = self.setting();
        let ghost agreed = setting.agrees(self.pass(store@));
        let is_external = matches_external(self.externals, source);
        match self.resolved_path(source) {
            Some(path) => match store.index_of(path.as_str()) {
                Some(target) => {
                    let noted = contains_index(&self.i18n_methods, target);
                    assert(setting.exporters.contains(target) ==> before[target as int].exported_i18n);
                    if is_external && !noted {
                        return ;
                    }
                    assert(before[target as int] == store.nodes[target as int]@);
                    let named = noted && Self::names_i18n(
                        &store.nodes[target].exporting_members,
                        specifiers,
                    );
                    store.connect(self.node, source.to_owned(), target);
                    let ghost linked = store@;
                    proof {
                        lemma_node_index_found(before, path@, 0);
                        lemma_connect_shape(before, self.node as int, source@, target as int);
                        lemma_connect_links(before, self.node as int, source@, target as int);
                        if agreed {
                            lemma_put_edge_agrees(
                                before[self.node as int].importing,
                                source@,
                                path@,
                                setting.resolutions,
                            );
                            if graph_wf(before) {
                                lemma_connect(before, self.node as int, source@, target as int);
                            }
                        }
                    }
                    assert(store@.len() == store.nodes.len());
                    if named {
                        store.mark_has_i18n_source_imported(self.node);
                        proof {
                            assert(grown(linked, store@));
                            lemma_grown_trans(before, linked, store@);
                            if agreed && graph_wf(before) {
                                let k = setting.exporters.index_of(target);
                                assert(before[target as int].exported_i18n);
                                lemma_mark(linked, self.node as int);
                            }
                        }
                    }
                    proof {
                        lemma_fits_grown(setting, before, store@);
                    }
                },
                None => {
                    if is_external {
                        return ;
                    }
                    if find_edge_target(&self.importing_collection, source).is_none() {
                        let edge = Edge { specifier: source.to_owned(), target: path.clone() };
                        let ghost pending = edges_view(self.importing_collection@);
                        self.importing_collection.push(edge);
                        assert(edges_view(self.importing_collection@) =~= pending.push(edge@));
                        assert(agreed ==> answers_agree(pending.push(edge@), setting.resolutions));
                    }
                },
            },
            None => {},
        }
    }

    /// Records that the file exports `name` as `member`.
    pub fn append_export(&mut self, store: &mut NodeStore, name: String, member: Option<I18nMember>)
        requires
            old(self).fits(old(store)@),
        ensures
            *final(self) == *old(self),
            final(store)@ == with_export_at(
                old(store)@,
                old(self).node as int,
                name@,
                opt_member(member),
            ),
            kept(old(store)@, final(store)@, old(self).node as int),
            old(self).setting().sound(old(self).pass(old(store)@), final(self).pass(final(store)@)),
            final(self).fits(final(store)@),
    {
        let ghost before = store@;
        store.insert_exporting(self.node, name, member);
        proof {
            if graph_wf(before) {
                lemma_export(before, self.node as int, name@, opt_member(member));
            }
            lemma_export_index_found(before[self.node as int].exporting, name@, 0);
            assert(same_names(
                before[self.node as int].exporting,
                store@[self.node as int].exporting,
            ));
            assert(grown(before, store@));
            lemma_fits_grown(self.setting(), before, store@);
        }
    }

    /// Records each of `members` as an export of the file.
    pub fn append_exports(&mut self, store: &mut NodeStore, members: Vec<(String, Option<I18nMember>)>)
        requires
            old(self).fits(old(store)@),
        ensures
            *final(self) == *old(self),
            final(store)@ == with_exports_at(
                old(store)@,
                old(self).node as int,
                named_members(members@),
                0,
            ),
            kept(old(store)@, final(store)@, old(self).node as int),
            old(self).setting().sound(old(self).pass(old(store)@), final(self).pass(final(store)@)),
            final(self).fits(final(store)@),
    {
        let ghost before = store@;
        let ghost names = named_members(members@);
        let mut i: usize = 0;
        while i < members.len()
            invariant
                *self == *old(self),
                self.fits(store@),
                kept(before, store@, self.node as int),
                self.setting().sound(old(self).pass(before), self.pass(store@)),
                names == named_members(members@),
                i <= members.len(),
                with_exports_at(store@, self.node as int, names, i as int) == with_exports_at(
                    before,
                    self.node as int,
                    names,
                    0,
                ),
            decreases members.len() - i,
        {
            let ghost middle = store@;
            assert(names[i as int] == (members[i as int].0@, opt_member(members[i as int].1)));
            let name = members[i].0.clone();
            let member = crate::i18n_types::clone_opt_member(&members[i].1);
            self.append_export(store, name, member);
            proof {
                lemma_kept_trans(before, middle, store@, self.node as int);
            }
            i += 1;
        }
    }

    fn calls_named(&self, id: usize, name: &str) -> (named: bool)
        requires
            self.tree.wf(),
            id < self.tree.nodes.len(),
        ensures
            named == calls_named(*self.tree, id, name@),
    {
        match &self.tree.nodes[id].kind {
            NodeKind::Call { callee, .. } => match &self.tree.nodes[*callee].kind {
                NodeKind::Identifier { name: callee_name, .. } => text_eq(callee_name.as_str(), name),
                _ => false,
            },
            _ => false,
        }
    }

    /// Whether statement `stmt` binds the result of the preset hook.
    pub fn statement_contains_use_translation(&self, stmt: usize) -> (found: bool)
        requires
            self.tree.wf(),
            stmt < self.tree.nodes.len(),
        ensures
            found == statement_contains_use_translation(*self.tree, stmt),
    {
        match &self.tree.nodes[stmt].kind {
            NodeKind::VariableDeclaration { declarations } => {
                let mut i: usize = 0;
                while i < declarations.len()
                    invariant
                        self.tree.wf(),
                        stmt < self.tree.nodes.len(),
                        self.tree.nodes[stmt as int].kind == (NodeKind::VariableDeclaration {
                            declarations: *declarations,
                        }),
                        all_after(stmt as int, declarations@, self.tree.nodes.len() as int),
                        i <= declarations.len(),
                        declares_hook_from(*self.tree, declarations@, i as int)
                            == declares_hook_from(*self.tree, declarations@, 0),
                    decreases declarations.len() - i,
                {
                    match &self.tree.nodes[declarations[i]].kind {
                        NodeKind::VariableDeclarator { init: Some(init), .. } => {
                            if self.calls_named(*init, "useTranslation") {
                                return true;
                            }
                        },
                        _ => {},
                    }
                    i += 1;
                }
                false
            },
            _ => false,
        }
    }

    /// Whether a function with the body `statements` calls the preset hook and
    /// returns a call of the translator.
    pub fn is_custom_i18n_hook_function(&self, statements: &Vec<usize>, owner: usize) -> (custom:
        bool)
        requires
            self.tree.wf(),
            all_after(owner as int, statements@, self.tree.nodes.len() as int),
        ensures
            custom == is_custom_i18n_hook_function(*self.tree, statements@),
    {
        let mut uses_use_translation = false;
        let mut returns_t_call = false;
        let mut i: usize = 0;
        while i < statements.len()
            invariant
                self.tree.wf(),
                all_after(owner as int, statements@, self.tree.nodes.len() as int),
                i <= statements.len(),
                (uses_use_translation || uses_hook_from(*self.tree, statements@, i as int))
                    == uses_hook_from(*self.tree, statements@, 0),
                (returns_t_call || returns_t_from(*self.tree, statements@, i as int))
                    == returns_t_from(*self.tree, statements@, 0),
            decreases statements.len() - i,
        {
            if self.statement_contains_use_translation(statements[i]) {
                uses_use_translation = true;
            }
            match &self.tree.nodes[statements[i]].kind {
                NodeKind::Return { argument: Some(argument) } => {
                    if self.calls_named(*argument, "t") {
                        returns_t_call = true;
                    }
                },
                _ => {},
            }
            i += 1;
        }
        uses_use_translation && returns_t_call
    }

    fn single_call(&self, statement: usize, expression_body: bool) -> (call: Option<usize>)
        requires
            self.tree.wf(),
            statement < self.tree.nodes.len(),
        ensures
            call == single_call(*self.tree, statement, expression_body),
            call matches Some(c) ==> c < self.tree.nodes.len(),
    {
        match &self.tree.nodes[statement].kind {
            NodeKind::ExpressionStatement { expression } => {
                if expression_body {
                    match &self.tree.nodes[*expression].kind {
                        NodeKind::Call { .. } => Some(*expression),
                        _ => None,
                    }
                } else {
                    None
                }
            },
            NodeKind::Return { argument: Some(argument) } => {
                if !expression_body {
                    match &self.tree.nodes[*argument].kind {
                        NodeKind::Call { .. } => Some(*argument),
                        _ => None,
                    }
                } else {
                    None
                }
            },
            _ => None,
        }
    }

    /// The classification of call `call_exp` of a named import.
    pub fn resolve_call_i18n_method(&self, store: &NodeStore, call_exp: usize) -> (member: Option<
        I18nMember,
    >)
        requires
            self.fits(store@),
            call_exp < self.tree.nodes.len(),
        ensures
            opt_member(member) == imported_member(self.setting().scene(store@), call_exp),
    {
        let tree = self.tree;
        let utils = WalkerUtils::new(tree, store, self.node);
        match &tree.nodes[call_exp].kind {
            NodeKind::Call { callee, .. } => match &tree.nodes[*callee].kind {
                NodeKind::Identifier { reference, .. } => match utils.get_var_defined_node(*reference) {
                    Some(declaration) => {
                        match (&tree.nodes[declaration].kind, tree.parent_node(declaration)) {
                            (NodeKind::ImportSpecifier { imported, .. }, Some(parent)) => {
                                match &tree.nodes[parent].kind {
                                    NodeKind::ImportDeclaration { source, .. } => {
                                        match store.importing_node(self.node, source.as_str()) {
                                            Some(target) => {
                                                assert(store@[target as int]
                                                    == store.nodes[target as int]@);
                                                match store.nodes[target].i18n_member(
                                                    imported.as_str(),
                                                ) {
                                                    Some(found) => {
                                                        let ns = utils.read_hook_namespace_argument(
                                                            call_exp,
                                                        );
                                                        Some(I18nMember { kind: found.kind, ns })
                                                    },
                                                    None => None,
                                                }
                                            },
                                            None => None,
                                        }
                                    },
                                    _ => None,
                                }
                            },
                            _ => None,
                        }
                    },
                    None => None,
                },
                _ => None,
            },
            _ => None,
        }
    }

    /// The classification of the single statement of a function, when it is
    /// an expression statement that calls a named import.
    pub fn resolve_expression_fn(&self, store: &NodeStore, state: usize) -> (member: Option<
        I18nMember,
    >)
        requires
            self.fits(store@),
            state < self.tree.nodes.len(),
        ensures
            opt_member(member) == (match single_call(*self.tree, state, true) {
                Some(call) => imported_member(self.setting().scene(store@), call),
                None => None,
            }),
    {
        match self.single_call(state, true) {
            Some(call) => self.resolve_call_i18n_method(store, call),
            None => None,
        }
    }

    fn function_member(&self, store: &NodeStore, init: usize) -> (member: Option<I18nMember>)
        requires
            self.fits(store@),
            init < self.tree.nodes.len(),
        ensures
            opt_member(member) == function_member(self.setting().scene(store@), init),
    {
        let tree = self.tree;
        match &tree.nodes[init].kind {
            NodeKind::Arrow { body, expression, .. } => {
                if body.len() == 1 {
                    match self.single_call(body[0], *expression) {
                        Some(call) => self.resolve_call_i18n_method(store, call),
                        None => None,
                    }
                } else if self.is_custom_i18n_hook_function(body, init) {
                    Some(I18nMember { kind: I18nType::Hook, ns: None })
                } else {
                    None
                }
            },
            NodeKind::Function { body: Some(body), expression, .. } => {
                if *expression && body.len() == 1 {
                    match self.single_call(body[0], false) {
                        Some(call) => self.resolve_call_i18n_method(store, call),
                        None => None,
                    }
                } else {
                    None
                }
            },
            _ => None,
        }
    }

    /// The classification of the binding made by declarator `de`.
    pub fn resolve_i18n_export(&self, store: &NodeStore, de: usize) -> (member: Option<I18nMember>)
        requires
            self.fits(store@),
            de < self.tree.nodes.len(),
        ensures
            opt_member(member) == resolve_i18n_export(self.setting().scene(store@), de),
    {
        let tree = self.tree;
        match &tree.nodes[de].kind {
            NodeKind::VariableDeclarator { id, init } => {
                let fallback = match &tree.nodes[*id].kind {
                    NodeKind::BindingIdentifier { name, .. } => fallback_of(name.as_str()),
                    _ => None,
                };
                assert(store@[self.node as int] == store.nodes[self.node as int]@);
                let earned = match init {
                    Some(function) => {
                        if store.nodes[self.node].has_i18n_source_imported() {
                            self.function_member(store, *function)
                        } else {
                            None
                        }
                    },
                    None => None,
                };
                match earned {
                    Some(member) => Some(member),
                    None => fallback,
                }
            },
            _ => None,
        }
    }
}

/// The classification that a preset name stands for.
pub fn fallback_of(name: &str) -> (member: Option<I18nMember>)
    ensures
        opt_member(member) == fallback_member(name@),
{
    match preset_member_type(name) {
        Some(kind) => Some(I18nMember { kind, ns: None }),
        None => None,
    }
}

} // verus!
