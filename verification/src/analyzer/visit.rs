//! The walk of the first pass: every import and export of a file is visited
//! in source order.

use crate::analyzer::walker::{
    fallback_member, fallback_of, kept, lemma_kept_trans, resolve_i18n_export, resolve_import,
    with_export_at, Pass, Setting, Walker,
};
use crate::i18n_types::{I18nMember, MemberView};
use crate::node::NodeView;
use crate::node_store::NodeStore;
use crate::syntax::{all_after, NodeKind, SyntaxTree};
use crate::walk_utils::defined_node;
use vstd::prelude::*;

verus! {

/// The names under which the export specifiers `from..` hand out their bindings.
pub open spec fn exported_names_from(tree: SyntaxTree, specifiers: Seq<usize>, from: int) -> Seq<
    Seq<char>,
>
    decreases specifiers.len() - from,
{
    if from < 0 || from >= specifiers.len() {
        Seq::empty()
    } else {
        let rest = exported_names_from(tree, specifiers, from + 1);
        match tree.nodes[specifiers[from] as int].kind {
            NodeKind::ExportSpecifier { exported, .. } => seq![exported@] + rest,
            _ => rest,
        }
    }
}

/// The names that the import specifiers `from..` ask for: the imported name,
/// `*` for the whole module and `default` for its default export.
pub open spec fn import_names_from(tree: SyntaxTree, specifiers: Seq<usize>, from: int) -> Seq<
    Seq<char>,
>
    decreases specifiers.len() - from,
{
    if from < 0 || from >= specifiers.len() {
        Seq::empty()
    } else {
        let rest = import_names_from(tree, specifiers, from + 1);
        match tree.nodes[specifiers[from] as int].kind {
            NodeKind::ImportSpecifier { imported, .. } => seq![imported@] + rest,
            NodeKind::ImportNamespaceSpecifier { .. } => seq!["*"@] + rest,
            NodeKind::ImportDefaultSpecifier { .. } => seq!["default"@] + rest,
            _ => rest,
        }
    }
}

/// The classification of the binding that export specifier `specifier` hands
/// out: that of the variable it reads.
pub open spec fn specifier_member(setting: Setting, store: Seq<NodeView>, specifier: usize) -> Option<
    MemberView,
> {
    match setting.tree.nodes[specifier as int].kind {
        NodeKind::ExportSpecifier { local: Some(local), .. } => match setting.tree.nodes[local as int].kind {
            NodeKind::Identifier { reference, .. } => match defined_node(setting.tree, reference) {
                Some(declaration) => resolve_i18n_export(setting.scene(store), declaration),
                None => None,
            },
            _ => None,
        },
        _ => None,
    }
}

/// The graph after the export specifiers `from..` were recorded.
pub open spec fn specifier_exports_from(setting: Setting, store: Seq<NodeView>, specifiers: Seq<usize>, from: int) -> Seq<
    NodeView,
>
    decreases specifiers.len() - from,
{
    if from < 0 || from >= specifiers.len() {
        store
    } else {
        let next = match setting.tree.nodes[specifiers[from] as int].kind {
            NodeKind::ExportSpecifier { exported, .. } => with_export_at(
                store,
                setting.node,
                exported@,
                specifier_member(setting, store, specifiers[from]),
            ),
            _ => store,
        };
        specifier_exports_from(setting, next, specifiers, from + 1)
    }
}

/// The graph after the names bound by the properties `from..` of the object
/// pattern `pattern` were recorded as plain exports, nested patterns included.
pub open spec fn object_pattern_exports(setting: Setting, store: Seq<NodeView>, pattern: usize, from: int) -> Seq<
    NodeView,
>
    decreases setting.tree.nodes.len() - pattern, setting.tree.nodes[pattern as int].kind->ObjectPattern_properties.len()
            - from,
    when setting.tree.wf() && pattern < setting.tree.nodes.len()
        && setting.tree.nodes[pattern as int].kind is ObjectPattern
{
    let properties = setting.tree.nodes[pattern as int].kind->ObjectPattern_properties;
    if from < 0 || from >= properties.len() {
        store
    } else {
        let next = match setting.tree.nodes[properties[from] as int].kind {
            NodeKind::BindingProperty { value, .. } => match setting.tree.nodes[value as int].kind {
                NodeKind::ObjectPattern { .. } => object_pattern_exports(setting, store, value, 0),
                NodeKind::BindingIdentifier { name, .. } => with_export_at(
                    store,
                    setting.node,
                    name@,
                    None,
                ),
                _ => store,
            },
            _ => store,
        };
        object_pattern_exports(setting, next, pattern, from + 1)
    }
}

/// The graph after the plain names among the elements `from..` of an array
/// pattern were recorded as plain exports.
pub open spec fn array_pattern_exports(setting: Setting, store: Seq<NodeView>, elements: Seq<usize>, from: int) -> Seq<
    NodeView,
>
    decreases elements.len() - from,
{
    if from < 0 || from >= elements.len() {
        store
    } else {
        let next = match setting.tree.nodes[elements[from] as int].kind {
            NodeKind::BindingIdentifier { name, .. } => with_export_at(
                store,
                setting.node,
                name@,
                None,
            ),
            _ => store,
        };
        array_pattern_exports(setting, next, elements, from + 1)
    }
}

/// The graph after the bindings of declarator `declarator` were recorded as
/// exports: a plain name with its classification, destructured names plain.
pub open spec fn declarator_export(setting: Setting, store: Seq<NodeView>, declarator: usize) -> Seq<
    NodeView,
> {
    match setting.tree.nodes[declarator as int].kind {
        NodeKind::VariableDeclarator { id, .. } => match setting.tree.nodes[id as int].kind {
            NodeKind::BindingIdentifier { name, .. } => with_export_at(
                store,
                setting.node,
                name@,
                resolve_i18n_export(setting.scene(store), declarator),
            ),
            NodeKind::ObjectPattern { .. } => object_pattern_exports(setting, store, id, 0),
            NodeKind::ArrayPattern { elements } => array_pattern_exports(
                setting,
                store,
                elements@,
                0,
            ),
            _ => store,
        },
        _ => store,
    }
}

/// The graph after the declarators `from..` were recorded as exports.
pub open spec fn declarators_from(setting: Setting, store: Seq<NodeView>, declarations: Seq<usize>, from: int) -> Seq<
    NodeView,
>
    decreases declarations.len() - from,
{
    if from < 0 || from >= declarations.len() {
        store
    } else {
        declarators_from(
            setting,
            declarator_export(setting, store, declarations[from]),
            declarations,
            from + 1,
        )
    }
}

/// The graph after the exported declaration `declaration` was recorded: the
/// bindings of a variable declaration, or the name of a function, which has
/// the kind of its name when that is a preset one.
pub open spec fn declaration_exports(setting: Setting, store: Seq<NodeView>, declaration: usize) -> Seq<
    NodeView,
> {
    match setting.tree.nodes[declaration as int].kind {
        NodeKind::VariableDeclaration { declarations } => declarators_from(
            setting,
            store,
            declarations@,
            0,
        ),
        NodeKind::Function { name: Some(binding), .. } => match setting.tree.nodes[binding as int].kind {
            NodeKind::BindingIdentifier { name, .. } => with_export_at(
                store,
                setting.node,
                name@,
                fallback_member(name@),
            ),
            _ => store,
        },
        _ => store,
    }
}

/// The state after the named export `id` was visited: `export { .. } from`
/// is an import of the names it hands on, `export { .. }` records the names
/// with the classification of what they read, and an exported declaration
/// records what it binds.
pub open spec fn visit_export_named_declaration(setting: Setting, pass: Pass, id: usize) -> Pass {
    match setting.tree.nodes[id as int].kind {
        NodeKind::ExportNamed { specifiers, source, declaration } => {
            let listed = if specifiers.len() > 0 {
                match source {
                    Some(from) => resolve_import(
                        setting,
                        pass,
                        from@,
                        exported_names_from(setting.tree, specifiers@, 0),
                    ),
                    None => Pass {
                        store: specifier_exports_from(setting, pass.store, specifiers@, 0),
                        pending: pass.pending,
                    },
                }
            } else {
                pass
            };
            match declaration {
                Some(declared) => Pass {
                    store: declaration_exports(setting, listed.store, declared),
                    pending: listed.pending,
                },
                None => listed,
            }
        },
        _ => pass,
    }
}

/// The state after the default export was visited: the name `default` is a plain export.
pub open spec fn visit_export_default_declaration(setting: Setting, pass: Pass) -> Pass {
    Pass {
        store: with_export_at(pass.store, setting.node, "default"@, None),
        pending: pass.pending,
    }
}

/// The state after `export * from` at node `id` was visited: an import of the whole module.
pub open spec fn visit_export_all_declaration(setting: Setting, pass: Pass, id: usize) -> Pass {
    match setting.tree.nodes[id as int].kind {
        NodeKind::ExportAll { source } => resolve_import(setting, pass, source@, seq!["*"@]),
        _ => pass,
    }
}

/// The state after the import declaration `id` was visited.
pub open spec fn visit_import_declaration(setting: Setting, pass: Pass, id: usize) -> Pass {
    match setting.tree.nodes[id as int].kind {
        NodeKind::ImportDeclaration { source, specifiers } => resolve_import(
            setting,
            pass,
            source@,
            match specifiers {
                Some(list) => import_names_from(setting.tree, list@, 0),
                None => Seq::empty(),
            },
        ),
        _ => pass,
    }
}

/// The state after `import(source)` at node `id` was visited: an import
/// without names, when the source is a string literal.
pub open spec fn visit_import_expression(setting: Setting, pass: Pass, id: usize) -> Pass {
    match setting.tree.nodes[id as int].kind {
        NodeKind::ImportExpression { source } => match setting.tree.nodes[source as int].kind {
            NodeKind::StringLiteral { value } => resolve_import(setting, pass, value@, Seq::empty()),
            _ => pass,
        },
        _ => pass,
    }
}

/// Whether a node of this kind is an import or an export.
pub open spec fn is_module_item(kind: NodeKind) -> bool {
    kind is ImportDeclaration || kind is ImportExpression || kind is ExportNamed
        || kind is ExportDefault || kind is ExportAll
}

/// Whether node `at` or a node around it is an import or an export.
pub open spec fn inside_module_item(tree: SyntaxTree, at: usize) -> bool
    decreases at,
    when tree.wf() && at < tree.nodes.len()
{
    is_module_item(tree.nodes[at as int].kind) || match tree.nodes[at as int].parent {
        Some(parent) => inside_module_item(tree, parent),
        None => false,
    }
}

/// Whether node `id` stands inside an import or an export.
pub open spec fn shadowed(tree: SyntaxTree, id: usize) -> bool {
    match tree.nodes[id as int].parent {
        Some(parent) => inside_module_item(tree, parent),
        None => false,
    }
}

/// The state after node `id` was visited: an import or an export that does
/// not stand inside another one is dealt with according to its kind.
pub open spec fn visit(setting: Setting, pass: Pass, id: usize) -> Pass {
    if shadowed(setting.tree, id) {
        pass
    } else {
        match setting.tree.nodes[id as int].kind {
            NodeKind::ImportDeclaration { .. } => visit_import_declaration(setting, pass, id),
            NodeKind::ImportExpression { .. } => visit_import_expression(setting, pass, id),
            NodeKind::ExportNamed { .. } => visit_export_named_declaration(setting, pass, id),
            NodeKind::ExportDefault { .. } => visit_export_default_declaration(setting, pass),
            NodeKind::ExportAll { .. } => visit_export_all_declaration(setting, pass, id),
            _ => pass,
        }
    }
}

/// The state after the nodes `from..` of the file were visited in order.
pub open spec fn walk_from(setting: Setting, pass: Pass, from: int) -> Pass
    decreases setting.tree.nodes.len() - from,
{
    if from < 0 || from >= setting.tree.nodes.len() {
        pass
    } else {
        walk_from(setting, visit(setting, pass, from as usize), from + 1)
    }
}

/// The state after the whole file was visited.
pub open spec fn walk(setting: Setting, pass: Pass) -> Pass {
    walk_from(setting, pass, 0)
}

/// Whether node `id` stands inside an import or an export.
pub fn is_shadowed(tree: &SyntaxTree, id: usize) -> (inside: bool)
    requires
        tree.wf(),
        id < tree.nodes.len(),
    ensures
        inside == shadowed(*tree, id),
{
    let mut current = tree.parent_node(id);
    let ghost whole = shadowed(*tree, id);
    loop
        invariant
            tree.wf(),
            current matches Some(n) ==> n < tree.nodes.len(),
            whole == shadowed(*tree, id),
            whole == (match current {
                Some(n) => inside_module_item(*tree, n),
                None => false,
            }),
        decreases
                (match current {
                    Some(n) => n + 1,
                    None => 0,
                }),
    {
        match current {
            None => {
                return false;
            },
            Some(n) => {
                let module_item = match &tree.nodes[n].kind {
                    NodeKind::ImportDeclaration { .. } => true,
                    NodeKind::ImportExpression { .. } => true,
                    NodeKind::ExportNamed { .. } => true,
                    NodeKind::ExportDefault { .. } => true,
                    NodeKind::ExportAll { .. } => true,
                    _ => false,
                };
                if module_item {
                    return true;
                }
                current = tree.parent_node(n);
            },
        }
    }
}

/// The specifier that node `id` asks the resolver about, if it is an import
/// or an export from another module that the walk visits.
pub open spec fn node_source(tree: SyntaxTree, id: usize) -> Option<Seq<char>> {
    if shadowed(tree, id) {
        None
    } else {
        match tree.nodes[id as int].kind {
            NodeKind::ImportDeclaration { source, .. } => Some(source@),
            NodeKind::ImportExpression { source } => match tree.nodes[source as int].kind {
                NodeKind::StringLiteral { value } => Some(value@),
                _ => None,
            },
            NodeKind::ExportNamed { specifiers, source: Some(source), .. } => if specifiers.len()
                > 0 {
                Some(source@)
            } else {
                None
            },
            NodeKind::ExportAll { source } => Some(source@),
            _ => None,
        }
    }
}

/// The specifiers that the nodes `from..` ask the resolver about, in order.
pub open spec fn sources_from(tree: SyntaxTree, from: int) -> Seq<Seq<char>>
    decreases tree.nodes.len() - from,
{
    if from < 0 || from >= tree.nodes.len() {
        Seq::empty()
    } else {
        let rest = sources_from(tree, from + 1);
        match node_source(tree, from as usize) {
            Some(source) => seq![source] + rest,
            None => rest,
        }
    }
}

/// The specifiers of a file that the resolver has to answer before the file
/// can be walked, in source order.
pub fn import_sources(tree: &SyntaxTree) -> (sources: Vec<String>)
    requires
        tree.wf(),
    ensures
        sources.deep_view() == sources_from(*tree, 0),
{
    let mut sources: Vec<String> = Vec::new();
    let mut i: usize = 0;
    while i < tree.nodes.len()
        invariant
            tree.wf(),
            i <= tree.nodes.len(),
            sources.deep_view() + sources_from(*tree, i as int) == sources_from(*tree, 0),
        decreases tree.nodes.len() - i,
    {
        let ghost before = sources.deep_view();
        let source: Option<&String> = match &tree.nodes[i].kind {
            NodeKind::ImportDeclaration { source, .. } => Some(source),
            NodeKind::ImportExpression { source } => match &tree.nodes[*source].kind {
                NodeKind::StringLiteral { value } => Some(value),
                _ => None,
            },
            NodeKind::ExportNamed { specifiers, source: Some(source), .. } => {
                if specifiers.len() > 0 {
                    Some(source)
                } else {
                    None
                }
            },
            NodeKind::ExportAll { source } => Some(source),
            _ => None,
        };
        match source {
            Some(text) => {
                if !is_shadowed(tree, i) {
                    sources.push(text.clone());
                    assert(sources.deep_view() =~= before.push(text@));
                    assert(before.push(text@) + sources_from(*tree, i + 1) =~= before
                        + sources_from(*tree, i as int));
                }
            },
            None => {},
        }
        i += 1;
    }
    assert(sources.deep_view() + Seq::<Seq<char>>::empty() =~= sources.deep_view());
    sources
}

impl<'a> Walker<'a> {
    fn exported_names(&self, specifiers: &Vec<usize>, owner: usize) -> (names: Vec<String>)
        requires
            self.tree.wf(),
            all_after(owner as int, specifiers@, self.tree.nodes.len() as int),
        ensures
            names.deep_view() == exported_names_from(*self.tree, specifiers@, 0),
    {
        let tree = self.tree;
        let mut names: Vec<String> = Vec::new();
        let mut i: usize = 0;
        while i < specifiers.len()
            invariant
                tree == self.tree,
                tree.wf(),
                all_after(owner as int, specifiers@, tree.nodes.len() as int),
                i <= specifiers.len(),
                names.deep_view() + exported_names_from(*tree, specifiers@, i as int)
                    == exported_names_from(*tree, specifiers@, 0),
            decreases specifiers.len() - i,
        {
            let ghost before = names.deep_view();
            match &tree.nodes[specifiers[i]].kind {
                NodeKind::ExportSpecifier { exported, .. } => {
                    names.push(exported.clone());
                    assert(names.deep_view() =~= before.push(exported@));
                    assert(before.push(exported@) + exported_names_from(*tree, specifiers@, i + 1)
                        =~= before + exported_names_from(*tree, specifiers@, i as int));
                },
                _ => {},
            }
            i += 1;
        }
        assert(names.deep_view() + Seq::<Seq<char>>::empty() =~= names.deep_view());
        names
    }

    fn import_names(&self, specifiers: &Vec<usize>, owner: usize) -> (names: Vec<String>)
        requires
            self.tree.wf(),
            all_after(owner as int, specifiers@, self.tree.nodes.len() as int),
        ensures
            names.deep_view() == import_names_from(*self.tree, specifiers@, 0),
    {
        let tree = self.tree;
        let mut names: Vec<String> = Vec::new();
        let mut i: usize = 0;
        while i < specifiers.len()
            invariant
                tree == self.tree,
                tree.wf(),
                all_after(owner as int, specifiers@, tree.nodes.len() as int),
                i <= specifiers.len(),
                names.deep_view() + import_names_from(*tree, specifiers@, i as int)
                    == import_names_from(*tree, specifiers@, 0),
            decreases specifiers.len() - i,
        {
            let ghost before = names.deep_view();
            let name: Option<String> = match &tree.nodes[specifiers[i]].kind {
                NodeKind::ImportSpecifier { imported, .. } => Some(imported.clone()),
                NodeKind::ImportNamespaceSpecifier { .. } => Some("*".to_owned()),
                NodeKind::ImportDefaultSpecifier { .. } => Some("default".to_owned()),
                _ => None,
            };
            match name {
                Some(text) => {
                    names.push(text);
                    assert(names.deep_view() =~= before.push(text@));
                    assert(before.push(text@) + import_names_from(*tree, specifiers@, i + 1)
                        =~= before + import_names_from(*tree, specifiers@, i as int));
                },
                None => {},
            }
            i += 1;
        }
        assert(names.deep_view() + Seq::<Seq<char>>::empty() =~= names.deep_view());
        names
    }

    fn specifier_member(&self, store: &NodeStore, specifier: usize) -> (member: Option<I18nMember>)
        requires
            self.fits(store@),
            specifier < self.tree.nodes.len(),
        ensures
            crate::i18n_types::opt_member(member) == specifier_member(
                self.setting(),
                store@,
                specifier,
            ),
    {
        let tree = self.tree;
        match &tree.nodes[specifier].kind {
            NodeKind::ExportSpecifier { local: Some(local), .. } => match &tree.nodes[*local].kind {
                NodeKind::Identifier { reference, .. } => {
                    match tree.reference_symbol(*reference) {
                        Some(symbol) => self.resolve_i18n_export(
                            store,
                            tree.symbol_declaration(symbol),
                        ),
                        None => None,
                    }
                },
                _ => None,
            },
            _ => None,
        }
    }

    fn object_pattern_exports(&mut self, store: &mut NodeStore, pattern: usize)
        requires
            old(self).fits(old(store)@),
            pattern < old(self).tree.nodes.len(),
            old(self).tree.nodes[pattern as int].kind is ObjectPattern,
        ensures
            *final(self) == *old(self),
            final(store)@ == object_pattern_exports(old(self).setting(), old(store)@, pattern, 0),
            kept(old(store)@, final(store)@, old(self).node as int),
            old(self).setting().sound(old(self).pass(old(store)@), final(self).pass(final(store)@)),
            final(self).fits(final(store)@),
        decreases old(self).tree.nodes.len() - pattern,
    {
        let tree = self.tree;
        let ghost setting = self.setting();
        let ghost before = store@;
        match &tree.nodes[pattern].kind {
            NodeKind::ObjectPattern { properties } => {
                let mut i: usize = 0;
                while i < properties.len()
                    invariant
                        *self == *old(self),
                        tree == self.tree,
                        setting == self.setting(),
                        self.fits(store@),
                        pattern < tree.nodes.len(),
                        tree.nodes[pattern as int].kind == (NodeKind::ObjectPattern {
                            properties: *properties,
                        }),
                        all_after(pattern as int, properties@, tree.nodes.len() as int),
                        kept(before, store@, self.node as int),
                        self.setting().sound(old(self).pass(before), self.pass(store@)),
                        i <= properties.len(),
                        object_pattern_exports(setting, store@, pattern, i as int)
                            == object_pattern_exports(setting, before, pattern, 0),
                    decreases properties.len() - i,
                {
                    let ghost middle = store@;
                    match &tree.nodes[properties[i]].kind {
                        NodeKind::BindingProperty { value, .. } => match &tree.nodes[*value].kind {
                            NodeKind::ObjectPattern { .. } => {
                                self.object_pattern_exports(store, *value);
                            },
                            NodeKind::BindingIdentifier { name, .. } => {
                                self.append_export(store, name.clone(), None);
                            },
                            _ => {},
                        },
                        _ => {},
                    }
                    proof {
                        lemma_kept_trans(before, middle, store@, self.node as int);
                    }
                    i += 1;
                }
            },
            _ => {},
        }
    }

    fn array_pattern_exports(&mut self, store: &mut NodeStore, elements: &Vec<usize>, owner: usize)
        requires
            old(self).fits(old(store)@),
            all_after(owner as int, elements@, old(self).tree.nodes.len() as int),
        ensures
            *final(self) == *old(self),
            final(store)@ == array_pattern_exports(old(self).setting(), old(store)@, elements@, 0),
            kept(old(store)@, final(store)@, old(self).node as int),
            old(self).setting().sound(old(self).pass(old(store)@), final(self).pass(final(store)@)),
            final(self).fits(final(store)@),
    {
        let tree = self.tree;
        let ghost setting = self.setting();
        let ghost before = store@;
        let mut i: usize = 0;
        while i < elements.len()
            invariant
                *self == *old(self),
                tree == self.tree,
                setting == self.setting(),
                self.fits(store@),
                all_after(owner as int, elements@, tree.nodes.len() as int),
                kept(before, store@, self.node as int),
                self.setting().sound(old(self).pass(before), self.pass(store@)),
                i <= elements.len(),
                array_pattern_exports(setting, store@, elements@, i as int)
                    == array_pattern_exports(setting, before, elements@, 0),
            decreases elements.len() - i,
        {
            let ghost middle = store@;
            match &tree.nodes[elements[i]].kind {
                NodeKind::BindingIdentifier { name, .. } => {
                    self.append_export(store, name.clone(), None);
                },
                _ => {},
            }
            proof {
                lemma_kept_trans(before, middle, store@, self.node as int);
            }
            i += 1;
        }
    }

    fn declarator_export(&mut self, store: &mut NodeStore, declarator: usize)
        requires
            old(self).fits(old(store)@),
            declarator < old(self).tree.nodes.len(),
        ensures
            *final(self) == *old(self),
            final(store)@ == declarator_export(old(self).setting(), old(store)@, declarator),
            kept(old(store)@, final(store)@, old(self).node as int),
            old(self).setting().sound(old(self).pass(old(store)@), final(self).pass(final(store)@)),
            final(self).fits(final(store)@),
    {
        let tree = self.tree;
        match &tree.nodes[declarator].kind {
            NodeKind::VariableDeclarator { id, .. } => match &tree.nodes[*id].kind {
                NodeKind::BindingIdentifier { name, .. } => {
                    let member = self.resolve_i18n_export(store, declarator);
                    self.append_export(store, name.clone(), member);
                },
                NodeKind::ObjectPattern { .. } => {
                    self.object_pattern_exports(store, *id);
                },
                NodeKind::ArrayPattern { elements } => {
                    self.array_pattern_exports(store, elements, *id);
                },
                _ => {},
            },
            _ => {},
        }
    }

    fn declaration_exports(&mut self, store: &mut NodeStore, declaration: usize)
        requires
            old(self).fits(old(store)@),
            declaration < old(self).tree.nodes.len(),
        ensures
            *final(self) == *old(self),
            final(store)@ == declaration_exports(old(self).setting(), old(store)@, declaration),
            kept(old(store)@, final(store)@, old(self).node as int),
            old(self).setting().sound(old(self).pass(old(store)@), final(self).pass(final(store)@)),
            final(self).fits(final(store)@),
    {
        let tree = self.tree;
        let ghost setting = self.setting();
        let ghost before = store@;
        match &tree.nodes[declaration].kind {
            NodeKind::VariableDeclaration { declarations } => {
                let mut i: usize = 0;
                while i < declarations.len()
                    invariant
                        *self == *old(self),
                        tree == self.tree,
                        setting == self.setting(),
                        self.fits(store@),
                        all_after(declaration as int, declarations@, tree.nodes.len() as int),
                        kept(before, store@, self.node as int),
                        self.setting().sound(old(self).pass(before), self.pass(store@)),
                        i <= declarations.len(),
                        declarators_from(setting, store@, declarations@, i as int)
                            == declarators_from(setting, before, declarations@, 0),
                    decreases declarations.len() - i,
                {
                    let ghost middle = store@;
                    self.declarator_export(store, declarations[i]);
                    proof {
                        lemma_kept_trans(before, middle, store@, self.node as int);
                    }
                    i += 1;
                }
            },
            NodeKind::Function { name: Some(binding), .. } => match &tree.nodes[*binding].kind {
                NodeKind::BindingIdentifier { name, .. } => {
                    let member = fallback_of(name.as_str());
                    self.append_export(store, name.clone(), member);
                },
                _ => {},
            },
            _ => {},
        }
    }

    fn specifier_exports(&mut self, store: &mut NodeStore, specifiers: &Vec<usize>, owner: usize)
        requires
            old(self).fits(old(store)@),
            all_after(owner as int, specifiers@, old(self).tree.nodes.len() as int),
        ensures
            *final(self) == *old(self),
            final(store)@ == specifier_exports_from(
                old(self).setting(),
                old(store)@,
                specifiers@,
                0,
            ),
            kept(old(store)@, final(store)@, old(self).node as int),
            old(self).setting().sound(old(self).pass(old(store)@), final(self).pass(final(store)@)),
            final(self).fits(final(store)@),
    {
        let tree = self.tree;
        let ghost setting = self.setting();
        let ghost before = store@;
        let mut i: usize = 0;
        while i < specifiers.len()
            invariant
                *self == *old(self),
                tree == self.tree,
                setting == self.setting(),
                self.fits(store@),
                all_after(owner as int, specifiers@, tree.nodes.len() as int),
                kept(before, store@, self.node as int),
                self.setting().sound(old(self).pass(before), self.pass(store@)),
                i <= specifiers.len(),
                specifier_exports_from(setting, store@, specifiers@, i as int)
                    == specifier_exports_from(setting, before, specifiers@, 0),
            decreases specifiers.len() - i,
        {
            let ghost middle = store@;
            match &tree.nodes[specifiers[i]].kind {
                NodeKind::ExportSpecifier { exported, .. } => {
                    let member = self.specifier_member(store, specifiers[i]);
                    self.append_export(store, exported.clone(), member);
                },
                _ => {},
            }
            proof {
                lemma_kept_trans(before, middle, store@, self.node as int);
            }
            i += 1;
        }
    }

    /// Visits the named export `it`.
    pub fn visit_export_named_declaration(&mut self, store: &mut NodeStore, it: usize)
        requires
            old(self).fits(old(store)@),
            it < old(self).tree.nodes.len(),
        ensures
            old(self).same_setting(final(self)),
            final(self).pass(final(store)@) == visit_export_named_declaration(
                old(self).setting(),
                old(self).pass(old(store)@),
                it,
            ),
            kept(old(store)@, final(store)@, old(self).node as int),
            old(self).setting().sound(old(self).pass(old(store)@), final(self).pass(final(store)@)),
            final(self).fits(final(store)@),
    {
        let tree = self.tree;
        let ghost before = store@;
        match &tree.nodes[it].kind {
            NodeKind::ExportNamed { specifiers, source, declaration } => {
                if specifiers.len() > 0 {
                    match source {
                        Some(from) => {
                            let names = self.exported_names(specifiers, it);
                            self.resolve_import(store, from.as_str(), &names);
                        },
                        None => {
                            self.specifier_exports(store, specifiers, it);
                        },
                    }
                }
                let ghost middle = store@;
                match declaration {
                    Some(declared) => {
                        self.declaration_exports(store, *declared);
                    },
                    None => {},
                }
                proof {
                    lemma_kept_trans(before, middle, store@, self.node as int);
                }
            },
            _ => {},
        }
    }

    /// Visits a default export.
    pub fn visit_export_default_declaration(&mut self, store: &mut NodeStore)
        requires
            old(self).fits(old(store)@),
        ensures
            old(self).same_setting(final(self)),
            final(self).pass(final(store)@) == visit_export_default_declaration(
                old(self).setting(),
                old(self).pass(old(store)@),
            ),
            kept(old(store)@, final(store)@, old(self).node as int),
            old(self).setting().sound(old(self).pass(old(store)@), final(self).pass(final(store)@)),
            final(self).fits(final(store)@),
    {
        self.append_export(store, "default".to_owned(), None);
    }

    /// Visits `export * from` at node `it`.
    pub fn visit_export_all_declaration(&mut self, store: &mut NodeStore, it: usize)
        requires
            old(self).fits(old(store)@),
            it < old(self).tree.nodes.len(),
        ensures
            old(self).same_setting(final(self)),
            final(self).pass(final(store)@) == visit_export_all_declaration(
                old(self).setting(),
                old(self).pass(old(store)@),
                it,
            ),
            kept(old(store)@, final(store)@, old(self).node as int),
            old(self).setting().sound(old(self).pass(old(store)@), final(self).pass(final(store)@)),
            final(self).fits(final(store)@),
    {
        match &self.tree.nodes[it].kind {
            NodeKind::ExportAll { source } => {
                let mut names: Vec<String> = Vec::new();
                names.push("*".to_owned());
                assert(names.deep_view() =~= seq!["*"@]);
                self.resolve_import(store, source.as_str(), &names);
            },
            _ => {},
        }
    }

    /// Visits the import declaration `it`.
    pub fn visit_import_declaration(&mut self, store: &mut NodeStore, it: usize)
        requires
            old(self).fits(old(store)@),
            it < old(self).tree.nodes.len(),
        ensures
            old(self).same_setting(final(self)),
            final(self).pass(final(store)@) == visit_import_declaration(
                old(self).setting(),
                old(self).pass(old(store)@),
                it,
            ),
            kept(old(store)@, final(store)@, old(self).node as int),
            old(self).setting().sound(old(self).pass(old(store)@), final(self).pass(final(store)@)),
            final(self).fits(final(store)@),
    {
        match &self.tree.nodes[it].kind {
            NodeKind::ImportDeclaration { source, specifiers } => {
                let names = match specifiers {
                    Some(list) => self.import_names(list, it),
                    None => {
                        let empty: Vec<String> = Vec::new();
                        assert(empty.deep_view() =~= Seq::<Seq<char>>::empty());
                        empty
                    },
                };
                self.resolve_import(store, source.as_str(), &names);
            },
            _ => {},
        }
    }

    /// Visits `import(source)` at node `it`.
    pub fn visit_import_expression(&mut self, store: &mut NodeStore, it: usize)
        requires
            old(self).fits(old(store)@),
            it < old(self).tree.nodes.len(),
        ensures
            old(self).same_setting(final(self)),
            final(self).pass(final(store)@) == visit_import_expression(
                old(self).setting(),
                old(self).pass(old(store)@),
                it,
            ),
            kept(old(store)@, final(store)@, old(self).node as int),
            old(self).setting().sound(old(self).pass(old(store)@), final(self).pass(final(store)@)),
            final(self).fits(final(store)@),
    {
        let tree = self.tree;
        match &tree.nodes[it].kind {
            NodeKind::ImportExpression { source } => match &tree.nodes[*source].kind {
                NodeKind::StringLiteral { value } => {
                    let names: Vec<String> = Vec::new();
                    assert(names.deep_view() =~= Seq::<Seq<char>>::empty());
                    self.resolve_import(store, value.as_str(), &names);
                },
                _ => {},
            },
            _ => {},
        }
    }

    fn shadowed(&self, id: usize) -> (inside: bool)
        requires
            self.tree.wf(),
            id < self.tree.nodes.len(),
        ensures
            inside == shadowed(*self.tree, id),
    {
        is_shadowed(self.tree, id)
    }

    /// Visits node `id`.
    pub fn visit(&mut self, store: &mut NodeStore, id: usize)
        requires
            old(self).fits(old(store)@),
            id < old(self).tree.nodes.len(),
        ensures
            old(self).same_setting(final(self)),
            final(self).pass(final(store)@) == visit(
                old(self).setting(),
                old(self).pass(old(store)@),
                id,
            ),
            kept(old(store)@, final(store)@, old(self).node as int),
            old(self).setting().sound(old(self).pass(old(store)@), final(self).pass(final(store)@)),
            final(self).fits(final(store)@),
    {
        let tree = self.tree;
        match &tree.nodes[id].kind {
            NodeKind::ImportDeclaration { .. } => {
                if !self.shadowed(id) {
                    self.visit_import_declaration(store, id);
                }
            },
            NodeKind::ImportExpression { .. } => {
                if !self.shadowed(id) {
                    self.visit_import_expression(store, id);
                }
            },
            NodeKind::ExportNamed { .. } => {
                if !self.shadowed(id) {
                    self.visit_export_named_declaration(store, id);
                }
            },
            NodeKind::ExportDefault { .. } => {
                if !self.shadowed(id) {
                    self.visit_export_default_declaration(store);
                }
            },
            NodeKind::ExportAll { .. } => {
                if !self.shadowed(id) {
                    self.visit_export_all_declaration(store, id);
                }
            },
            _ => {},
        }
    }

    /// Visits every node of the file in order.
    pub fn walk(&mut self, store: &mut NodeStore)
        requires
            old(self).fits(old(store)@),
        ensures
            old(self).same_setting(final(self)),
            final(self).pass(final(store)@) == walk(
                old(self).setting(),
                old(self).pass(old(store)@),
            ),
            kept(old(store)@, final(store)@, old(self).node as int),
            old(self).setting().sound(old(self).pass(old(store)@), final(self).pass(final(store)@)),
            final(self).fits(final(store)@),
    {
        let tree = self.tree;
        let ghost setting = self.setting();
        let ghost before = store@;
        let ghost start = self.pass(store@);
        let mut i: usize = 0;
        while i < tree.nodes.len()
            invariant
                old(self).same_setting(self),
                tree == self.tree,
                setting == self.setting(),
                self.fits(store@),
                kept(before, store@, self.node as int),
                self.setting().sound(old(self).pass(before), self.pass(store@)),
                i <= tree.nodes.len(),
                walk_from(setting, self.pass(store@), i as int) == walk_from(setting, start, 0),
            decreases tree.nodes.len() - i,
        {
            let ghost middle = store@;
            self.visit(store, i);
            proof {
                lemma_kept_trans(before, middle, store@, self.node as int);
            }
            i += 1;
        }
    }
}

} // verus!
