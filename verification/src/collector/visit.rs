//! The walk over the import declarations of a file: each imported translation
//! primitive is followed through the file according to its kind.

use crate::collector::hooks::{read_hook, read_namespace_import};
use crate::collector::markup::{read_hoc_wrapper, read_trans_component, read_translation_component};
use crate::collector::reading::{read_object_member_t, read_t};
use crate::collector::walker::{t_member_names, Extraction, Walker};
use crate::i18n_types::I18nType;
use crate::node::{exports_view, find_i18n_member, i18n_export_of, Export, ExportView};
use crate::node_store::importing_index;
use crate::syntax::{all_after, NodeKind};
use crate::text::{clone_opt_text, text_eq};
use crate::walk_utils::Scene;
use vstd::prelude::*;

verus! {

/// The state after the named specifier `specifier`, which binds `symbol` as
/// `name` to the member `imported` of a module with the exports `members`,
/// was followed.
///
/// A classified member is followed according to its kind. A member without
/// classification is still followed when it carries the preset name of the
/// hook or of the translator.
pub open spec fn visit_named(
    scene: Scene,
    state: Extraction,
    specifier: usize,
    imported: Seq<char>,
    symbol: usize,
    name: Seq<char>,
    members: Seq<ExportView>,
) -> Extraction {
    match i18n_export_of(members, imported) {
        Some(member) => match member.kind {
            I18nType::Hook => read_hook(scene, state, specifier, member.ns, members),
            I18nType::TMethod => read_t(scene, state.with_t_symbol(symbol, name), symbol, member.ns),
            I18nType::ObjectMemberT => read_object_member_t(
                scene,
                state.with_member_names(t_member_names(members), 0),
                symbol,
                member.ns,
            ),
            I18nType::TransComp => read_trans_component(scene, state, symbol, member.ns),
            I18nType::TranslationComp => read_translation_component(scene, state, symbol, member.ns),
            I18nType::HocWrapper => read_hoc_wrapper(scene, state, symbol, member.ns),
        },
        None => if imported == "useTranslation"@ {
            read_hook(scene, state, specifier, None, Seq::empty())
        } else if imported == "t"@ {
            read_t(scene, state.with_t_symbol(symbol, name), symbol, None)
        } else {
            state
        },
    }
}

/// The state after specifier `specifier` of an import declaration was
/// followed; `source` is the node that the declaration imports from, if the
/// graph knows it.
pub open spec fn visit_specifier(scene: Scene, state: Extraction, specifier: usize, source: Option<int>) -> Extraction {
    let members = match source {
        Some(j) => scene.store[j].exporting,
        None => Seq::empty(),
    };
    match scene.kind(specifier) {
        NodeKind::ImportSpecifier { imported, local } => match scene.kind(local) {
            NodeKind::BindingIdentifier { name, symbol } => visit_named(
                scene,
                state,
                specifier,
                imported@,
                symbol,
                name@,
                members,
            ),
            _ => state,
        },
        NodeKind::ImportNamespaceSpecifier { local } => match (source, scene.kind(local)) {
            (Some(_), NodeKind::BindingIdentifier { symbol, .. }) => read_namespace_import(
                scene,
                state.with_member_names(t_member_names(members), 0),
                symbol,
                members,
            ),
            _ => state,
        },
        _ => state,
    }
}

/// The state after the specifiers `from..` of an import declaration were followed.
pub open spec fn visit_specifiers_from(
    scene: Scene,
    state: Extraction,
    specifiers: Seq<usize>,
    source: Option<int>,
    from: int,
) -> Extraction
    decreases specifiers.len() - from,
{
    if from < 0 || from >= specifiers.len() {
        state
    } else {
        visit_specifiers_from(
            scene,
            visit_specifier(scene, state, specifiers[from], source),
            specifiers,
            source,
            from + 1,
        )
    }
}

/// The state after node `id` was visited: an import declaration with
/// specifiers has each of them followed.
pub open spec fn visit_import_declaration(scene: Scene, state: Extraction, id: usize) -> Extraction {
    match scene.kind(id) {
        NodeKind::ImportDeclaration { source, specifiers: Some(specifiers) } => visit_specifiers_from(
            scene,
            state,
            specifiers@,
            importing_index(scene.store, scene.node, source@),
            0,
        ),
        _ => state,
    }
}

/// The state after the nodes `from..` of the file were visited in order.
pub open spec fn walk_from(scene: Scene, state: Extraction, from: int) -> Extraction
    decreases scene.tree.nodes.len() - from,
{
    if from < 0 || from >= scene.tree.nodes.len() {
        state
    } else {
        walk_from(scene, visit_import_declaration(scene, state, from as usize), from + 1)
    }
}

/// What the walk over the file finds, starting from `state`.
pub open spec fn walk(scene: Scene, state: Extraction) -> Extraction {
    walk_from(scene, state, 0)
}

impl<'a> Walker<'a> {
    fn visit_named(
        &mut self,
        specifier: usize,
        imported: &str,
        symbol: usize,
        name: &str,
        members: &Vec<Export>,
    )
        requires
            old(self).wf(),
            specifier < old(self).walk_utils.tree.nodes.len(),
            symbol < old(self).walk_utils.tree.symbols.len(),
        ensures
            old(self).becomes(
                final(self),
                visit_named(
                    old(self).scene(),
                    old(self)@,
                    specifier,
                    imported@,
                    symbol,
                    name@,
                    exports_view(members@),
                ),
            ),
    {
        match find_i18n_member(members, imported) {
            Some(member) => {
                let ns = clone_opt_text(&member.ns);
                match member.kind {
                    I18nType::Hook => {
                        self.read_hook(specifier, ns, members);
                    },
                    I18nType::TMethod => {
                        self.register_t_symbol(symbol, name);
                        self.read_t(symbol, ns);
                    },
                    I18nType::ObjectMemberT => {
                        let translation_names = Self::collect_t_member_names(members);
                        self.register_translation_names(&translation_names);
                        self.read_object_member_t(symbol, ns);
                    },
                    I18nType::TransComp => {
                        self.read_trans_component(symbol, ns);
                    },
                    I18nType::TranslationComp => {
                        self.read_translation_component(symbol, ns);
                    },
                    I18nType::HocWrapper => {
                        self.read_hoc_wrapper(symbol, ns);
                    },
                }
            },
            None => {
                if self.is_standard_hook_export(imported) {
                    let empty_members: Vec<Export> = Vec::new();
                    assert(exports_view(empty_members@) =~= Seq::empty());
                    self.read_hook(specifier, None, &empty_members);
                } else if text_eq(imported, "t") {
                    self.register_t_symbol(symbol, name);
                    self.read_t(symbol, None);
                }
            },
        }
    }

    fn visit_specifier(&mut self, specifier: usize, source: Option<usize>)
        requires
            old(self).wf(),
            specifier < old(self).walk_utils.tree.nodes.len(),
            source matches Some(j) ==> j < old(self).walk_utils.store.nodes.len(),
        ensures
            old(self).becomes(
                final(self),
                visit_specifier(
                    old(self).scene(),
                    old(self)@,
                    specifier,
                    match source {
                        Some(j) => Some(j as int),
                        None => None,
                    },
                ),
            ),
    {
        let tree = self.walk_utils.tree;
        let store = self.walk_utils.store;
        let empty_members: Vec<Export> = Vec::new();
        let members: &Vec<Export> = match source {
            Some(j) => {
                assert(store@[j as int] == store.nodes[j as int]@);
                &store.nodes[j].exporting_members
            },
            None => {
                assert(exports_view(empty_members@) =~= Seq::empty());
                &empty_members
            },
        };
        match &tree.nodes[specifier].kind {
            NodeKind::ImportSpecifier { imported, local } => match &tree.nodes[*local].kind {
                NodeKind::BindingIdentifier { name, symbol } => {
                    self.visit_named(specifier, imported.as_str(), *symbol, name.as_str(), members);
                },
                _ => {},
            },
            NodeKind::ImportNamespaceSpecifier { local } => match (source, &tree.nodes[*local].kind) {
                (Some(_), NodeKind::BindingIdentifier { symbol, .. }) => {
                    let translation_names = Self::collect_t_member_names(members);
                    self.register_translation_names(&translation_names);
                    self.read_namespace_import(*symbol, members);
                },
                _ => {},
            },
            _ => {},
        }
    }

    /// Visits node `it`: an import declaration has each of its specifiers followed.
    pub fn visit_import_declaration(&mut self, it: usize)
        requires
            old(self).wf(),
            it < old(self).walk_utils.tree.nodes.len(),
        ensures
            old(self).becomes(
                final(self),
                visit_import_declaration(old(self).scene(), old(self)@, it),
            ),
    {
        let tree = self.walk_utils.tree;
        let ghost scene = self.scene();
        match &tree.nodes[it].kind {
            NodeKind::ImportDeclaration { source, specifiers: Some(specifiers) } => {
                let target = self.walk_utils.store.importing_node(
                    self.walk_utils.node,
                    source.as_str(),
                );
                let ghost found = importing_index(scene.store, scene.node, source@);
                let mut i: usize = 0;
                while i < specifiers.len()
                    invariant
                        self.wf(),
                        self.walk_utils == old(self).walk_utils,
                        tree == self.walk_utils.tree,
                        scene == self.scene(),
                        all_after(it as int, specifiers@, tree.nodes.len() as int),
                        target matches Some(j) ==> j < self.walk_utils.store.nodes.len(),
                        found == (match target {
                            Some(j) => Some(j as int),
                            None => None,
                        }),
                        i <= specifiers.len(),
                        visit_specifiers_from(scene, self@, specifiers@, found, i as int)
                            == visit_specifiers_from(scene, old(self)@, specifiers@, found, 0),
                    decreases specifiers.len() - i,
                {
                    self.visit_specifier(specifiers[i], target);
                    i += 1;
                }
            },
            _ => {},
        }
    }

    /// Visits every node of the file in order.
    pub fn walk(&mut self)
        requires
            old(self).wf(),
        ensures
            old(self).becomes(final(self), walk(old(self).scene(), old(self)@)),
    {
        let tree = self.walk_utils.tree;
        let ghost scene = self.scene();
        let mut i: usize = 0;
        while i < tree.nodes.len()
            invariant
                self.wf(),
                self.walk_utils == old(self).walk_utils,
                tree == self.walk_utils.tree,
                scene == self.scene(),
                i <= tree.nodes.len(),
                walk_from(scene, self@, i as int) == walk_from(scene, old(self)@, 0),
            decreases tree.nodes.len() - i,
        {
            self.visit_import_declaration(i);
            i += 1;
        }
    }
}

} // verus!
