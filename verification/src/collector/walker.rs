//! The state of one file's extraction and the names it knows translators by.

use crate::collector::keys::{KeyTable, NamespaceView};
use crate::i18n_packages::is_preset_member_name;
use crate::i18n_types::I18nType;
use crate::node::ExportView;
use crate::node_store::NodeStore;
use crate::post_collector::{PartView, PostCollector};
use crate::syntax::{NodeKind, SyntaxTree};
use crate::text::{contains_index, contains_text, insert_text, with_item};
use crate::walk_utils::{Scene, WalkerUtils};
use vstd::prelude::*;

verus! {

/// What an extraction has found so far.
pub struct Extraction {
    /// The keys, by namespace.
    pub keys: Seq<NamespaceView>,
    /// The keys that wait for their text: (namespace parts, key parts).
    pub pending: Seq<(Seq<PartView>, Seq<PartView>)>,
    /// The symbols that are bound to a translator.
    pub t_symbols: Seq<usize>,
    /// The local names of translators.
    pub t_names: Seq<Seq<char>>,
    /// The member names under which an object hands out its translator.
    pub member_names: Seq<Seq<char>>,
}

impl Extraction {
    /// Nothing found yet.
    pub open spec fn empty() -> Extraction {
        Extraction {
            keys: Seq::empty(),
            pending: Seq::empty(),
            t_symbols: Seq::empty(),
            t_names: Seq::empty(),
            member_names: Seq::empty(),
        }
    }

    /// `key` was seen in `namespace`.
    pub open spec fn with_key(self, namespace: Seq<char>, key: Seq<char>) -> Extraction {
        Extraction { keys: crate::collector::keys::add_key(self.keys, namespace, key), ..self }
    }

    /// Each of `keys[from..]` was seen in `namespace`.
    pub open spec fn with_keys(self, namespace: Seq<char>, keys: Seq<Seq<char>>) -> Extraction {
        Extraction { keys: crate::collector::keys::add_keys(self.keys, namespace, keys, 0), ..self }
    }

    /// The name `name` of file `file` was used as a key in `namespace`, its text unknown.
    pub open spec fn with_pending(self, namespace: Seq<char>, file: Seq<char>, name: Seq<char>) -> Extraction {
        Extraction {
            pending: self.pending.push(
                (seq![PartView::Text(namespace)], seq![PartView::Link { node: file, member: name }]),
            ),
            ..self
        }
    }

    /// `symbol`, written `name`, is a translator.
    pub open spec fn with_t_symbol(self, symbol: usize, name: Seq<char>) -> Extraction {
        Extraction {
            t_symbols: with_item(self.t_symbols, symbol),
            t_names: with_item(self.t_names, name),
            ..self
        }
    }

    /// Each of `names[from..]` names the translator of an object.
    pub open spec fn with_member_names(self, names: Seq<Seq<char>>, from: int) -> Extraction
        decreases names.len() - from,
    {
        if from < 0 || from >= names.len() {
            self
        } else {
            Extraction {
                member_names: with_item(self.member_names, names[from]),
                ..self
            }.with_member_names(names, from + 1)
        }
    }

    /// Whether `name` is known as the name of a translator.
    pub open spec fn knows_t_name(self, name: Seq<char>) -> bool {
        self.t_names.contains(name) || self.member_names.contains(name) || name == "t"@
    }
}

/// Whether identifier node `id` names a translator: by its symbol, or by its name.
pub open spec fn names_translator(scene: Scene, state: Extraction, id: usize) -> bool {
    match scene.kind(id) {
        NodeKind::Identifier { name, reference } => {
            ||| (scene.tree.references[reference as int].symbol matches Some(symbol)
                && state.t_symbols.contains(symbol))
            ||| state.knows_t_name(name@)
        },
        _ => false,
    }
}

/// The names of the members of `members[from..]` that are plain translators.
pub open spec fn t_member_names_from(members: Seq<ExportView>, from: int) -> Seq<Seq<char>>
    decreases members.len() - from,
{
    if from < 0 || from >= members.len() {
        Seq::empty()
    } else {
        let rest = t_member_names_from(members, from + 1);
        match members[from].member {
            Some(member) => if member.kind == I18nType::TMethod {
                seq![members[from].name] + rest
            } else {
                rest
            },
            None => rest,
        }
    }
}

/// The member names under which a module with the exports `members` hands out
/// its translator; the preset name when it declares none.
pub open spec fn t_member_names(members: Seq<ExportView>) -> Seq<Seq<char>> {
    let declared = t_member_names_from(members, 0);
    if declared.len() == 0 {
        seq!["t"@]
    } else {
        declared
    }
}

/// The extraction of the keys of one file.
pub struct Walker<'a> {
    /// The keys found so far.
    pub i18n_namespaces: KeyTable,
    /// The keys that wait for their text.
    pub post_collects: PostCollector,
    /// The tree of the file, the graph and the place of the file in it.
    pub walk_utils: WalkerUtils<'a>,
    /// The symbols that are bound to a translator.
    pub t_symbol_ids: Vec<usize>,
    /// The local names of translators.
    pub t_function_names: Vec<String>,
    /// The member names under which an object hands out its translator.
    pub translation_member_names: Vec<String>,
}

impl<'a> View for Walker<'a> {
    type V = Extraction;

    open spec fn view(&self) -> Extraction {
        Extraction {
            keys: self.i18n_namespaces@,
            pending: self.post_collects@,
            t_symbols: self.t_symbol_ids@,
            t_names: self.t_function_names.deep_view(),
            member_names: self.translation_member_names.deep_view(),
        }
    }
}

impl<'a> Walker<'a> {
    /// What this extraction reads from.
    pub open spec fn scene(&self) -> Scene {
        Scene {
            tree: *self.walk_utils.tree,
            store: self.walk_utils.store@,
            node: self.walk_utils.node as int,
        }
    }

    /// The tree is in order and the file is a node of the graph.
    pub open spec fn wf(&self) -> bool {
        self.walk_utils.wf()
    }

    /// `after` is this extraction in the state `state`, reading from the same scene.
    pub open spec fn becomes(&self, after: &Self, state: Extraction) -> bool {
        after.walk_utils == self.walk_utils && after@ == state
    }

    /// An extraction that has found nothing yet.
    pub fn new(tree: &'a SyntaxTree, store: &'a NodeStore, node: usize) -> (walker: Self)
        ensures
            walker.walk_utils.tree == tree,
            walker.walk_utils.store == store,
            walker.walk_utils.node == node,
            walker@ == Extraction::empty(),
    {
        let walker = Self {
            i18n_namespaces: KeyTable::new(),
            post_collects: PostCollector::new(),
            walk_utils: WalkerUtils::new(tree, store, node),
            t_symbol_ids: Vec::new(),
            t_function_names: Vec::new(),
            translation_member_names: Vec::new(),
        };
        assert(walker@.pending =~= Seq::empty());
        assert(walker@.t_names =~= Seq::empty());
        assert(walker@.member_names =~= Seq::empty());
        walker
    }

    /// Records that `symbol_id`, written `name`, is a translator.
    pub fn register_t_symbol(&mut self, symbol_id: usize, name: &str)
        ensures
            old(self).becomes(final(self), old(self)@.with_t_symbol(symbol_id, name@)),
    {
        if !contains_index(&self.t_symbol_ids, symbol_id) {
            self.t_symbol_ids.push(symbol_id);
        }
        insert_text(&mut self.t_function_names, name.to_owned());
    }

    /// Records the member names under which an object hands out its translator.
    pub fn register_translation_names(&mut self, names: &Vec<String>)
        ensures
            old(self).becomes(final(self), old(self)@.with_member_names(names.deep_view(), 0)),
    {
        let mut i: usize = 0;
        while i < names.len()
            invariant
                i <= names.len(),
                self.walk_utils == old(self).walk_utils,
                self@.with_member_names(names.deep_view(), i as int) == old(
                    self,
                )@.with_member_names(names.deep_view(), 0),
            decreases names.len() - i,
        {
            assert(names.deep_view()[i as int] == names[i as int]@);
            insert_text(&mut self.translation_member_names, names[i].clone());
            i += 1;
        }
    }

    /// Records that `key` is used in `namespace`.
    pub fn add_key(&mut self, namespace: &str, key: String)
        ensures
            old(self).becomes(final(self), old(self)@.with_key(namespace@, key@)),
    {
        self.i18n_namespaces.add_key(namespace, key);
    }

    /// Whether `name` is known as the name of a translator.
    pub fn is_known_t_name(&self, name: &str) -> (known: bool)
        ensures
            known == self@.knows_t_name(name@),
    {
        if contains_text(&self.t_function_names, name) {
            return true;
        }
        if contains_text(&self.translation_member_names, name) {
            return true;
        }
        is_preset_member_name(name, &I18nType::TMethod)
    }

    /// Whether identifier node `ident` names a translator.
    pub fn is_t_identifier(&self, ident: usize) -> (named: bool)
        requires
            self.wf(),
            ident < self.walk_utils.tree.nodes.len(),
        ensures
            named == names_translator(self.scene(), self@, ident),
    {
        match &self.walk_utils.tree.nodes[ident].kind {
            NodeKind::Identifier { name, reference } => {
                match self.walk_utils.tree.reference_symbol(*reference) {
                    Some(symbol) => {
                        if contains_index(&self.t_symbol_ids, symbol) {
                            return true;
                        }
                    },
                    None => {},
                }
                self.is_known_t_name(name.as_str())
            },
            _ => false,
        }
    }

    /// Whether `export_name` is the preset name of the hook.
    pub fn is_standard_hook_export(&self, export_name: &str) -> (standard: bool)
        ensures
            standard == (export_name@ == "useTranslation"@),
    {
        is_preset_member_name(export_name, &I18nType::Hook)
    }

    /// The member names under which a module with the exports `members` hands
    /// out its translator.
    pub fn collect_t_member_names(members: &Vec<crate::node::Export>) -> (names: Vec<String>)
        ensures
            names.deep_view() == t_member_names(crate::node::exports_view(members@)),
    {
        let ghost views = crate::node::exports_view(members@);
        let mut names: Vec<String> = Vec::new();
        let mut i: usize = 0;
        while i < members.len()
            invariant
                i <= members.len(),
                views == crate::node::exports_view(members@),
                names.deep_view() + t_member_names_from(views, i as int) == t_member_names_from(
                    views,
                    0,
                ),
            decreases members.len() - i,
        {
            let ghost before = names.deep_view();
            assert(views[i as int] == members[i as int]@);
            let is_t = match &members[i].member {
                Some(member) => match member.kind {
                    I18nType::TMethod => true,
                    _ => false,
                },
                None => false,
            };
            if is_t {
                names.push(members[i].name.clone());
                assert(names.deep_view() =~= before.push(members[i as int].name@));
                assert(before.push(members[i as int].name@) + t_member_names_from(views, i + 1)
                    =~= before + t_member_names_from(views, i as int));
            }
            i += 1;
        }
        assert(names.deep_view() + Seq::<Seq<char>>::empty() =~= names.deep_view());
        if names.len() == 0 {
            names.push("t".to_owned());
            assert(names.deep_view() =~= seq!["t"@]);
        }
        names
    }
}

} // verus!
