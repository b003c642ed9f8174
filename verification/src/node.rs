//! The record kept for one file of the module graph.

use crate::i18n_types::{clone_opt_member, opt_member, I18nMember, MemberView};
use crate::post_collector::{ModuleInfo, ModuleView};
use crate::text::{insert_text, text_eq, with_item};
use oxc_span::SourceType;
use vstd::prelude::*;

verus! {

/// Which parser mode a file asks for.
#[derive(Clone, Copy, Debug, PartialEq, Eq, Structural)]
pub struct SourceKind {
    /// The typed dialect.
    pub typescript: bool,
    /// Embedded markup is allowed.
    pub jsx: bool,
}

/// What `oxc_span::SourceType::from_path` makes of a path; `None` where it
/// knows no source type for it.
pub uninterp spec fn source_type_of(path: Seq<char>) -> Option<SourceKind>;

/// Calls `oxc_span::SourceType::from_path` and keeps the language and the
/// markup flag of its answer. The contract only gives that answer its name.
#[verifier::external_body]
fn source_type_from_path(path: &str) -> (kind: Option<SourceKind>)
    ensures
        kind == source_type_of(path@),
{
    match SourceType::from_path(path) {
        Ok(found) => Some(SourceKind { typescript: found.is_typescript(), jsx: found.is_jsx() }),
        Err(_) => None,
    }
}

/// An exported name with its classification, if it has one.
pub struct Export {
    pub name: String,
    pub member: Option<I18nMember>,
}

/// An `Export` as characters.
pub struct ExportView {
    pub name: Seq<char>,
    pub member: Option<MemberView>,
}

impl View for Export {
    type V = ExportView;

    open spec fn view(&self) -> ExportView {
        ExportView { name: self.name@, member: opt_member(self.member) }
    }
}

/// A resolved import: the specifier as written, and the path of the file it names.
pub struct Edge {
    pub specifier: String,
    pub target: String,
}

/// An `Edge` as characters.
pub struct EdgeView {
    pub specifier: Seq<char>,
    pub target: Seq<char>,
}

impl View for Edge {
    type V = EdgeView;

    open spec fn view(&self) -> EdgeView {
        EdgeView { specifier: self.specifier@, target: self.target@ }
    }
}

/// The views of a list of exports.
pub open spec fn exports_view(exports: Seq<Export>) -> Seq<ExportView> {
    exports.map_values(|e: Export| e@)
}

/// The views of a list of edges.
pub open spec fn edges_view(edges: Seq<Edge>) -> Seq<EdgeView> {
    edges.map_values(|e: Edge| e@)
}

/// The first entry of `exports[from..]` that carries `name`.
pub open spec fn export_index_from(exports: Seq<ExportView>, name: Seq<char>, from: int) -> Option<
    int,
>
    decreases exports.len() - from,
{
    if from < 0 || from >= exports.len() {
        None
    } else if exports[from].name == name {
        Some(from)
    } else {
        export_index_from(exports, name, from + 1)
    }
}

/// The first entry of `exports` that carries `name`.
pub open spec fn export_index(exports: Seq<ExportView>, name: Seq<char>) -> Option<int> {
    export_index_from(exports, name, 0)
}

/// What `exports` says of `name`: `None` when it is not exported, else its classification.
pub open spec fn export_of(exports: Seq<ExportView>, name: Seq<char>) -> Option<Option<MemberView>> {
    match export_index(exports, name) {
        Some(i) => Some(exports[i].member),
        None => None,
    }
}

/// The classification under which `exports` hands out `name`, if it has one.
pub open spec fn i18n_export_of(exports: Seq<ExportView>, name: Seq<char>) -> Option<MemberView> {
    match export_of(exports, name) {
        Some(Some(member)) => Some(member),
        _ => None,
    }
}

/// The classified entries of `exports[from..]`: each name with its classification.
pub open spec fn classified_from(exports: Seq<ExportView>, from: int) -> Seq<(Seq<char>, MemberView)>
    decreases exports.len() - from,
{
    if from < 0 || from >= exports.len() {
        Seq::empty()
    } else {
        let rest = classified_from(exports, from + 1);
        match exports[from].member {
            Some(member) => seq![(exports[from].name, member)] + rest,
            None => rest,
        }
    }
}

/// `exports` after `name` was exported as `member`: the entry of that name is
/// replaced, or a new one is added at the end.
pub open spec fn put_export(exports: Seq<ExportView>, name: Seq<char>, member: Option<MemberView>) -> Seq<
    ExportView,
> {
    match export_index(exports, name) {
        Some(i) => exports.update(i, ExportView { name, member }),
        None => exports.push(ExportView { name, member }),
    }
}

/// The place of the newest edge among `edges[..upto]` that carries `specifier`.
pub open spec fn edge_index_upto(edges: Seq<EdgeView>, specifier: Seq<char>, upto: int) -> Option<
    int,
>
    decreases upto,
{
    if upto <= 0 || upto > edges.len() {
        None
    } else if edges[upto - 1].specifier == specifier {
        Some(upto - 1)
    } else {
        edge_index_upto(edges, specifier, upto - 1)
    }
}

/// The place of the edge of `specifier`; the newest one where there are several.
pub open spec fn edge_index(edges: Seq<EdgeView>, specifier: Seq<char>) -> Option<int> {
    edge_index_upto(edges, specifier, edges.len() as int)
}

/// The path that `specifier` leads to according to `edges`.
pub open spec fn edge_target(edges: Seq<EdgeView>, specifier: Seq<char>) -> Option<Seq<char>> {
    match edge_index(edges, specifier) {
        Some(k) => Some(edges[k].target),
        None => None,
    }
}

/// `edges` after `specifier` was recorded as leading to `target`: the edge of
/// that specifier is replaced, or a new one is added at the end.
pub open spec fn put_edge(edges: Seq<EdgeView>, specifier: Seq<char>, target: Seq<char>) -> Seq<
    EdgeView,
> {
    match edge_index(edges, specifier) {
        Some(k) => edges.update(k, EdgeView { specifier, target }),
        None => edges.push(EdgeView { specifier, target }),
    }
}

/// No two entries carry the same name.
pub open spec fn exports_unique(exports: Seq<ExportView>) -> bool {
    forall|a: int, b: int|
        0 <= a < b < exports.len() ==> (#[trigger] exports[a]).name != (#[trigger] exports[b]).name
}

/// No two edges carry the same specifier.
pub open spec fn edges_unique(edges: Seq<EdgeView>) -> bool {
    forall|a: int, b: int|
        0 <= a < b < edges.len() ==> (#[trigger] edges[a]).specifier != (
        #[trigger] edges[b]).specifier
}

/// After a name was exported, it is exported as it was given, and every other
/// name is exported as before.
pub proof fn lemma_put_export_lookup(
    exports: Seq<ExportView>,
    name: Seq<char>,
    member: Option<MemberView>,
    other: Seq<char>,
)
    ensures
        export_of(put_export(exports, name, member), name) == Some(member),
        other != name ==> export_of(put_export(exports, name, member), other) == export_of(
            exports,
            other,
        ),
{
    let after = put_export(exports, name, member);
    lemma_export_index_found(exports, name, 0);
    lemma_export_index_found(after, name, 0);
    lemma_export_index_found(exports, other, 0);
    lemma_export_index_found(after, other, 0);
    match export_index(exports, name) {
        Some(i) => {
            assert(after[i].name == name);
            assert forall|j: int| 0 <= j < after.len() && j != i implies after[j] == exports[j] by {}
            match export_index(after, name) {
                Some(k) => {
                    if k < i {
                        assert(after[k] == exports[k]);
                    }
                    if i < k {
                        assert(after[i].name == name);
                    }
                },
                None => {},
            }
            if other != name {
                match (export_index(exports, other), export_index(after, other)) {
                    (Some(a), Some(b)) => {
                        assert(a != i && b != i);
                        if a < b {
                            assert(after[a] == exports[a]);
                        }
                        if b < a {
                            assert(after[b] == exports[b]);
                        }
                    },
                    (Some(a), None) => {
                        assert(a != i);
                        assert(after[a] == exports[a]);
                    },
                    (None, Some(b)) => {
                        assert(b != i);
                        assert(after[b] == exports[b]);
                    },
                    (None, None) => {},
                }
            }
        },
        None => {
            let last = exports.len() as int;
            assert(after[last].name == name);
            assert forall|j: int| 0 <= j < last implies after[j] == exports[j] by {}
            match export_index(after, name) {
                Some(k) => {
                    if k < last {
                        assert(after[k] == exports[k]);
                    }
                },
                None => {},
            }
            if other != name {
                match (export_index(exports, other), export_index(after, other)) {
                    (Some(a), Some(b)) => {
                        assert(b != last);
                        if a < b {
                            assert(after[a] == exports[a]);
                        }
                        if b < a {
                            assert(after[b] == exports[b]);
                        }
                    },
                    (Some(a), None) => {
                        assert(after[a] == exports[a]);
                    },
                    (None, Some(b)) => {
                        assert(b != last);
                        assert(after[b] == exports[b]);
                    },
                    (None, None) => {},
                }
            }
        },
    }
}

/// What `edge_index_upto` finds is the last edge of that specifier below
/// `upto`; where it finds nothing, no edge below `upto` has the specifier.
pub proof fn lemma_edge_index_found(edges: Seq<EdgeView>, specifier: Seq<char>, upto: int)
    requires
        0 <= upto <= edges.len(),
    ensures
        match edge_index_upto(edges, specifier, upto) {
            Some(k) => {
                &&& 0 <= k < upto
                &&& edges[k].specifier == specifier
                &&& forall|j: int| k < j < upto ==> (#[trigger] edges[j]).specifier != specifier
            },
            None => forall|j: int| 0 <= j < upto ==> (#[trigger] edges[j]).specifier != specifier,
        },
    decreases upto,
{
    if upto > 0 && edges[upto - 1].specifier != specifier {
        lemma_edge_index_found(edges, specifier, upto - 1);
    }
}

/// Two lists that carry the same specifiers at the same places have the edge
/// of a specifier at the same place.
pub proof fn lemma_edge_index_agrees(
    first: Seq<EdgeView>,
    second: Seq<EdgeView>,
    specifier: Seq<char>,
    upto: int,
)
    requires
        0 <= upto <= first.len(),
        upto <= second.len(),
        forall|j: int| 0 <= j < upto ==> (#[trigger] first[j]).specifier == second[j].specifier,
    ensures
        edge_index_upto(first, specifier, upto) == edge_index_upto(second, specifier, upto),
    decreases upto,
{
    if upto > 0 {
        assert(first[upto - 1].specifier == second[upto - 1].specifier);
        lemma_edge_index_agrees(first, second, specifier, upto - 1);
    }
}

/// After a specifier was recorded it leads to the target given, and every
/// other specifier leads where it led before.
pub proof fn lemma_put_edge_lookup(
    edges: Seq<EdgeView>,
    specifier: Seq<char>,
    target: Seq<char>,
    other: Seq<char>,
)
    ensures
        edge_target(put_edge(edges, specifier, target), specifier) == Some(target),
        other != specifier ==> edge_target(put_edge(edges, specifier, target), other)
            == edge_target(edges, other),
        edge_target(edges, specifier) == Some(target) ==> put_edge(edges, specifier, target)
            == edges,
        edges_unique(edges) ==> edges_unique(put_edge(edges, specifier, target)),
{
    let after = put_edge(edges, specifier, target);
    let n = edges.len() as int;
    lemma_edge_index_found(edges, specifier, n);
    lemma_edge_index_found(edges, other, n);
    match edge_index(edges, specifier) {
        Some(k) => {
            assert forall|j: int| 0 <= j < n implies (#[trigger] after[j]).specifier
                == edges[j].specifier by {}
            lemma_edge_index_agrees(after, edges, specifier, n);
            lemma_edge_index_agrees(after, edges, other, n);
            if other != specifier {
                match edge_index(edges, other) {
                    Some(o) => {
                        assert(o != k);
                        assert(after[o] == edges[o]);
                    },
                    None => {},
                }
            }
            if edge_target(edges, specifier) == Some(target) {
                assert(after =~= edges);
            }
            if edges_unique(edges) {
                assert forall|a: int, b: int| 0 <= a < b < after.len() implies (
                #[trigger] after[a]).specifier != (#[trigger] after[b]).specifier by {
                    assert(after[a].specifier == edges[a].specifier);
                    assert(after[b].specifier == edges[b].specifier);
                }
            }
        },
        None => {
            assert(after[n].specifier == specifier);
            assert forall|j: int| 0 <= j < n implies (#[trigger] after[j]).specifier
                == edges[j].specifier by {}
            lemma_edge_index_agrees(after, edges, other, n);
            if other != specifier {
                match edge_index(edges, other) {
                    Some(o) => {
                        assert(after[o] == edges[o]);
                    },
                    None => {},
                }
            }
            if edges_unique(edges) {
                assert forall|a: int, b: int| 0 <= a < b < after.len() implies (
                #[trigger] after[a]).specifier != (#[trigger] after[b]).specifier by {
                    if b < n {
                        assert(after[a] == edges[a]);
                        assert(after[b] == edges[b]);
                    } else {
                        assert(after[a] == edges[a]);
                    }
                }
            }
        },
    }
}

/// One file of the module graph, or the stand-in for a translation package.
pub struct Node {
    /// The canonical absolute path; the key of the node.
    pub file_path: String,
    /// The parser mode that the path asks for, where one is known.
    pub source_kind: Option<SourceKind>,
    /// The paths of the nodes that import this one, each once.
    pub imports: Vec<String>,
    /// The resolved imports of this file, one for each specifier.
    pub importing: Vec<Edge>,
    /// The exported names, one entry each.
    pub exporting_members: Vec<Export>,
    /// Set once a classified export was recorded.
    pub has_exported_i18n_methods: bool,
    /// Set once the file was seen to import a translation primitive.
    pub has_i18n_source_imported: bool,
    /// What the file binds at its top level.
    pub module: ModuleInfo,
}

/// A `Node` as characters.
pub struct NodeView {
    pub file_path: Seq<char>,
    pub source_kind: Option<SourceKind>,
    pub imports: Seq<Seq<char>>,
    pub importing: Seq<EdgeView>,
    pub exporting: Seq<ExportView>,
    pub exported_i18n: bool,
    pub imported_i18n: bool,
    pub module: ModuleView,
}

impl NodeView {
    /// The node that was just made for `file_path`.
    pub open spec fn fresh(file_path: Seq<char>, module: ModuleView) -> NodeView {
        NodeView {
            file_path,
            source_kind: source_type_of(file_path),
            imports: Seq::empty(),
            importing: Seq::empty(),
            exporting: Seq::empty(),
            exported_i18n: false,
            imported_i18n: false,
            module,
        }
    }

    /// This node, marked as importing a translation primitive.
    pub open spec fn marked(self) -> NodeView {
        NodeView { imported_i18n: true, ..self }
    }

    /// This node with `importer` among its importers: the importers are a
    /// set, so an importer that is listed already changes nothing.
    pub open spec fn with_importer(self, importer: Seq<char>) -> NodeView {
        NodeView { imports: with_item(self.imports, importer), ..self }
    }

    /// This node with `specifier` leading to `target`: the edges are a
    /// mapping, so the edge of a specifier that led somewhere is replaced.
    pub open spec fn with_edge(self, specifier: Seq<char>, target: Seq<char>) -> NodeView {
        NodeView { importing: put_edge(self.importing, specifier, target), ..self }
    }

    /// This node after `name` was exported as `member`.
    pub open spec fn with_export(self, name: Seq<char>, member: Option<MemberView>) -> NodeView {
        NodeView {
            exporting: put_export(self.exporting, name, member),
            exported_i18n: self.exported_i18n || member is Some,
            ..self
        }
    }

    /// Every classified export is covered by the flag, every name is exported
    /// once, every specifier leads to one file and every importer is listed
    /// once.
    pub open spec fn wf(self) -> bool {
        &&& forall|i: int|
            0 <= i < self.exporting.len() && (#[trigger] self.exporting[i]).member is Some
                ==> self.exported_i18n
        &&& exports_unique(self.exporting)
        &&& edges_unique(self.importing)
        &&& self.imports.no_duplicates()
    }
}

impl View for Node {
    type V = NodeView;

    open spec fn view(&self) -> NodeView {
        NodeView {
            file_path: self.file_path@,
            source_kind: self.source_kind,
            imports: self.imports.deep_view(),
            importing: edges_view(self.importing@),
            exporting: exports_view(self.exporting_members@),
            exported_i18n: self.has_exported_i18n_methods,
            imported_i18n: self.has_i18n_source_imported,
            module: self.module@,
        }
    }
}

/// A node stays in order when one more name is exported.
pub proof fn lemma_with_export_wf(node: NodeView, name: Seq<char>, member: Option<MemberView>)
    requires
        node.wf(),
    ensures
        node.with_export(name, member).wf(),
{
    let after = node.with_export(name, member);
    let n = node.exporting.len() as int;
    lemma_export_index_found(node.exporting, name, 0);
    assert forall|i: int|
        0 <= i < after.exporting.len() && (#[trigger] after.exporting[i]).member is Some implies after.exported_i18n by {
        match export_index(node.exporting, name) {
            Some(j) => {
                if i != j {
                    assert(after.exporting[i] == node.exporting[i]);
                }
            },
            None => {
                if i < n {
                    assert(after.exporting[i] == node.exporting[i]);
                }
            },
        }
    }
    assert forall|a: int, b: int| 0 <= a < b < after.exporting.len() implies (
    #[trigger] after.exporting[a]).name != (#[trigger] after.exporting[b]).name by {
        match export_index(node.exporting, name) {
            Some(j) => {
                assert(after.exporting[a].name == node.exporting[a].name);
                assert(after.exporting[b].name == node.exporting[b].name);
            },
            None => {
                assert(after.exporting[a] == node.exporting[a]);
                if b < n {
                    assert(after.exporting[b] == node.exporting[b]);
                }
            },
        }
    }
}

/// A node stays in order when a specifier is recorded.
pub proof fn lemma_with_edge_wf(node: NodeView, specifier: Seq<char>, target: Seq<char>)
    requires
        node.wf(),
    ensures
        node.with_edge(specifier, target).wf(),
{
    lemma_put_edge_lookup(node.importing, specifier, target, specifier);
}

/// What `export_index_from` finds is the first entry of that name at or after `from`.
pub proof fn lemma_export_index_found(exports: Seq<ExportView>, name: Seq<char>, from: int)
    requires
        0 <= from,
    ensures
        match export_index_from(exports, name, from) {
            Some(i) => {
                &&& from <= i < exports.len()
                &&& exports[i].name == name
                &&& forall|j: int| from <= j < i ==> (#[trigger] exports[j]).name != name
            },
            None => forall|j: int| from <= j < exports.len() ==> (#[trigger] exports[j]).name != name,
        },
    decreases exports.len() - from,
{
    if from < exports.len() && exports[from].name != name {
        lemma_export_index_found(exports, name, from + 1);
    }
}

/// Where `name` stands among `members`.
pub fn export_position(members: &Vec<Export>, name: &str) -> (found: Option<usize>)
    ensures
        match found {
            Some(i) => export_index(exports_view(members@), name@) == Some(i as int) && i
                < members.len(),
            None => export_index(exports_view(members@), name@) is None,
        },
{
    let mut i: usize = 0;
    while i < members.len()
        invariant
            i <= members.len(),
            export_index_from(exports_view(members@), name@, i as int) == export_index(
                exports_view(members@),
                name@,
            ),
        decreases members.len() - i,
    {
        if text_eq(members[i].name.as_str(), name) {
            return Some(i);
        }
        i += 1;
    }
    None
}

/// The classification under which `members` hands out `name`, if it has one.
pub fn find_i18n_member<'a>(members: &'a Vec<Export>, name: &str) -> (found: Option<&'a I18nMember>)
    ensures
        match found {
            Some(member) => i18n_export_of(exports_view(members@), name@) == Some(member@),
            None => i18n_export_of(exports_view(members@), name@) is None,
        },
{
    match export_position(members, name) {
        Some(i) => match &members[i].member {
            Some(member) => Some(member),
            None => None,
        },
        None => None,
    }
}

/// Where the edge of `specifier` stands among `edges`.
pub fn find_edge(edges: &Vec<Edge>, specifier: &str) -> (found: Option<usize>)
    ensures
        match found {
            Some(k) => edge_index(edges_view(edges@), specifier@) == Some(k as int) && k
                < edges.len(),
            None => edge_index(edges_view(edges@), specifier@) is None,
        },
{
    let mut i: usize = edges.len();
    while i > 0
        invariant
            i <= edges.len(),
            edge_index_upto(edges_view(edges@), specifier@, i as int) == edge_index(
                edges_view(edges@),
                specifier@,
            ),
        decreases i,
    {
        if text_eq(edges[i - 1].specifier.as_str(), specifier) {
            return Some(i - 1);
        }
        i -= 1;
    }
    None
}

/// The path that `specifier` leads to according to `edges`.
pub fn find_edge_target<'a>(edges: &'a Vec<Edge>, specifier: &str) -> (found: Option<&'a String>)
    ensures
        match found {
            Some(target) => edge_target(edges_view(edges@), specifier@) == Some(target@),
            None => edge_target(edges_view(edges@), specifier@) is None,
        },
{
    match find_edge(edges, specifier) {
        Some(k) => Some(&edges[k].target),
        None => None,
    }
}

impl Node {
    /// The record of a file that nothing is known of yet.
    pub fn new(file_path: String) -> (node: Node)
        ensures
            node@ == NodeView::fresh(file_path@, node.module@),
            node.module.is_empty(),
            node@.wf(),
    {
        let source_kind = source_type_from_path(file_path.as_str());
        let node = Node {
            file_path,
            source_kind,
            imports: Vec::new(),
            importing: Vec::new(),
            exporting_members: Vec::new(),
            has_exported_i18n_methods: false,
            has_i18n_source_imported: false,
            module: ModuleInfo::empty(),
        };
        assert(node@.imports =~= Seq::empty());
        assert(node@.importing =~= Seq::empty());
        assert(node@.exporting =~= Seq::empty());
        node
    }

    pub fn mark_has_i18n_source_imported(&mut self)
        ensures
            final(self)@ == old(self)@.marked(),
            old(self)@.wf() ==> final(self)@.wf(),
    {
        self.has_i18n_source_imported = true;
    }

    pub fn has_i18n_source_imported(&self) -> (flag: bool)
        ensures
            flag == self@.imported_i18n,
    {
        self.has_i18n_source_imported
    }

    pub fn has_exported_i18n_methods(&self) -> (flag: bool)
        ensures
            flag == self@.exported_i18n,
    {
        self.has_exported_i18n_methods
    }

    /// Records that the file at `parent_path` imports this one. An importer
    /// that is listed already is not listed again.
    pub fn insert_imports(&mut self, parent_path: String)
        ensures
            final(self)@ == old(self)@.with_importer(parent_path@),
            old(self)@.wf() ==> final(self)@.wf(),
    {
        insert_text(&mut self.imports, parent_path);
    }

    /// Records that this file exports `member`, classified as `i18n_member`.
    pub fn insert_exporting(&mut self, member: String, i18n_member: Option<I18nMember>)
        ensures
            final(self)@ == old(self)@.with_export(member@, opt_member(i18n_member)),
            old(self)@.wf() ==> final(self)@.wf(),
    {
        proof {
            if self@.wf() {
                lemma_with_export_wf(self@, member@, opt_member(i18n_member));
            }
        }
        if i18n_member.is_some() {
            self.has_exported_i18n_methods = true;
        }
        let ghost before = exports_view(self.exporting_members@);
        let found = self.export_position(member.as_str());
        let entry = Export { name: member, member: i18n_member };
        match found {
            Some(i) => {
                self.exporting_members[i] = entry;
                assert(exports_view(self.exporting_members@) =~= before.update(i as int, entry@));
            },
            None => {
                self.exporting_members.push(entry);
                assert(exports_view(self.exporting_members@) =~= before.push(entry@));
            },
        }
    }

    /// Records that `specifier` resolves to the file at `source_path`; what
    /// the specifier resolved to before is forgotten.
    pub fn insert_importing(&mut self, specifier: String, source_path: String)
        ensures
            final(self)@ == old(self)@.with_edge(specifier@, source_path@),
            old(self)@.wf() ==> final(self)@.wf(),
    {
        let ghost before = edges_view(self.importing@);
        proof {
            lemma_put_edge_lookup(before, specifier@, source_path@, specifier@);
        }
        let found = find_edge(&self.importing, specifier.as_str());
        let edge = Edge { specifier, target: source_path };
        match found {
            Some(k) => {
                self.importing[k] = edge;
                assert(edges_view(self.importing@) =~= before.update(k as int, edge@));
            },
            None => {
                self.importing.push(edge);
                assert(edges_view(self.importing@) =~= before.push(edge@));
            },
        }
    }

    /// Where `name` stands among the exports.
    pub fn export_position(&self, name: &str) -> (found: Option<usize>)
        ensures
            match found {
                Some(i) => export_index(self@.exporting, name@) == Some(i as int) && i
                    < self.exporting_members.len(),
                None => export_index(self@.exporting, name@) is None,
            },
    {
        export_position(&self.exporting_members, name)
    }

    /// What this file says of the exported `name`.
    pub fn exported_member(&self, name: &str) -> (found: Option<&Option<I18nMember>>)
        ensures
            match found {
                Some(member) => export_of(self@.exporting, name@) == Some(opt_member(*member)),
                None => export_of(self@.exporting, name@) is None,
            },
    {
        match self.export_position(name) {
            Some(i) => Some(&self.exporting_members[i].member),
            None => None,
        }
    }

    /// The classification under which this file exports `name`, if it has one.
    pub fn i18n_member(&self, name: &str) -> (found: Option<&I18nMember>)
        ensures
            match found {
                Some(member) => i18n_export_of(self@.exporting, name@) == Some(member@),
                None => i18n_export_of(self@.exporting, name@) is None,
            },
    {
        match self.exported_member(name) {
            Some(Some(member)) => Some(member),
            _ => None,
        }
    }

    /// The path that `specifier` was resolved to; the newest edge decides.
    pub fn importing_target(&self, specifier: &str) -> (found: Option<&String>)
        ensures
            match found {
                Some(target) => edge_target(self@.importing, specifier@) == Some(target@),
                None => edge_target(self@.importing, specifier@) is None,
            },
    {
        find_edge_target(&self.importing, specifier)
    }

    /// A copy of this node.
    pub fn copy(&self) -> (copy: Node)
        ensures
            copy@ == self@,
    {
        let mut importing: Vec<Edge> = Vec::new();
        let mut i: usize = 0;
        while i < self.importing.len()
            invariant
                i <= self.importing.len(),
                importing.len() == i,
                forall|k: int| 0 <= k < i ==> importing[k]@ == self.importing[k]@,
            decreases self.importing.len() - i,
        {
            importing.push(
                Edge {
                    specifier: self.importing[i].specifier.clone(),
                    target: self.importing[i].target.clone(),
                },
            );
            i += 1;
        }
        let copy = Node {
            file_path: self.file_path.clone(),
            source_kind: self.source_kind,
            imports: crate::text::clone_texts(&self.imports),
            importing,
            exporting_members: self.get_exporting_members(),
            has_exported_i18n_methods: self.has_exported_i18n_methods,
            has_i18n_source_imported: self.has_i18n_source_imported,
            module: self.module.copy(),
        };
        assert(copy@.importing =~= self@.importing);
        copy
    }

    /// A copy of the classified exports: each name with its classification, in
    /// the order of the exports.
    pub fn get_exporting_i18n_members(&self) -> (members: Vec<(String, I18nMember)>)
        ensures
            members@.map_values(|m: (String, I18nMember)| (m.0@, m.1@)) == classified_from(
                self@.exporting,
                0,
            ),
    {
        let ghost views = self@.exporting;
        let mut members: Vec<(String, I18nMember)> = Vec::new();
        let mut i: usize = 0;
        assert(members@.map_values(|m: (String, I18nMember)| (m.0@, m.1@)) =~= Seq::empty());
        assert(Seq::<(Seq<char>, MemberView)>::empty() + classified_from(views, 0)
            =~= classified_from(views, 0));
        while i < self.exporting_members.len()
            invariant
                i <= self.exporting_members.len(),
                views == self@.exporting,
                members@.map_values(|m: (String, I18nMember)| (m.0@, m.1@)) + classified_from(
                    views,
                    i as int,
                ) == classified_from(views, 0),
            decreases self.exporting_members.len() - i,
        {
            let ghost before = members@.map_values(|m: (String, I18nMember)| (m.0@, m.1@));
            assert(views[i as int] == self.exporting_members[i as int]@);
            match &self.exporting_members[i].member {
                Some(member) => {
                    let entry = (self.exporting_members[i].name.clone(), member.copy());
                    members.push(entry);
                    assert(members@.map_values(|m: (String, I18nMember)| (m.0@, m.1@))
                        =~= before.push((entry.0@, entry.1@)));
                    assert(before.push((entry.0@, entry.1@)) + classified_from(views, i + 1)
                        =~= before + classified_from(views, i as int));
                },
                None => {},
            }
            i += 1;
        }
        assert(members@.map_values(|m: (String, I18nMember)| (m.0@, m.1@)) + Seq::<
            (Seq<char>, MemberView),
        >::empty() =~= members@.map_values(|m: (String, I18nMember)| (m.0@, m.1@)));
        members
    }

    /// A copy of the exported names with their classifications.
    pub fn get_exporting_members(&self) -> (members: Vec<Export>)
        ensures
            exports_view(members@) == self@.exporting,
    {
        let mut members: Vec<Export> = Vec::new();
        let mut i: usize = 0;
        while i < self.exporting_members.len()
            invariant
                i <= self.exporting_members.len(),
                members.len() == i,
                forall|k: int| 0 <= k < i ==> members[k]@ == self.exporting_members[k]@,
            decreases self.exporting_members.len() - i,
        {
            let entry = &self.exporting_members[i];
            members.push(Export { name: entry.name.clone(), member: clone_opt_member(&entry.member) });
            i += 1;
        }
        assert(exports_view(members@) =~= self@.exporting);
        members
    }
}

} // verus!
