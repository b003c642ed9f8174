//! The first pass: growing the module graph from the entry files and telling
//! which exports hand out a translation primitive.
//!
//! The analyzer never touches the disk. It is driven by its caller:
//!
//! 1. `analyze` names an entry file and answers with an [`Action`].
//! 2. On `Load(path)` the caller reads and parses the file, asks the resolver
//!    about the specifiers that `visit::import_sources` lists for its tree,
//!    and hands both to `loaded`; a file that cannot be read is handed in as
//!    `None`.
//! 3. On `Next` the caller calls `advance`.
//! 4. On `Done` the entry file and everything it leads to are in the graph.
//!
//! Every step keeps the laws of the graph (`node_store::graph_wf`): each edge
//! leads to a node that lists its source as an importer, and each node that is
//! marked as importing a translation primitive has an edge to a node that
//! exports one.

pub mod module_info;
pub mod visit;
pub mod walker;

use crate::analyzer::module_info::module_of;
use crate::analyzer::visit::walk;
use crate::analyzer::walker::{answers_agree, exporters_of, kept, Pass, Setting, Walker};
use crate::i18n_packages::{
    has_kind, last_named, lemma_supplemented_settles, packages_view, preset_member, preset_name,
    supplemented, I18nPackage, MemberEntry, PackageView,
};
use crate::i18n_types::{I18nMember, I18nType, MemberView};
use crate::node::{
    edges_view, export_of, i18n_export_of, lemma_edge_index_found, lemma_put_export_lookup,
    put_edge, Edge, EdgeView, Node, NodeView,
};
use crate::node_store::{
    add_importer, connect, connects_safely, graph_wf, grown, lemma_add_importer, lemma_connect,
    lemma_connect_shape, lemma_grown_trans, lemma_mark, lemma_node_index_found,
    lemma_paths_unique_kept, lemma_paths_unique_push, lemma_push, mark,
    node_index, nodes_wf, paths_unique, put_node, NodeStore,
};
use crate::pattern::{
    compile_externals, external_patterns, first_invalid_from, is_script_path, script_path,
    Externals,
};
use crate::post_collector::ModuleInfo;
use crate::resolver::Resolution;
use crate::syntax::SyntaxTree;
use crate::text::{clone_opt_text, opt_text};
use vstd::prelude::*;

verus! {

/// Why a run cannot be set up.
#[derive(Clone, Copy, Debug, PartialEq, Eq, Structural)]
pub enum ScanError {
    /// No entry file was given.
    EmptyEntries,
    /// The external package source at this place is not a valid expression.
    InvalidExternal(usize),
}

/// What the caller has to do next.
pub enum Action {
    /// Read and parse the file at this path, and hand the outcome to `loaded`.
    Load(String),
    /// Call `advance`.
    Next,
    /// Nothing is under way.
    Done,
}

/// An `Action` as characters.
pub enum ActionView {
    Load(Seq<char>),
    Next,
    Done,
}

impl View for Action {
    type V = ActionView;

    open spec fn view(&self) -> ActionView {
        match *self {
            Action::Load(path) => ActionView::Load(path@),
            Action::Next => ActionView::Next,
            Action::Done => ActionView::Done,
        }
    }
}

/// A file whose imports are being followed.
pub struct Frame {
    /// The node of the file.
    pub node: usize,
    /// The specifier under which the file above imports this one.
    pub via: Option<String>,
    /// The imports of the file that were not nodes of the graph when it was walked.
    pub pending: Vec<Edge>,
    /// How many of them have been followed.
    pub next: usize,
}

/// A `Frame` as characters.
pub struct FrameView {
    pub node: int,
    pub via: Option<Seq<char>>,
    pub pending: Seq<EdgeView>,
    pub next: int,
}

impl View for Frame {
    type V = FrameView;

    open spec fn view(&self) -> FrameView {
        FrameView {
            node: self.node as int,
            via: opt_text(self.via),
            pending: edges_view(self.pending@),
            next: self.next as int,
        }
    }
}

/// A file that the caller was asked to load.
pub struct Waiting {
    pub path: String,
    /// The specifier under which the file on top of the stack imports it.
    pub via: Option<String>,
    /// The importer that the caller named for an entry file.
    pub importer: Option<String>,
}

/// A `Waiting` as characters.
pub struct WaitingView {
    pub path: Seq<char>,
    pub via: Option<Seq<char>>,
    pub importer: Option<Seq<char>>,
}

impl View for Waiting {
    type V = WaitingView;

    open spec fn view(&self) -> WaitingView {
        WaitingView {
            path: self.path@,
            via: opt_text(self.via),
            importer: opt_text(self.importer),
        }
    }
}

/// The first pass over the files of a project. It decides; the caller reads
/// and parses the files it asks for and runs the resolver.
pub struct Analyzer {
    /// The graph.
    pub node_store: NodeStore,
    /// The compiled patterns of the external packages.
    pub externals: Externals,
    /// The files whose imports are being followed, the entry at the bottom.
    pub frames: Vec<Frame>,
    /// The file that the caller was asked to load, if any.
    pub waiting: Option<Waiting>,
}

/// An `Analyzer` as characters.
pub struct AnalyzerView {
    pub store: Seq<NodeView>,
    pub externals: Seq<Seq<char>>,
    pub frames: Seq<FrameView>,
    pub waiting: Option<WaitingView>,
}

impl View for Analyzer {
    type V = AnalyzerView;

    open spec fn view(&self) -> AnalyzerView {
        AnalyzerView {
            store: self.node_store@,
            externals: self.externals@,
            frames: self.frames@.map_values(|f: Frame| f@),
            waiting: match self.waiting {
                Some(w) => Some(w@),
                None => None,
            },
        }
    }
}

/// No node has an edge or a mark.
pub open spec fn unlinked(store: Seq<NodeView>) -> bool {
    forall|j: int|
        0 <= j < store.len() ==> (#[trigger] store[j]).importing.len() == 0 && !store[j].imported_i18n
}

/// The imports that wait in `frame` agree with each other and with the edges
/// of its node: a specifier leads to one file only.
pub open spec fn frame_agrees(store: Seq<NodeView>, frame: FrameView) -> bool {
    let edges = store[frame.node].importing;
    &&& forall|a: int, b: int|
        0 <= a < frame.pending.len() && 0 <= b < frame.pending.len() && (
        #[trigger] frame.pending[a]).specifier == (#[trigger] frame.pending[b]).specifier
            ==> frame.pending[a].target == frame.pending[b].target
    &&& forall|k: int, e: int|
        0 <= k < frame.pending.len() && 0 <= e < edges.len() && (#[trigger] edges[e]).specifier
            == (#[trigger] frame.pending[k]).specifier ==> edges[e].target
            == frame.pending[k].target
}

/// The file at `path` is followed from the frame `below` under the specifier
/// `via`: the import that `below` followed last has that specifier and leads
/// to that path.
pub open spec fn reached_by(below: FrameView, via: Option<Seq<char>>, path: Seq<char>) -> bool {
    match via {
        Some(specifier) => 1 <= below.next <= below.pending.len() && below.pending[below.next - 1]
            == (EdgeView { specifier, target: path }),
        None => true,
    }
}

/// The stack is in order over the graph `store`: the frames point into the
/// graph, each to a node of its own, their waiting imports agree with the
/// edges of their nodes, and each frame but the lowest was reached from the
/// one below it.
pub open spec fn frames_ok(store: Seq<NodeView>, frames: Seq<FrameView>) -> bool {
    &&& forall|f: int|
        0 <= f < frames.len() ==> 0 <= (#[trigger] frames[f]).node < store.len() && 0
            <= frames[f].next <= frames[f].pending.len()
    &&& forall|a: int, b: int|
        0 <= a < b < frames.len() ==> (#[trigger] frames[a]).node < (#[trigger] frames[b]).node
    &&& forall|f: int| 0 <= f < frames.len() ==> frame_agrees(store, #[trigger] frames[f])
    &&& forall|f: int|
        1 <= f < frames.len() ==> reached_by(
            frames[f - 1],
            (#[trigger] frames[f]).via,
            store[frames[f].node].file_path,
        )
}

impl AnalyzerView {
    /// The laws of the graph hold, the stack is in order, and the file that
    /// is waited for is new and was reached from the file on top of the stack.
    pub open spec fn wf(self) -> bool {
        &&& graph_wf(self.store)
        &&& frames_ok(self.store, self.frames)
        &&& (self.waiting matches Some(w) ==> node_index(self.store, w.path) is None && (w.via
            is Some ==> self.frames.len() > 0 && reached_by(self.frames.last(), w.via, w.path)))
    }

    /// Nothing is under way.
    pub open spec fn idle(self) -> bool {
        self.waiting is None && self.frames.len() == 0
    }
}

/// The graph after node `parent` was found to import node `child` under
/// `specifier`: the child learns of its importer, the specifier leads from
/// the parent to the child, and the parent is marked when the child exports a
/// translation primitive.
pub open spec fn linked(store: Seq<NodeView>, parent: int, specifier: Seq<char>, child: int) -> Seq<
    NodeView,
> {
    if 0 <= parent < store.len() && 0 <= child < store.len() {
        let connected = connect(store, parent, specifier, child);
        if store[child].exported_i18n {
            mark(connected, parent)
        } else {
            connected
        }
    } else {
        store
    }
}

/// The state and the answer after the caller asked for the file at `path` to
/// be analyzed, naming `importer` as a file that imports it.
///
/// * While something is under way nothing changes and the answer is `Next`.
/// * A file that is a node already only learns of the importer.
/// * A path that is not that of a script is left alone.
/// * Any other file is to be loaded.
pub open spec fn analyze_step(state: AnalyzerView, path: Seq<char>, importer: Option<Seq<char>>) -> (
    AnalyzerView,
    ActionView,
) {
    if !state.idle() {
        (state, ActionView::Next)
    } else {
        match node_index(state.store, path) {
            Some(j) => (
                AnalyzerView {
                    store: match importer {
                        Some(from) => add_importer(state.store, j, from),
                        None => state.store,
                    },
                    ..state
                },
                ActionView::Done,
            ),
            None => if is_script_path(path) {
                (
                    AnalyzerView {
                        waiting: Some(WaitingView { path, via: None, importer }),
                        ..state
                    },
                    ActionView::Load(path),
                )
            } else {
                (state, ActionView::Done)
            },
        }
    }
}

/// The node that is made for a file that was loaded.
pub open spec fn loaded_node(waiting: WaitingView, tree: SyntaxTree) -> NodeView {
    let fresh = NodeView::fresh(waiting.path, module_of(tree, waiting.path));
    match waiting.importer {
        Some(from) => fresh.with_importer(from),
        None => fresh,
    }
}

/// The answer after a step that leaves nothing to load.
pub open spec fn carry_on(frames: Seq<FrameView>) -> ActionView {
    if frames.len() > 0 {
        ActionView::Next
    } else {
        ActionView::Done
    }
}

/// The state and the answer after the caller handed in the file that was
/// waited for: `source` is its tree together with the answers of the resolver
/// to its import specifiers, or `None` when the file could not be read.
///
/// * Without a file that is waited for nothing changes.
/// * A file that could not be read, or whose tree is not in order, is left
///   out: no node is made for it and nothing leads to it.
/// * Any other file becomes a node of the graph and is walked; the imports
///   that the walk could not connect are kept to be followed.
pub open spec fn loaded_step(state: AnalyzerView, source: Option<(SyntaxTree, Seq<Resolution>)>) -> (
    AnalyzerView,
    ActionView,
) {
    match state.waiting {
        None => (state, ActionView::Next),
        Some(waiting) => {
            let skipped = (AnalyzerView { waiting: None, ..state }, carry_on(state.frames));
            match source {
                None => skipped,
                Some((tree, resolutions)) => if !tree.wf() || node_index(
                    state.store,
                    waiting.path,
                ) is Some {
                    skipped
                } else {
                    let store = state.store.push(loaded_node(waiting, tree));
                    let setting = Setting {
                        tree,
                        node: state.store.len() as int,
                        externals: state.externals,
                        resolutions,
                        exporters: exporters_of(store),
                    };
                    let pass = walk(setting, Pass { store, pending: Seq::empty() });
                    (
                        AnalyzerView {
                            store: pass.store,
                            externals: state.externals,
                            frames: state.frames.push(
                                FrameView {
                                    node: state.store.len() as int,
                                    via: waiting.via,
                                    pending: pass.pending,
                                    next: 0,
                                },
                            ),
                            waiting: None,
                        },
                        ActionView::Next,
                    )
                },
            }
        },
    }
}

/// The state and the answer after one step of following imports.
///
/// * While a file is waited for, the answer asks for it again.
/// * With no file on the stack the run is done.
/// * The next import of the file on top is followed: a target that is a node
///   is linked at once, a target that is not a script is dropped, any other
///   is to be loaded.
/// * A file on top whose imports were all followed leaves the stack and is
///   linked to the file below it.
pub open spec fn advance_step(state: AnalyzerView) -> (AnalyzerView, ActionView) {
    match state.waiting {
        Some(waiting) => (state, ActionView::Load(waiting.path)),
        None => if state.frames.len() == 0 {
            (state, ActionView::Done)
        } else {
            let top = state.frames.last();
            if 0 <= top.next < top.pending.len() {
                let edge = top.pending[top.next];
                let frames = state.frames.update(
                    state.frames.len() - 1,
                    FrameView { next: top.next + 1, ..top },
                );
                match node_index(state.store, edge.target) {
                    Some(child) => (
                        AnalyzerView {
                            store: linked(state.store, top.node, edge.specifier, child),
                            frames,
                            ..state
                        },
                        ActionView::Next,
                    ),
                    None => if is_script_path(edge.target) {
                        (
                            AnalyzerView {
                                frames,
                                waiting: Some(
                                    WaitingView {
                                        path: edge.target,
                                        via: Some(edge.specifier),
                                        importer: None,
                                    },
                                ),
                                ..state
                            },
                            ActionView::Load(edge.target),
                        )
                    } else {
                        (AnalyzerView { frames, ..state }, ActionView::Next)
                    },
                }
            } else {
                let rest = state.frames.drop_last();
                if rest.len() == 0 {
                    (AnalyzerView { frames: rest, ..state }, ActionView::Done)
                } else {
                    match top.via {
                        Some(specifier) => (
                            AnalyzerView {
                                store: linked(state.store, rest.last().node, specifier, top.node),
                                frames: rest,
                                ..state
                            },
                            ActionView::Next,
                        ),
                        None => (AnalyzerView { frames: rest, ..state }, ActionView::Next),
                    }
                }
            }
        },
    }
}

/// The node that stands for a package: it exports each member of `members[from..]`
/// on top of what `node` exports.
pub open spec fn with_members(node: NodeView, members: Seq<MemberEntry>, from: int) -> NodeView
    decreases members.len() - from,
{
    if from < 0 || from >= members.len() {
        node
    } else {
        with_members(
            node.with_export(
                members[from].name,
                Some(MemberView { kind: members[from].kind, ns: members[from].ns }),
            ),
            members,
            from + 1,
        )
    }
}

/// The node that stands for `package`.
pub open spec fn seeded_node(package: PackageView, module: crate::post_collector::ModuleView) -> NodeView {
    with_members(NodeView::fresh(package.package_path, module), package.members, 0)
}

/// The module view of a node that was never parsed.
pub open spec fn empty_module() -> crate::post_collector::ModuleView {
    crate::post_collector::ModuleView {
        locals: Seq::empty(),
        imports: Seq::empty(),
        export_values: Seq::empty(),
        export_names: Seq::empty(),
        default_export: None,
        returned_calls: Seq::empty(),
    }
}

/// The graph after the packages `from..` were seeded, one after the other.
pub open spec fn seeded_from(store: Seq<NodeView>, packages: Seq<PackageView>, from: int) -> Seq<
    NodeView,
>
    decreases packages.len() - from,
{
    if from < 0 || from >= packages.len() {
        store
    } else {
        seeded_from(
            put_node(store, seeded_node(packages[from], empty_module())),
            packages,
            from + 1,
        )
    }
}

/// A graph without edges and marks keeps the laws of the graph.
pub proof fn lemma_unlinked_graph_wf(store: Seq<NodeView>)
    requires
        unlinked(store),
        nodes_wf(store),
        paths_unique(store),
    ensures
        graph_wf(store),
{
}

/// The node that stands for a package is in order and has no edge and no mark.
pub proof fn lemma_with_members(node: NodeView, members: Seq<MemberEntry>, from: int)
    requires
        node.wf(),
        node.importing.len() == 0,
        !node.imported_i18n,
    ensures
        with_members(node, members, from).wf(),
        with_members(node, members, from).importing.len() == 0,
        !with_members(node, members, from).imported_i18n,
        with_members(node, members, from).file_path == node.file_path,
    decreases members.len() - from,
{
    if 0 <= from < members.len() {
        let member = Some(MemberView { kind: members[from].kind, ns: members[from].ns });
        crate::node::lemma_with_export_wf(node, members[from].name, member);
        lemma_with_members(node.with_export(members[from].name, member), members, from + 1);
    }
}

/// Handing in a node without edges and marks keeps a graph without edges and
/// marks in order.
pub proof fn lemma_put_node_unlinked(store: Seq<NodeView>, node: NodeView)
    requires
        unlinked(store),
        nodes_wf(store),
        paths_unique(store),
        node.wf(),
        node.importing.len() == 0,
        !node.imported_i18n,
    ensures
        unlinked(put_node(store, node)),
        nodes_wf(put_node(store, node)),
        paths_unique(put_node(store, node)),
        put_node(store, node).len() >= store.len(),
{
    let after = put_node(store, node);
    lemma_node_index_found(store, node.file_path, 0);
    match node_index(store, node.file_path) {
        Some(i) => {
            assert forall|j: int| 0 <= j < after.len() implies node_index(
                after,
                (#[trigger] after[j]).file_path,
            ) == Some(j) by {
                let path = after[j].file_path;
                assert(path == store[j].file_path);
                lemma_node_index_found(store, path, 0);
                lemma_node_index_found(after, path, 0);
                match node_index(after, path) {
                    Some(k) => {
                        if k < j {
                            assert(after[k].file_path == store[k].file_path);
                        }
                    },
                    None => {},
                }
            }
            assert forall|j: int| 0 <= j < after.len() implies (#[trigger] after[j]).wf() by {
                if j != i {
                    assert(after[j] == store[j]);
                }
            }
            assert forall|j: int| 0 <= j < after.len() implies (#[trigger] after[j]).importing.len()
                == 0 && !after[j].imported_i18n by {
                if j != i {
                    assert(after[j] == store[j]);
                }
            }
        },
        None => {
            lemma_paths_unique_push(store, node);
            assert forall|j: int| 0 <= j < after.len() implies (#[trigger] after[j]).wf() by {
                if j < store.len() {
                    assert(after[j] == store[j]);
                }
            }
            assert forall|j: int| 0 <= j < after.len() implies (#[trigger] after[j]).importing.len()
                == 0 && !after[j].imported_i18n by {
                if j < store.len() {
                    assert(after[j] == store[j]);
                }
            }
        },
    }
}

/// Seeding a graph without edges and marks gives a graph without edges and
/// marks that keeps the laws of the graph.
pub proof fn lemma_seeded(store: Seq<NodeView>, packages: Seq<PackageView>, from: int)
    requires
        unlinked(store),
        nodes_wf(store),
        paths_unique(store),
    ensures
        unlinked(seeded_from(store, packages, from)),
        nodes_wf(seeded_from(store, packages, from)),
        paths_unique(seeded_from(store, packages, from)),
        graph_wf(seeded_from(store, packages, from)),
        seeded_from(store, packages, from).len() >= store.len(),
    decreases packages.len() - from,
{
    if 0 <= from < packages.len() {
        let fresh = NodeView::fresh(packages[from].package_path, empty_module());
        assert(fresh.wf());
        lemma_with_members(fresh, packages[from].members, 0);
        let node = seeded_node(packages[from], empty_module());
        lemma_put_node_unlinked(store, node);
        lemma_seeded(put_node(store, node), packages, from + 1);
    }
    lemma_unlinked_graph_wf(seeded_from(store, packages, from));
}

/// Members whose names differ from `name` leave the export of `name` as it was.
pub proof fn lemma_with_members_keeps(
    node: NodeView,
    members: Seq<MemberEntry>,
    from: int,
    name: Seq<char>,
)
    requires
        0 <= from,
        forall|k: int| from <= k < members.len() ==> (#[trigger] members[k]).name != name,
    ensures
        export_of(with_members(node, members, from).exporting, name) == export_of(
            node.exporting,
            name,
        ),
        node.exported_i18n ==> with_members(node, members, from).exported_i18n,
    decreases members.len() - from,
{
    if from < members.len() {
        let member = Some(MemberView { kind: members[from].kind, ns: members[from].ns });
        lemma_put_export_lookup(node.exporting, members[from].name, member, name);
        lemma_with_members_keeps(
            node.with_export(members[from].name, member),
            members,
            from + 1,
            name,
        );
    }
}

/// A member that no later member shares its name with is exported by the node
/// that stands for the package, with its kind and its namespace.
pub proof fn lemma_with_members_exports(
    node: NodeView,
    members: Seq<MemberEntry>,
    from: int,
    k: int,
)
    requires
        0 <= from <= k < members.len(),
        last_named(members, k),
    ensures
        i18n_export_of(with_members(node, members, from).exporting, members[k].name) == Some(
            MemberView { kind: members[k].kind, ns: members[k].ns },
        ),
        with_members(node, members, from).exported_i18n,
    decreases members.len() - from,
{
    let member = Some(MemberView { kind: members[from].kind, ns: members[from].ns });
    let next = node.with_export(members[from].name, member);
    if from == k {
        lemma_put_export_lookup(node.exporting, members[k].name, member, members[k].name);
        lemma_with_members_keeps(next, members, from + 1, members[k].name);
    } else {
        lemma_with_members_exports(next, members, from + 1, k);
    }
}

/// The node that stands for a package which declares `declared` exports, for
/// each kind that `declared` leaves out, the preset name of that kind with
/// that kind and no namespace.
pub proof fn lemma_seeded_node_exposes_presets(
    path: Seq<char>,
    declared: Seq<MemberEntry>,
    kind: I18nType,
)
    requires
        !has_kind(declared, kind),
    ensures
        i18n_export_of(
            seeded_node(
                PackageView { package_path: path, members: supplemented(declared) },
                empty_module(),
            ).exporting,
            preset_name(kind),
        ) == Some(MemberView { kind, ns: None }),
        seeded_node(
            PackageView { package_path: path, members: supplemented(declared) },
            empty_module(),
        ).exported_i18n,
{
    let members = supplemented(declared);
    lemma_supplemented_settles(declared, kind);
    let p = choose|p: int|
        0 <= p < members.len() && #[trigger] members[p] == preset_member(kind) && last_named(
            members,
            p,
        );
    lemma_with_members_exports(NodeView::fresh(path, empty_module()), members, 0, p);
}

/// The node that stands for a package exports each member that no later
/// member of the package shares its name with, with its kind and namespace.
pub proof fn lemma_seeded_node_exposes_member(package: PackageView, k: int)
    requires
        0 <= k < package.members.len(),
        last_named(package.members, k),
    ensures
        i18n_export_of(
            seeded_node(package, empty_module()).exporting,
            package.members[k].name,
        ) == Some(MemberView { kind: package.members[k].kind, ns: package.members[k].ns }),
        seeded_node(package, empty_module()).exported_i18n,
        seeded_node(package, empty_module()).file_path == package.package_path,
{
    let fresh = NodeView::fresh(package.package_path, empty_module());
    lemma_with_members_exports(fresh, package.members, 0, k);
    assert(fresh.wf());
    lemma_with_members(fresh, package.members, 0);
}

/// After a node was handed in it is found under its path, and every node
/// under another path is found where it was, unchanged.
pub proof fn lemma_put_node_lookup(store: Seq<NodeView>, node: NodeView, other: Seq<char>)
    ensures
        node_index(put_node(store, node), node.file_path) matches Some(j) && put_node(store, node)[j]
            == node,
        other != node.file_path ==> (match node_index(store, other) {
            Some(j) => node_index(put_node(store, node), other) == Some(j) && put_node(
                store,
                node,
            )[j] == store[j],
            None => node_index(put_node(store, node), other) is None,
        }),
{
    let after = put_node(store, node);
    lemma_node_index_found(store, node.file_path, 0);
    lemma_node_index_found(after, node.file_path, 0);
    lemma_node_index_found(store, other, 0);
    lemma_node_index_found(after, other, 0);
    match node_index(store, node.file_path) {
        Some(i) => {
            assert(after[i] == node);
            assert forall|j: int| 0 <= j < after.len() && j != i implies after[j] == store[j] by {}
            match node_index(after, node.file_path) {
                Some(k) => {
                    if k < i {
                        assert(after[k] == store[k]);
                    }
                },
                None => {},
            }
            if other != node.file_path {
                match (node_index(store, other), node_index(after, other)) {
                    (Some(a), Some(b)) => {
                        assert(a != i && b != i);
                        if a < b {
                            assert(after[a] == store[a]);
                        }
                        if b < a {
                            assert(after[b] == store[b]);
                        }
                    },
                    (Some(a), None) => {
                        assert(a != i);
                        assert(after[a] == store[a]);
                    },
                    (None, Some(b)) => {
                        assert(b != i);
                        assert(after[b] == store[b]);
                    },
                    (None, None) => {},
                }
            }
        },
        None => {
            let last = store.len() as int;
            assert(after[last] == node);
            assert forall|j: int| 0 <= j < last implies after[j] == store[j] by {}
            match node_index(after, node.file_path) {
                Some(k) => {
                    if k < last {
                        assert(after[k] == store[k]);
                    }
                },
                None => {},
            }
            if other != node.file_path {
                match (node_index(store, other), node_index(after, other)) {
                    (Some(a), Some(b)) => {
                        assert(b != last);
                        if a < b {
                            assert(after[a] == store[a]);
                        }
                        if b < a {
                            assert(after[b] == store[b]);
                        }
                    },
                    (Some(a), None) => {
                        assert(after[a] == store[a]);
                    },
                    (None, Some(b)) => {
                        assert(b != last);
                        assert(after[b] == store[b]);
                    },
                    (None, None) => {},
                }
            }
        },
    }
}

/// Packages whose paths differ from `path` leave the node under `path` as it was.
pub proof fn lemma_seeded_keeps(
    store: Seq<NodeView>,
    packages: Seq<PackageView>,
    from: int,
    path: Seq<char>,
)
    requires
        0 <= from,
        forall|k: int| from <= k < packages.len() ==> (#[trigger] packages[k]).package_path != path,
        node_index(store, path) is Some,
    ensures
        node_index(seeded_from(store, packages, from), path) == node_index(store, path),
        seeded_from(store, packages, from)[node_index(store, path)->0] == store[node_index(
            store,
            path,
        )->0],
    decreases packages.len() - from,
{
    if from < packages.len() {
        let node = seeded_node(packages[from], empty_module());
        lemma_with_members(
            NodeView::fresh(packages[from].package_path, empty_module()),
            packages[from].members,
            0,
        );
        lemma_put_node_lookup(store, node, path);
        lemma_seeded_keeps(put_node(store, node), packages, from + 1, path);
    }
}

/// After seeding, the node that stands for a package is found under the path
/// of the package, provided that no later package has the same path.
pub proof fn lemma_seeded_holds(store: Seq<NodeView>, packages: Seq<PackageView>, from: int, k: int)
    requires
        0 <= from <= k < packages.len(),
        forall|later: int|
            k < later < packages.len() ==> (#[trigger] packages[later]).package_path
                != packages[k].package_path,
    ensures
        node_index(seeded_from(store, packages, from), packages[k].package_path) matches Some(j)
            && seeded_from(store, packages, from)[j] == seeded_node(packages[k], empty_module()),
    decreases packages.len() - from,
{
    let node = seeded_node(packages[from], empty_module());
    lemma_with_members(
        NodeView::fresh(packages[from].package_path, empty_module()),
        packages[from].members,
        0,
    );
    if from == k {
        lemma_put_node_lookup(store, node, packages[k].package_path);
        lemma_seeded_keeps(put_node(store, node), packages, from + 1, packages[k].package_path);
    } else {
        lemma_seeded_holds(put_node(store, node), packages, from + 1, k);
    }
}

/// After seeding, the node of a package that declares `declared` and that no
/// later package shares its path with exports, for each kind that `declared`
/// leaves out, the preset name of that kind with that kind and no namespace.
pub proof fn lemma_seed_exposes_presets(
    store: Seq<NodeView>,
    packages: Seq<PackageView>,
    k: int,
    declared: Seq<MemberEntry>,
    kind: I18nType,
)
    requires
        0 <= k < packages.len(),
        packages[k].members == supplemented(declared),
        !has_kind(declared, kind),
        forall|later: int|
            k < later < packages.len() ==> (#[trigger] packages[later]).package_path
                != packages[k].package_path,
    ensures
        node_index(seeded_from(store, packages, 0), packages[k].package_path) matches Some(j) && {
            &&& seeded_from(store, packages, 0)[j].exported_i18n
            &&& i18n_export_of(seeded_from(store, packages, 0)[j].exporting, preset_name(kind))
                == Some(MemberView { kind, ns: None })
        },
{
    lemma_seeded_holds(store, packages, 0, k);
    lemma_seeded_node_exposes_presets(packages[k].package_path, declared, kind);
    assert(packages[k] == PackageView {
        package_path: packages[k].package_path,
        members: supplemented(declared),
    });
}

/// Linking a node to a node of the graph keeps the laws of the graph, where
/// the record is safe: the child learns of its importer and the specifier
/// leads to the child.
pub proof fn lemma_linked(store: Seq<NodeView>, parent: int, specifier: Seq<char>, child: int)
    requires
        graph_wf(store),
        0 <= parent < store.len(),
        0 <= child < store.len(),
        connects_safely(store, parent, specifier, child),
    ensures
        graph_wf(linked(store, parent, specifier, child)),
        grown(store, linked(store, parent, specifier, child)),
        linked(store, parent, specifier, child).len() == store.len(),
        linked(store, parent, specifier, child)[parent].importing == put_edge(
            store[parent].importing,
            specifier,
            store[child].file_path,
        ),
        forall|n: int|
            0 <= n < store.len() && n != parent ==> (#[trigger] linked(
                store,
                parent,
                specifier,
                child,
            )[n]).importing == store[n].importing,
        forall|path: Seq<char>|
            node_index(linked(store, parent, specifier, child), path) == node_index(store, path),
{
    let connected = connect(store, parent, specifier, child);
    lemma_connect(store, parent, specifier, child);
    lemma_connect_shape(store, parent, specifier, child);
    if store[child].exported_i18n {
        lemma_mark(connected, parent);
        lemma_grown_trans(store, connected, mark(connected, parent));
    }
    lemma_paths_unique_kept(store, linked(store, parent, specifier, child));
}

/// A stack that is in order stays in order when the graph grows without the
/// edges of the nodes of the stack changing.
pub proof fn lemma_frames_ok_kept(
    before: Seq<NodeView>,
    after: Seq<NodeView>,
    frames: Seq<FrameView>,
)
    requires
        frames_ok(before, frames),
        grown(before, after),
        forall|f: int|
            0 <= f < frames.len() ==> after[(#[trigger] frames[f]).node].importing
                == before[frames[f].node].importing,
    ensures
        frames_ok(after, frames),
{
    assert forall|f: int| 0 <= f < frames.len() implies frame_agrees(after, #[trigger] frames[f]) by {
        assert(frame_agrees(before, frames[f]));
    }
    assert forall|f: int| 1 <= f < frames.len() implies reached_by(
        frames[f - 1],
        (#[trigger] frames[f]).via,
        after[frames[f].node].file_path,
    ) by {
        assert(after[frames[f].node].file_path == before[frames[f].node].file_path);
    }
}

/// A stack stays in order when the frame `at` follows the import `edge` of
/// its own, to the node `child`, and is linked to it.
pub proof fn lemma_link_keeps_frames(
    store: Seq<NodeView>,
    frames: Seq<FrameView>,
    at: int,
    edge: int,
    child: int,
)
    requires
        graph_wf(store),
        frames_ok(store, frames),
        0 <= at < frames.len(),
        0 <= edge < frames[at].pending.len(),
        0 <= child < store.len(),
        store[child].file_path == frames[at].pending[edge].target,
    ensures
        connects_safely(store, frames[at].node, frames[at].pending[edge].specifier, child),
        frames_ok(
            linked(store, frames[at].node, frames[at].pending[edge].specifier, child),
            frames,
        ),
{
    let frame = frames[at];
    let parent = frame.node;
    let specifier = frame.pending[edge].specifier;
    let target = frame.pending[edge].target;
    let edges = store[parent].importing;
    assert(frame_agrees(store, frame));
    lemma_edge_index_found(edges, specifier, edges.len() as int);
    lemma_linked(store, parent, specifier, child);
    let after = linked(store, parent, specifier, child);
    let put = put_edge(edges, specifier, target);
    assert(after[parent].importing == put);
    assert forall|f: int| 0 <= f < frames.len() implies frame_agrees(after, #[trigger] frames[f]) by {
        assert(frame_agrees(store, frames[f]));
        if frames[f].node == parent {
            assert(f == at);
            assert forall|k: int, e: int|
                0 <= k < frame.pending.len() && 0 <= e < put.len() && (#[trigger] put[e]).specifier
                    == (#[trigger] frame.pending[k]).specifier implies put[e].target
                == frame.pending[k].target by {
                if e < edges.len() && put[e] == edges[e] {
                } else {
                    assert(put[e] == EdgeView { specifier, target });
                    assert(frame.pending[k].specifier == frame.pending[edge].specifier);
                }
            }
        } else {
            assert(after[frames[f].node].importing == store[frames[f].node].importing);
        }
    }
    assert forall|f: int| 1 <= f < frames.len() implies reached_by(
        frames[f - 1],
        (#[trigger] frames[f]).via,
        after[frames[f].node].file_path,
    ) by {
        assert(after[frames[f].node].file_path == store[frames[f].node].file_path);
    }
}

/// A stack that is in order stays in order when its top frame goes on to its
/// next import, and when its top frame leaves.
pub proof fn lemma_frames_ok_moves(store: Seq<NodeView>, frames: Seq<FrameView>)
    requires
        frames_ok(store, frames),
        frames.len() > 0,
    ensures
        frames_ok(store, frames.drop_last()),
        frames.last().next < frames.last().pending.len() ==> frames_ok(
            store,
            frames.update(
                frames.len() - 1,
                FrameView { next: frames.last().next + 1, ..frames.last() },
            ),
        ),
{
    let rest = frames.drop_last();
    assert forall|f: int| 0 <= f < rest.len() implies frame_agrees(store, #[trigger] rest[f]) by {
        assert(rest[f] == frames[f]);
    }
    assert forall|f: int| 1 <= f < rest.len() implies reached_by(
        rest[f - 1],
        (#[trigger] rest[f]).via,
        store[rest[f].node].file_path,
    ) by {
        assert(rest[f] == frames[f]);
        assert(rest[f - 1] == frames[f - 1]);
    }
    assert forall|a: int, b: int| 0 <= a < b < rest.len() implies (#[trigger] rest[a]).node < (
    #[trigger] rest[b]).node by {
        assert(rest[a] == frames[a]);
        assert(rest[b] == frames[b]);
    }
    if frames.last().next < frames.last().pending.len() {
        let last = frames.len() - 1;
        let moved = frames.update(last, FrameView { next: frames.last().next + 1, ..frames.last() });
        assert forall|f: int| 0 <= f < moved.len() implies frame_agrees(
            store,
            #[trigger] moved[f],
        ) by {
            assert(frame_agrees(store, frames[f]));
        }
        assert forall|f: int| 1 <= f < moved.len() implies reached_by(
            moved[f - 1],
            (#[trigger] moved[f]).via,
            store[moved[f].node].file_path,
        ) by {
            assert(moved[f - 1] == frames[f - 1]);
            assert(reached_by(frames[f - 1], frames[f].via, store[frames[f].node].file_path));
        }
        assert forall|a: int, b: int| 0 <= a < b < moved.len() implies (#[trigger] moved[a]).node
            < (#[trigger] moved[b]).node by {
            assert(moved[a].node == frames[a].node);
            assert(moved[b].node == frames[b].node);
        }
    }
}

/// A frame whose waiting imports and whose node's edges both agree with the
/// answers of the resolver agrees with itself.
pub proof fn lemma_frame_agrees(store: Seq<NodeView>, frame: FrameView, resolutions: Seq<Resolution>)
    requires
        answers_agree(store[frame.node].importing, resolutions),
        answers_agree(frame.pending, resolutions),
    ensures
        frame_agrees(store, frame),
{
}

/// A stack stays in order when a file that was loaded becomes a node at the
/// end of the graph and its frame goes on top.
pub proof fn lemma_enter_keeps(
    before: Seq<NodeView>,
    after: Seq<NodeView>,
    frames: Seq<FrameView>,
    frame: FrameView,
)
    requires
        frames_ok(before, frames),
        grown(before, after),
        forall|n: int|
            0 <= n < before.len() ==> (#[trigger] after[n]).importing == before[n].importing,
        frame.node == before.len(),
        frame.node < after.len(),
        frame.next == 0,
        frame_agrees(after, frame),
        frames.len() > 0 ==> reached_by(frames.last(), frame.via, after[frame.node].file_path),
    ensures
        frames_ok(after, frames.push(frame)),
{
    let pushed = frames.push(frame);
    assert forall|f: int| 0 <= f < frames.len() implies after[(#[trigger] frames[f]).node].importing
        == before[frames[f].node].importing by {}
    lemma_frames_ok_kept(before, after, frames);
    assert forall|f: int| 0 <= f < pushed.len() implies frame_agrees(after, #[trigger] pushed[f]) by {
        if f < frames.len() {
            assert(pushed[f] == frames[f]);
        }
    }
    assert forall|f: int| 1 <= f < pushed.len() implies reached_by(
        pushed[f - 1],
        (#[trigger] pushed[f]).via,
        after[pushed[f].node].file_path,
    ) by {
        assert(pushed[f - 1] == frames[f - 1]);
        if f < frames.len() {
            assert(pushed[f] == frames[f]);
        }
    }
    assert forall|a: int, b: int| 0 <= a < b < pushed.len() implies (#[trigger] pushed[a]).node
        < (#[trigger] pushed[b]).node by {
        assert(pushed[a] == frames[a]);
        if b < frames.len() {
            assert(pushed[b] == frames[b]);
        }
    }
    assert forall|f: int| 0 <= f < pushed.len() implies 0 <= (#[trigger] pushed[f]).node
        < after.len() && 0 <= pushed[f].next <= pushed[f].pending.len() by {
        if f < frames.len() {
            assert(pushed[f] == frames[f]);
        }
    }
}

/// One step of following imports keeps the laws of the analyzer, and the
/// graph only grows.
pub proof fn lemma_advance_wf(state: AnalyzerView)
    requires
        state.wf(),
    ensures
        advance_step(state).0.wf(),
        grown(state.store, advance_step(state).0.store),
{
    let after = advance_step(state).0;
    lemma_grown_refl(state.store);
    if state.waiting is None && state.frames.len() > 0 {
        let top = state.frames.last();
        let last = state.frames.len() - 1;
        lemma_frames_ok_moves(state.store, state.frames);
        if 0 <= top.next < top.pending.len() {
            let edge = top.pending[top.next];
            let moved = state.frames.update(last, FrameView { next: top.next + 1, ..top });
            lemma_node_index_found(state.store, edge.target, 0);
            match node_index(state.store, edge.target) {
                Some(child) => {
                    lemma_link_keeps_frames(state.store, moved, last, top.next, child);
                    lemma_linked(state.store, top.node, edge.specifier, child);
                },
                None => {
                    if is_script_path(edge.target) {
                        assert(reached_by(moved.last(), Some(edge.specifier), edge.target));
                    }
                },
            }
        } else {
            let rest = state.frames.drop_last();
            if rest.len() > 0 {
                match top.via {
                    Some(specifier) => {
                        let below = rest.len() - 1;
                        assert(rest[below] == state.frames[below]);
                        assert(reached_by(
                            state.frames[last - 1],
                            state.frames[last].via,
                            state.store[state.frames[last].node].file_path,
                        ));
                        lemma_link_keeps_frames(
                            state.store,
                            rest,
                            below,
                            rest[below].next - 1,
                            top.node,
                        );
                        lemma_linked(state.store, rest[below].node, specifier, top.node);
                    },
                    None => {},
                }
            }
        }
    }
}

impl Analyzer {
    /// The laws that hold of an analyzer between any two steps.
    pub open spec fn wf(&self) -> bool {
        self@.wf()
    }

    /// An analyzer over the graph `all_nodes` with the external package
    /// sources `externals`. Each source is compiled into an expression that
    /// matches the source itself or a path below it; the first one that is not
    /// a valid expression is the error.
    pub fn new(all_nodes: NodeStore, externals: &Vec<String>) -> (analyzer: Result<Analyzer, ScanError>)
        ensures
            match analyzer {
                Ok(made) => {
                    &&& first_invalid_from(externals.deep_view(), 0) is None
                    &&& made.node_store == all_nodes
                    &&& made@.externals == external_patterns(externals.deep_view())
                    &&& made@.idle()
                    &&& (made.wf() <==> graph_wf(all_nodes@))
                },
                Err(error) => error matches ScanError::InvalidExternal(at) && first_invalid_from(
                    externals.deep_view(),
                    0,
                ) == Some(at as int),
            },
    {
        match compile_externals(externals) {
            Ok(compiled) => {
                let made = Analyzer {
                    node_store: all_nodes,
                    externals: compiled,
                    frames: Vec::new(),
                    waiting: None,
                };
                assert(made@.frames =~= Seq::empty());
                Ok(made)
            },
            Err(at) => Err(ScanError::InvalidExternal(at)),
        }
    }

    /// Whether nothing is under way.
    pub fn is_idle(&self) -> (idle: bool)
        ensures
            idle == self@.idle(),
    {
        self.waiting.is_none() && self.frames.len() == 0
    }

    /// Seeds the graph with a node for each of `packages`, which exports the
    /// members of the package as translation primitives.
    pub fn seed(&mut self, packages: &Vec<I18nPackage>)
        ensures
            final(self)@ == (AnalyzerView {
                store: seeded_from(old(self)@.store, packages_view(packages@), 0),
                ..old(self)@
            }),
            old(self).wf() && old(self)@.idle() && unlinked(old(self)@.store) ==> final(self).wf()
                && unlinked(final(self)@.store),
    {
        proof {
            if self.wf() && unlinked(self@.store) {
                lemma_seeded(self@.store, packages_view(packages@), 0);
            }
        }
        let ghost views = packages_view(packages@);
        let ghost start = self@;
        let mut i: usize = 0;
        while i < packages.len()
            invariant
                i <= packages.len(),
                views == packages_view(packages@),
                self@.externals == start.externals,
                self@.frames == start.frames,
                self@.waiting == start.waiting,
                seeded_from(self@.store, views, i as int) == seeded_from(start.store, views, 0),
            decreases packages.len() - i,
        {
            assert(views[i as int] == packages[i as int]@);
            let package = &packages[i];
            let mut node = Node::new(package.package_path.clone());
            let ghost fresh = node@;
            assert(node@.module =~= empty_module()) by {
                assert(node@.module.locals =~= Seq::empty());
                assert(node@.module.imports =~= Seq::empty());
                assert(node@.module.export_values =~= Seq::empty());
                assert(node@.module.export_names =~= Seq::empty());
                assert(node@.module.returned_calls =~= Seq::empty());
            }
            let ghost members = views[i as int].members;
            let mut k: usize = 0;
            while k < package.members.len()
                invariant
                    k <= package.members.len(),
                    members == crate::i18n_packages::members_view(package.members@),
                    with_members(node@, members, k as int) == with_members(fresh, members, 0),
                decreases package.members.len() - k,
            {
                assert(members[k as int] == package.members[k as int]@);
                let member = &package.members[k];
                node.insert_exporting(
                    member.name.clone(),
                    Some(I18nMember { kind: member.kind, ns: clone_opt_text(&member.ns) }),
                );
                k += 1;
            }
            self.node_store.insert_node(node);
            i += 1;
        }
    }

    fn link(&mut self, parent: usize, specifier: String, child: usize)
        ensures
            final(self).node_store@ == linked(
                old(self).node_store@,
                parent as int,
                specifier@,
                child as int,
            ),
            final(self).externals == old(self).externals,
            final(self).frames == old(self).frames,
            final(self).waiting == old(self).waiting,
    {
        if parent < self.node_store.nodes.len() && child < self.node_store.nodes.len() {
            assert(self.node_store@[child as int] == self.node_store.nodes[child as int]@);
            let exported = self.node_store.nodes[child].has_exported_i18n_methods();
            self.node_store.connect(parent, specifier, child);
            assert(self.node_store@.len() == self.node_store.nodes.len());
            if exported {
                self.node_store.mark_has_i18n_source_imported(parent);
            }
        }
    }

    /// Asks for the file at `file_path` to be analyzed; `imports_path` names a
    /// file that imports it.
    pub fn analyze(&mut self, file_path: String, imports_path: Option<String>) -> (action: Action)
        ensures
            (final(self)@, action@) == analyze_step(old(self)@, file_path@, opt_text(imports_path)),
            old(self).wf() ==> final(self).wf() && grown(
                old(self).node_store@,
                final(self).node_store@,
            ),
    {
        if !self.is_idle() {
            proof {
                lemma_grown_refl(self.node_store@);
            }
            return Action::Next;
        }
        assert(self@.frames =~= Seq::empty());
        match self.node_store.index_of(file_path.as_str()) {
            Some(j) => {
                match imports_path {
                    Some(from) => {
                        proof {
                            if old(self).wf() {
                                lemma_add_importer(self.node_store@, j as int, from@);
                            }
                        }
                        self.node_store.insert_imports(j, from);
                    },
                    None => {
                        proof {
                            lemma_grown_refl(self.node_store@);
                        }
                    },
                }
                Action::Done
            },
            None => {
                proof {
                    lemma_grown_refl(self.node_store@);
                }
                if script_path(file_path.as_str()) {
                    let asked = file_path.clone();
                    self.waiting = Some(Waiting { path: file_path, via: None, importer: imports_path });
                    Action::Load(asked)
                } else {
                    Action::Done
                }
            },
        }
    }

    /// Takes the file that was waited for: its tree together with the answers
    /// of the resolver to its import specifiers, or `None` when it could not
    /// be read.
    pub fn loaded(&mut self, source: Option<(&SyntaxTree, &Vec<Resolution>)>) -> (action: Action)
        ensures
            (final(self)@, action@) == loaded_step(
                old(self)@,
                match source {
                    Some((tree, resolutions)) => Some((*tree, resolutions@)),
                    None => None,
                },
            ),
            old(self).wf() ==> final(self).wf() && grown(
                old(self).node_store@,
                final(self).node_store@,
            ),
            final(self)@.frames.len() > old(self)@.frames.len() ==> old(self)@.waiting is Some
                && node_index(final(self).node_store@, old(self)@.waiting->0.path) is Some,
    {
        let ghost before = self@;
        let mut taken: Option<Waiting> = None;
        core::mem::swap(&mut self.waiting, &mut taken);
        let waiting = match taken {
            Some(waiting) => waiting,
            None => {
                proof {
                    lemma_grown_refl(self.node_store@);
                }
                return Action::Next;
            },
        };
        let carry_on = if self.frames.len() > 0 {
            Action::Next
        } else {
            Action::Done
        };
        let (tree, resolutions) = match source {
            Some(pair) => pair,
            None => {
                proof {
                    lemma_grown_refl(self.node_store@);
                }
                return carry_on;
            },
        };
        if !tree.is_wf() || self.node_store.index_of(waiting.path.as_str()).is_some() {
            proof {
                lemma_grown_refl(self.node_store@);
            }
            return carry_on;
        }
        let mut node = Node::new(waiting.path.clone());
        node.module = ModuleInfo::from_tree(tree, waiting.path.as_str());
        match waiting.importer {
            Some(from) => {
                node.insert_imports(from);
            },
            None => {},
        }
        assert(node@ == loaded_node(waiting@, *tree));
        let at = self.node_store.nodes.len();
        let ghost fresh = node@;
        self.node_store.nodes.push(node);
        assert(self.node_store@ =~= before.store.push(fresh));
        let ghost pushed = self.node_store@;
        proof {
            if before.wf() {
                assert(fresh.wf());
                lemma_push(before.store, fresh);
            }
            assert(grown(before.store, pushed));
            lemma_paths_unique_push(before.store, fresh);
            assert(pushed[at as int].importing =~= Seq::empty());
        }
        let mut walker = Walker::new(at, tree, &self.externals, resolutions, &self.node_store);
        assert(edges_view(walker.importing_collection@) =~= Seq::empty());
        walker.walk(&mut self.node_store);
        let frame = Frame { node: at, via: waiting.via, pending: walker.importing_collection, next: 0 };
        proof {
            lemma_grown_trans(before.store, pushed, self.node_store@);
            crate::node_store::lemma_node_index_grown(pushed, self.node_store@, fresh.file_path);
            if before.wf() {
                let after = self.node_store@;
                assert(after[at as int].file_path == waiting.path@);
                assert forall|n: int| 0 <= n < before.store.len() implies (#[trigger] after[n]).importing
                    == before.store[n].importing by {
                    assert(pushed[n] == before.store[n]);
                }
                lemma_frame_agrees(after, frame@, resolutions@);
                lemma_enter_keeps(before.store, after, before.frames, frame@);
            }
        }
        let ghost frames = self@.frames;
        self.frames.push(frame);
        assert(self@.frames =~= frames.push(frame@));
        Action::Next
    }

    /// Does one step of following imports.
    pub fn advance(&mut self) -> (action: Action)
        ensures
            (final(self)@, action@) == advance_step(old(self)@),
            old(self).wf() ==> final(self).wf() && grown(
                old(self).node_store@,
                final(self).node_store@,
            ),
    {
        let ghost before = self@;
        proof {
            lemma_grown_refl(self.node_store@);
            if before.wf() {
                lemma_advance_wf(before);
            }
        }
        match &self.waiting {
            Some(waiting) => {
                return Action::Load(waiting.path.clone());
            },
            None => {},
        }
        let depth = self.frames.len();
        if depth == 0 {
            return Action::Done;
        }
        let last = depth - 1;
        assert(before.frames[last as int] == self.frames[last as int]@);
        assert(before.frames.last() == self.frames[last as int]@);
        if self.frames[last].next < self.frames[last].pending.len() {
            let next = self.frames[last].next;
            let parent = self.frames[last].node;
            let specifier = self.frames[last].pending[next].specifier.clone();
            let target = self.frames[last].pending[next].target.clone();
            assert(before.frames[last as int].pending[next as int]
                == self.frames[last as int].pending[next as int]@);
            self.frames[last].next = next + 1;
            assert(self@.frames =~= before.frames.update(
                last as int,
                FrameView { next: next + 1, ..before.frames[last as int] },
            ));
            let ghost stepped = self@;
            match self.node_store.index_of(target.as_str()) {
                Some(child) => {
                    self.link(parent, specifier, child);
                    Action::Next
                },
                None => {
                    if script_path(target.as_str()) {
                        let asked = target.clone();
                        self.waiting = Some(
                            Waiting { path: target, via: Some(specifier), importer: None },
                        );
                        Action::Load(asked)
                    } else {
                        Action::Next
                    }
                },
            }
        } else {
            let top = match self.frames.pop() {
                Some(frame) => frame,
                None => {
                    return Action::Done;
                },
            };
            assert(self@.frames =~= before.frames.drop_last());
            if self.frames.len() == 0 {
                return Action::Done;
            }
            let below = self.frames.len() - 1;
            assert(before.frames[below as int] == self.frames[below as int]@);
            let parent = self.frames[below].node;
            match top.via {
                Some(specifier) => {
                    self.link(parent, specifier, top.node);
                },
                None => {},
            }
            Action::Next
        }
    }
}

/// How much is left to follow: the imports that wait on the stack, and the
/// files of the stack themselves.
pub open spec fn remaining(frames: Seq<FrameView>) -> int
    decreases frames.len(),
{
    if frames.len() == 0 {
        0
    } else {
        remaining(frames.drop_last()) + (frames.last().pending.len() - frames.last().next) + 1
    }
}

/// A step that neither asks for a file nor ends the run leaves less to
/// follow, so between two files that are asked for there are only finitely
/// many steps. A step that ends the run leaves nothing on the stack.
pub proof fn lemma_advance_leaves_less(state: AnalyzerView)
    requires
        state.wf(),
        state.waiting is None,
    ensures
        advance_step(state).1 is Next ==> 0 <= remaining(advance_step(state).0.frames) < remaining(
            state.frames,
        ) && advance_step(state).0.waiting is None,
        advance_step(state).1 is Load ==> advance_step(state).0.waiting is Some && 0 <= remaining(
            advance_step(state).0.frames,
        ) < remaining(state.frames),
        advance_step(state).1 is Done ==> advance_step(state).0.frames.len() == 0,
{
    let after = advance_step(state).0;
    if state.frames.len() > 0 {
        let top = state.frames.last();
        let rest = state.frames.drop_last();
        lemma_remaining_bounds(rest);
        if 0 <= top.next < top.pending.len() {
            let frames = state.frames.update(
                state.frames.len() - 1,
                FrameView { next: top.next + 1, ..top },
            );
            assert(frames.drop_last() =~= rest);
            assert(after.frames == frames);
        } else {
            assert(after.frames == rest);
        }
    }
}

/// What is left to follow is never negative when the frames are in order.
pub proof fn lemma_remaining_bounds(frames: Seq<FrameView>)
    requires
        forall|f: int| 0 <= f < frames.len() ==> 0 <= (#[trigger] frames[f]).next <= frames[f].pending.len(),
    ensures
        remaining(frames) >= 0,
    decreases frames.len(),
{
    if frames.len() > 0 {
        assert forall|f: int| 0 <= f < frames.drop_last().len() implies 0 <= (
        #[trigger] frames.drop_last()[f]).next <= frames.drop_last()[f].pending.len() by {
            assert(frames.drop_last()[f] == frames[f]);
        }
        lemma_remaining_bounds(frames.drop_last());
    }
}

/// A graph has grown into itself.
pub proof fn lemma_grown_refl(store: Seq<NodeView>)
    ensures
        grown(store, store),
{
}

} // verus!
