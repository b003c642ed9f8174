//! The collection of all nodes of one run, keyed by path, and the laws that
//! hold between its nodes while the graph grows.

use crate::node::{
    edge_index, edge_target, export_index, export_of, lemma_edge_index_found,
    lemma_export_index_found, lemma_put_edge_lookup, lemma_with_edge_wf, put_edge, EdgeView,
    ExportView, Node, NodeView,
};
use crate::text::text_eq;
use vstd::prelude::*;

verus! {

/// The nodes of one run. A node is found by its path; it keeps its place for
/// the whole run.
pub struct NodeStore {
    pub nodes: Vec<Node>,
}

impl View for NodeStore {
    type V = Seq<NodeView>;

    open spec fn view(&self) -> Seq<NodeView> {
        self.nodes@.map_values(|n: Node| n@)
    }
}

/// The first node of `store[from..]` with the path `path`.
pub open spec fn node_index_from(store: Seq<NodeView>, path: Seq<char>, from: int) -> Option<int>
    decreases store.len() - from,
{
    if from < 0 || from >= store.len() {
        None
    } else if store[from].file_path == path {
        Some(from)
    } else {
        node_index_from(store, path, from + 1)
    }
}

/// The place of the node with the path `path`.
pub open spec fn node_index(store: Seq<NodeView>, path: Seq<char>) -> Option<int> {
    node_index_from(store, path, 0)
}

/// The node that `specifier` leads to from node `from`.
pub open spec fn importing_index(store: Seq<NodeView>, from: int, specifier: Seq<char>) -> Option<
    int,
> {
    match edge_target(store[from].importing, specifier) {
        Some(path) => node_index(store, path),
        None => None,
    }
}

/// `store` with `importer` added to the importers of node `j`.
pub open spec fn add_importer(store: Seq<NodeView>, j: int, importer: Seq<char>) -> Seq<NodeView> {
    store.update(j, store[j].with_importer(importer))
}

/// `store` with the edge `specifier -> target` added to node `i`.
pub open spec fn add_edge(store: Seq<NodeView>, i: int, specifier: Seq<char>, target: Seq<char>) -> Seq<
    NodeView,
> {
    store.update(i, store[i].with_edge(specifier, target))
}

/// `store` after node `i` was recorded as importing node `j` under
/// `specifier`: node `j` has node `i` among its importers, and the specifier
/// leads to node `j`, wherever it led before.
pub open spec fn connect(store: Seq<NodeView>, i: int, specifier: Seq<char>, j: int) -> Seq<NodeView> {
    add_edge(add_importer(store, j, store[i].file_path), i, specifier, store[j].file_path)
}

/// Whether `specifier` leads from node `i` to node `j`.
pub open spec fn leads_to(store: Seq<NodeView>, i: int, specifier: Seq<char>, j: int) -> bool {
    edge_target(store[i].importing, specifier) == Some(store[j].file_path)
}

/// `store` with node `i` marked as importing a translation primitive.
pub open spec fn mark(store: Seq<NodeView>, i: int) -> Seq<NodeView> {
    store.update(i, store[i].marked())
}

/// `store` after a node was handed in: it takes the place of the node with its
/// path, or a new place at the end.
pub open spec fn put_node(store: Seq<NodeView>, node: NodeView) -> Seq<NodeView> {
    match node_index(store, node.file_path) {
        Some(i) => store.update(i, node),
        None => store.push(node),
    }
}

/// Whether a node passes the filter: `imported` asks for the import mark,
/// `exported` for the export flag.
pub open spec fn passes(node: NodeView, imported: bool, exported: bool) -> bool {
    (imported ==> node.imported_i18n) && (exported ==> node.exported_i18n)
}

/// The paths of the nodes of `store[from..]` that pass the filter, in order.
pub open spec fn paths_from(store: Seq<NodeView>, imported: bool, exported: bool, from: int) -> Seq<
    Seq<char>,
>
    decreases store.len() - from,
{
    if from < 0 || from >= store.len() {
        Seq::empty()
    } else if passes(store[from], imported, exported) {
        seq![store[from].file_path] + paths_from(store, imported, exported, from + 1)
    } else {
        paths_from(store, imported, exported, from + 1)
    }
}

/// The paths of all nodes, in order.
pub open spec fn all_paths(store: Seq<NodeView>) -> Seq<Seq<char>> {
    paths_from(store, false, false, 0)
}

/// The paths of the nodes that export a translation primitive, in order.
pub open spec fn exporter_paths(store: Seq<NodeView>) -> Seq<Seq<char>> {
    paths_from(store, false, true, 0)
}

/// The paths of the nodes that import a translation primitive, in order.
pub open spec fn importer_paths(store: Seq<NodeView>) -> Seq<Seq<char>> {
    paths_from(store, true, false, 0)
}

/// Edge `k` of node `i` leads to a node of the store that lists node `i` among its importers.
pub open spec fn edge_closed(store: Seq<NodeView>, i: int, k: int) -> bool {
    match node_index(store, store[i].importing[k].target) {
        Some(j) => store[j].imports.contains(store[i].file_path),
        None => false,
    }
}

/// Every recorded edge leads to a node of the store that lists the source among its importers.
pub open spec fn edges_closed(store: Seq<NodeView>) -> bool {
    forall|i: int, k: int|
        0 <= i < store.len() && 0 <= k < store[i].importing.len() ==> #[trigger] edge_closed(
            store,
            i,
            k,
        )
}

/// Edge `k` of node `i` leads to a node that exports a translation primitive.
pub open spec fn edge_to_exporter(store: Seq<NodeView>, i: int, k: int) -> bool {
    &&& 0 <= k < store[i].importing.len()
    &&& match node_index(store, store[i].importing[k].target) {
        Some(j) => store[j].exported_i18n,
        None => false,
    }
}

/// Node `i` has an edge to a node that exports a translation primitive.
pub open spec fn imports_exporter(store: Seq<NodeView>, i: int) -> bool {
    exists|k: int| edge_to_exporter(store, i, k)
}

/// Every node marked as importing a translation primitive has an edge to a
/// node that exports one.
pub open spec fn marks_justified(store: Seq<NodeView>) -> bool {
    forall|i: int|
        0 <= i < store.len() && (#[trigger] store[i]).imported_i18n ==> imports_exporter(store, i)
}

/// Every node is found under its own path: the store holds one node for each path.
pub open spec fn paths_unique(store: Seq<NodeView>) -> bool {
    forall|j: int| 0 <= j < store.len() ==> node_index(store, (#[trigger] store[j]).file_path) == Some(j)
}

/// Every node is in order.
pub open spec fn nodes_wf(store: Seq<NodeView>) -> bool {
    forall|j: int| 0 <= j < store.len() ==> (#[trigger] store[j]).wf()
}

/// The store is in order: it holds one node for each path, and each node
/// exports each name once and has one edge for each specifier.
pub open spec fn store_wf(store: Seq<NodeView>) -> bool {
    nodes_wf(store) && paths_unique(store)
}

/// The store is in order and every recorded edge is closed.
pub open spec fn links_wf(store: Seq<NodeView>) -> bool {
    store_wf(store) && edges_closed(store)
}

/// `store` after each of `nodes[from..]` was handed in, one after the other.
pub open spec fn put_all(store: Seq<NodeView>, nodes: Seq<NodeView>, from: int) -> Seq<NodeView>
    decreases nodes.len() - from,
{
    if from < 0 || from >= nodes.len() {
        store
    } else {
        put_all(put_node(store, nodes[from]), nodes, from + 1)
    }
}

/// The laws of the graph: each node is in order and has a path of its own,
/// every edge is closed and every mark justified.
pub open spec fn graph_wf(store: Seq<NodeView>) -> bool {
    &&& forall|i: int| 0 <= i < store.len() ==> (#[trigger] store[i]).wf()
    &&& paths_unique(store)
    &&& edges_closed(store)
    &&& marks_justified(store)
}

/// `after` has at each place of `before` an edge of the same specifier.
pub open spec fn same_specifiers(before: Seq<EdgeView>, after: Seq<EdgeView>) -> bool {
    &&& before.len() <= after.len()
    &&& forall|k: int| 0 <= k < before.len() ==> (#[trigger] after[k]).specifier == before[k].specifier
}

/// `after` has at each place of `before` an export of the same name.
pub open spec fn same_names(before: Seq<ExportView>, after: Seq<ExportView>) -> bool {
    &&& before.len() <= after.len()
    &&& forall|k: int| 0 <= k < before.len() ==> (#[trigger] after[k]).name == before[k].name
}

/// `after` comes from `before` by adding nodes, importers, edges, exports and
/// flags: no node changed its path or lost an importer, every specifier that
/// led somewhere still leads somewhere, every name that was exported is still
/// exported, and no flag was cleared.
pub open spec fn grown(before: Seq<NodeView>, after: Seq<NodeView>) -> bool {
    &&& before.len() <= after.len()
    &&& forall|i: int|
        0 <= i < before.len() ==> {
            &&& (#[trigger] after[i]).file_path == before[i].file_path
            &&& before[i].imports.is_prefix_of(after[i].imports)
            &&& same_specifiers(before[i].importing, after[i].importing)
            &&& same_names(before[i].exporting, after[i].exporting)
            &&& (before[i].exported_i18n ==> after[i].exported_i18n)
            &&& (before[i].imported_i18n ==> after[i].imported_i18n)
        }
}

/// What `node_index_from` finds is the first node of that path at or after `from`.
pub proof fn lemma_node_index_found(store: Seq<NodeView>, path: Seq<char>, from: int)
    requires
        0 <= from,
    ensures
        match node_index_from(store, path, from) {
            Some(i) => {
                &&& from <= i < store.len()
                &&& store[i].file_path == path
                &&& forall|j: int| from <= j < i ==> (#[trigger] store[j]).file_path != path
            },
            None => forall|j: int| from <= j < store.len() ==> (#[trigger] store[j]).file_path != path,
        },
    decreases store.len() - from,
{
    if from < store.len() && store[from].file_path != path {
        lemma_node_index_found(store, path, from + 1);
    }
}

/// A path that is found in a store is found at the same place after the store has grown.
pub proof fn lemma_node_index_grown(before: Seq<NodeView>, after: Seq<NodeView>, path: Seq<char>)
    requires
        grown(before, after),
        node_index(before, path) is Some,
    ensures
        node_index(after, path) == node_index(before, path),
{
    lemma_node_index_found(before, path, 0);
    lemma_node_index_found(after, path, 0);
    let i = node_index(before, path)->0;
    assert(after[i].file_path == path);
    match node_index(after, path) {
        Some(j) => {
            if j < i {
                assert(after[j].file_path == before[j].file_path);
            }
        },
        None => {},
    }
}

/// Growth is transitive.
pub proof fn lemma_grown_trans(a: Seq<NodeView>, b: Seq<NodeView>, c: Seq<NodeView>)
    requires
        grown(a, b),
        grown(b, c),
    ensures
        grown(a, c),
{
    assert forall|i: int| 0 <= i < a.len() implies {
        &&& (#[trigger] c[i]).file_path == a[i].file_path
        &&& a[i].imports.is_prefix_of(c[i].imports)
        &&& same_specifiers(a[i].importing, c[i].importing)
        &&& same_names(a[i].exporting, c[i].exporting)
        &&& (a[i].exported_i18n ==> c[i].exported_i18n)
        &&& (a[i].imported_i18n ==> c[i].imported_i18n)
    } by {
        assert(b[i].file_path == a[i].file_path);
        assert(c[i].file_path == b[i].file_path);
        assert forall|k: int| 0 <= k < a[i].importing.len() implies (
        #[trigger] c[i].importing[k]).specifier == a[i].importing[k].specifier by {
            assert(b[i].importing[k].specifier == a[i].importing[k].specifier);
        }
        assert forall|k: int| 0 <= k < a[i].exporting.len() implies (
        #[trigger] c[i].exporting[k]).name == a[i].exporting[k].name by {
            assert(b[i].exporting[k].name == a[i].exporting[k].name);
        }
    }
}

/// In a graph that has grown, a specifier that led somewhere still leads
/// somewhere, and a name that was exported is still exported.
pub proof fn lemma_grown_keeps_entries(
    before: Seq<NodeView>,
    after: Seq<NodeView>,
    i: int,
    text: Seq<char>,
)
    requires
        grown(before, after),
        0 <= i < before.len(),
    ensures
        edge_target(before[i].importing, text) is Some ==> edge_target(after[i].importing, text)
            is Some,
        export_of(before[i].exporting, text) is Some ==> export_of(after[i].exporting, text)
            is Some,
{
    assert(after[i].file_path == before[i].file_path);
    lemma_edge_index_found(before[i].importing, text, before[i].importing.len() as int);
    lemma_edge_index_found(after[i].importing, text, after[i].importing.len() as int);
    if edge_target(before[i].importing, text) is Some {
        let k = edge_index(before[i].importing, text)->0;
        assert(after[i].importing[k].specifier == text);
    }
    lemma_export_index_found(before[i].exporting, text, 0);
    lemma_export_index_found(after[i].exporting, text, 0);
    if export_of(before[i].exporting, text) is Some {
        let k = export_index(before[i].exporting, text)->0;
        assert(after[i].exporting[k].name == text);
    }
}

/// A store of the same length that has grown holds every path where it was.
pub proof fn lemma_paths_unique_kept(before: Seq<NodeView>, after: Seq<NodeView>)
    requires
        paths_unique(before),
        grown(before, after),
        after.len() == before.len(),
    ensures
        paths_unique(after),
        forall|path: Seq<char>| node_index(after, path) == node_index(before, path),
{
    assert forall|path: Seq<char>| node_index(after, path) == node_index(before, path) by {
        lemma_node_index_found(before, path, 0);
        lemma_node_index_found(after, path, 0);
        match node_index(before, path) {
            Some(i) => {
                assert(after[i].file_path == before[i].file_path);
                match node_index(after, path) {
                    Some(j) => {
                        if j < i {
                            assert(after[j].file_path == before[j].file_path);
                        }
                    },
                    None => {},
                }
            },
            None => {
                match node_index(after, path) {
                    Some(j) => {
                        assert(after[j].file_path == before[j].file_path);
                    },
                    None => {},
                }
            },
        }
    }
    assert forall|j: int| 0 <= j < after.len() implies node_index(
        after,
        (#[trigger] after[j]).file_path,
    ) == Some(j) by {
        assert(after[j].file_path == before[j].file_path);
    }
}

/// A node under a new path keeps every node under a path of its own, and is
/// found at the end.
pub proof fn lemma_paths_unique_push(store: Seq<NodeView>, node: NodeView)
    requires
        node_index(store, node.file_path) is None,
    ensures
        node_index(store.push(node), node.file_path) == Some(store.len() as int),
        paths_unique(store) ==> paths_unique(store.push(node)),
{
    let after = store.push(node);
    lemma_node_index_found(store, node.file_path, 0);
    lemma_node_index_found(after, node.file_path, 0);
    assert(after[store.len() as int].file_path == node.file_path);
    match node_index(after, node.file_path) {
        Some(j) => {
            if j < store.len() {
                assert(after[j] == store[j]);
            }
        },
        None => {},
    }
    if paths_unique(store) {
        assert forall|j: int| 0 <= j < after.len() implies node_index(
            after,
            (#[trigger] after[j]).file_path,
        ) == Some(j) by {
            if j < store.len() {
                let path = store[j].file_path;
                assert(after[j] == store[j]);
                lemma_node_index_found(store, path, 0);
                lemma_node_index_found(after, path, 0);
                match node_index(after, path) {
                    Some(k) => {
                        if k < j {
                            assert(after[k] == store[k]);
                        }
                    },
                    None => {},
                }
            }
        }
    }
}

/// A node handed in keeps every node under a path of its own.
pub proof fn lemma_paths_unique_put(store: Seq<NodeView>, node: NodeView)
    requires
        paths_unique(store),
    ensures
        paths_unique(put_node(store, node)),
        put_node(store, node).len() >= store.len(),
{
    let after = put_node(store, node);
    lemma_node_index_found(store, node.file_path, 0);
    match node_index(store, node.file_path) {
        Some(i) => {
            assert forall|j: int| 0 <= j < after.len() implies node_index(
                after,
                (#[trigger] after[j]).file_path,
            ) == Some(j) by {
                let path = after[j].file_path;
                assert(path == store[j].file_path);
                lemma_node_index_found(store, path, 0);
                lemma_node_index_found(after, path, 0);
                match node_index(after, path) {
                    Some(k) => {
                        if k < j {
                            assert(after[k].file_path == store[k].file_path);
                        }
                    },
                    None => {},
                }
            }
        },
        None => {
            lemma_paths_unique_push(store, node);
        },
    }
}

/// A store stays in order when a node that is in order takes the place of a
/// node of the same path.
pub proof fn lemma_store_wf_update(store: Seq<NodeView>, i: int, node: NodeView)
    requires
        store_wf(store),
        0 <= i < store.len(),
        node.wf(),
        node.file_path == store[i].file_path,
    ensures
        store_wf(store.update(i, node)),
{
    let after = store.update(i, node);
    assert forall|j: int| 0 <= j < after.len() implies (#[trigger] after[j]).wf() by {
        if j != i {
            assert(after[j] == store[j]);
        }
    }
    assert forall|j: int| 0 <= j < after.len() implies node_index(
        after,
        (#[trigger] after[j]).file_path,
    ) == Some(j) by {
        let path = after[j].file_path;
        assert(path == store[j].file_path);
        lemma_node_index_found(store, path, 0);
        lemma_node_index_found(after, path, 0);
        match node_index(after, path) {
            Some(k) => {
                if k < j {
                    assert(after[k].file_path == store[k].file_path);
                }
            },
            None => {},
        }
    }
}

/// A store stays in order when a node that is in order is handed in.
pub proof fn lemma_store_wf_put(store: Seq<NodeView>, node: NodeView)
    requires
        store_wf(store),
        node.wf(),
    ensures
        store_wf(put_node(store, node)),
{
    let after = put_node(store, node);
    lemma_paths_unique_put(store, node);
    lemma_node_index_found(store, node.file_path, 0);
    assert forall|j: int| 0 <= j < after.len() implies (#[trigger] after[j]).wf() by {
        match node_index(store, node.file_path) {
            Some(i) => {
                if j != i {
                    assert(after[j] == store[j]);
                }
            },
            None => {
                if j < store.len() {
                    assert(after[j] == store[j]);
                }
            },
        }
    }
}

/// A store stays in order when one of its nodes is recorded as importing another.
pub proof fn lemma_store_wf_connect(store: Seq<NodeView>, i: int, specifier: Seq<char>, j: int)
    requires
        store_wf(store),
        0 <= i < store.len(),
        0 <= j < store.len(),
    ensures
        store_wf(connect(store, i, specifier, j)),
{
    let middle = add_importer(store, j, store[i].file_path);
    lemma_store_wf_update(store, j, store[j].with_importer(store[i].file_path));
    lemma_with_edge_wf(middle[i], specifier, store[j].file_path);
    lemma_store_wf_update(middle, i, middle[i].with_edge(specifier, store[j].file_path));
    assert(middle[j].file_path == store[j].file_path);
}

/// An edge that stands unchanged in a graph that has grown is still closed.
pub proof fn lemma_edge_still_closed(before: Seq<NodeView>, after: Seq<NodeView>, i: int, k: int)
    requires
        grown(before, after),
        0 <= i < before.len(),
        0 <= k < before[i].importing.len(),
        after[i].importing[k] == before[i].importing[k],
    ensures
        edge_closed(before, i, k) ==> edge_closed(after, i, k),
        edge_to_exporter(before, i, k) ==> edge_to_exporter(after, i, k),
{
    assert(after[i].file_path == before[i].file_path);
    let target = before[i].importing[k].target;
    lemma_node_index_found(before, target, 0);
    if node_index(before, target) is Some {
        lemma_node_index_grown(before, after, target);
        let j = node_index(before, target)->0;
        assert(after[j].file_path == before[j].file_path);
        if before[j].imports.contains(before[i].file_path) {
            let at = choose|at: int|
                0 <= at < before[j].imports.len() && before[j].imports[at] == before[i].file_path;
            assert(after[j].imports[at] == before[i].file_path);
        }
    }
}

/// Every edge is closed after a step, given that the graph has grown, that
/// its nodes are in order under paths of their own, and that every edge is an
/// unchanged old one or closed.
pub proof fn lemma_links_step(before: Seq<NodeView>, after: Seq<NodeView>)
    requires
        links_wf(before),
        grown(before, after),
        store_wf(after),
        forall|i: int, k: int|
            0 <= i < after.len() && 0 <= k < after[i].importing.len() ==> (i < before.len() && k
                < before[i].importing.len() && after[i].importing[k] == before[i].importing[k])
                || #[trigger] edge_closed(after, i, k),
    ensures
        links_wf(after),
{
    assert forall|i: int, k: int|
        0 <= i < after.len() && 0 <= k < after[i].importing.len() implies #[trigger] edge_closed(
        after,
        i,
        k,
    ) by {
        if i < before.len() && k < before[i].importing.len() && after[i].importing[k]
            == before[i].importing[k] {
            assert(edge_closed(before, i, k));
            lemma_edge_still_closed(before, after, i, k);
        }
    }
}

/// Every edge stays closed when a node gives way to one of the same path
/// and edges that the graph has grown into.
pub proof fn lemma_links_update(store: Seq<NodeView>, i: int, node: NodeView)
    requires
        links_wf(store),
        0 <= i < store.len(),
        node.wf(),
        node.importing == store[i].importing,
        grown(store, store.update(i, node)),
    ensures
        links_wf(store.update(i, node)),
{
    let after = store.update(i, node);
    assert(after[i].file_path == store[i].file_path);
    lemma_store_wf_update(store, i, node);
    assert forall|n: int, k: int|
        0 <= n < after.len() && 0 <= k < after[n].importing.len() implies (n < store.len() && k
        < store[n].importing.len() && after[n].importing[k] == store[n].importing[k])
        || #[trigger] edge_closed(after, n, k) by {
        if n != i {
            assert(after[n] == store[n]);
        }
    }
    lemma_links_step(store, after);
}

/// Every edge stays closed when a node is recorded as importing another,
/// wherever the specifier led before.
pub proof fn lemma_links_connect(store: Seq<NodeView>, i: int, specifier: Seq<char>, j: int)
    requires
        links_wf(store),
        0 <= i < store.len(),
        0 <= j < store.len(),
    ensures
        links_wf(connect(store, i, specifier, j)),
{
    let middle = add_importer(store, j, store[i].file_path);
    let after = connect(store, i, specifier, j);
    let target = store[j].file_path;
    let edges = store[i].importing;
    lemma_connect_shape(store, i, specifier, j);
    lemma_connect_links(store, i, specifier, j);
    lemma_store_wf_connect(store, i, specifier, j);
    assert(grown(store, middle)) by {
        assert(same_specifiers(store[j].importing, middle[j].importing));
        assert(same_names(store[j].exporting, middle[j].exporting));
    }
    lemma_links_update(store, j, store[j].with_importer(store[i].file_path));
    assert(middle[i].importing == edges);
    assert(after == add_edge(middle, i, specifier, target));
    lemma_put_edge_lookup(edges, specifier, target, specifier);
    lemma_edge_index_found(after[i].importing, specifier, after[i].importing.len() as int);
    let at = edge_index(after[i].importing, specifier)->0;
    lemma_edge_index_found(edges, specifier, edges.len() as int);
    assert(same_specifiers(edges, after[i].importing));
    assert(grown(middle, after));
    assert(after[j].file_path == target);
    assert(after[i].importing[at].target == target);
    assert(node_index(after, target) == Some(j));
    assert(edge_closed(after, i, at));
    assert forall|n: int, k: int|
        0 <= n < after.len() && 0 <= k < after[n].importing.len() implies (n < middle.len() && k
        < middle[n].importing.len() && after[n].importing[k] == middle[n].importing[k])
        || #[trigger] edge_closed(after, n, k) by {
        if n != i {
            assert(after[n] == middle[n]);
        }
    }
    lemma_links_step(middle, after);
}

/// The laws of the graph hold after a step, given that the graph has grown,
/// that its nodes are in order under paths of their own, that every edge is
/// an unchanged old one or closed, and that every marked node was marked with
/// its edges unchanged or has an edge to an exporter.
pub proof fn lemma_graph_step(before: Seq<NodeView>, after: Seq<NodeView>)
    requires
        graph_wf(before),
        grown(before, after),
        forall|i: int| 0 <= i < after.len() ==> (#[trigger] after[i]).wf(),
        paths_unique(after),
        forall|i: int, k: int|
            0 <= i < after.len() && 0 <= k < after[i].importing.len() ==> (i < before.len() && k
                < before[i].importing.len() && after[i].importing[k] == before[i].importing[k])
                || #[trigger] edge_closed(after, i, k),
        forall|i: int|
            0 <= i < after.len() && (#[trigger] after[i]).imported_i18n ==> (i < before.len()
                && before[i].imported_i18n && forall|k: int|
                0 <= k < before[i].importing.len() ==> (#[trigger] after[i].importing[k])
                    == before[i].importing[k]) || imports_exporter(after, i),
    ensures
        graph_wf(after),
{
    assert forall|i: int, k: int|
        0 <= i < after.len() && 0 <= k < after[i].importing.len() implies #[trigger] edge_closed(
        after,
        i,
        k,
    ) by {
        if i < before.len() && k < before[i].importing.len() && after[i].importing[k]
            == before[i].importing[k] {
            assert(edge_closed(before, i, k));
            lemma_edge_still_closed(before, after, i, k);
        }
    }
    assert forall|i: int| 0 <= i < after.len() && (#[trigger] after[i]).imported_i18n implies imports_exporter(
        after,
        i,
    ) by {
        if !imports_exporter(after, i) {
            assert(before[i].imported_i18n);
            assert(imports_exporter(before, i));
            let k = choose|k: int| edge_to_exporter(before, i, k);
            assert(after[i].importing[k] == before[i].importing[k]);
            assert(after[i].file_path == before[i].file_path);
            lemma_edge_still_closed(before, after, i, k);
            assert(edge_to_exporter(after, i, k));
        }
    }
}

/// Adding an importer keeps the laws.
pub proof fn lemma_add_importer(store: Seq<NodeView>, j: int, importer: Seq<char>)
    requires
        graph_wf(store),
        0 <= j < store.len(),
    ensures
        graph_wf(add_importer(store, j, importer)),
        grown(store, add_importer(store, j, importer)),
        add_importer(store, j, importer)[j].imports.contains(importer),
{
    let after = add_importer(store, j, importer);
    if store[j].imports.contains(importer) {
        assert(after =~= store);
    } else {
        assert(after[j].imports[store[j].imports.len() as int] == importer);
    }
    assert(grown(store, after));
    lemma_paths_unique_kept(store, after);
    lemma_graph_step(store, after);
}

/// What recording that node `i` imports node `j` does to the graph, whatever
/// state the graph is in: nothing but the importers of node `j` and the edges
/// of node `i` changes, and the edges of node `i` change as `put_edge` says.
pub proof fn lemma_connect_shape(store: Seq<NodeView>, i: int, specifier: Seq<char>, j: int)
    requires
        0 <= i < store.len(),
        0 <= j < store.len(),
    ensures
        grown(store, connect(store, i, specifier, j)),
        connect(store, i, specifier, j).len() == store.len(),
        connect(store, i, specifier, j)[i].importing == put_edge(
            store[i].importing,
            specifier,
            store[j].file_path,
        ),
        leads_to(connect(store, i, specifier, j), i, specifier, j),
        forall|n: int|
            0 <= n < store.len() && n != i ==> (#[trigger] connect(
                store,
                i,
                specifier,
                j,
            )[n]).importing == store[n].importing,
{
    let middle = add_importer(store, j, store[i].file_path);
    let after = connect(store, i, specifier, j);
    let edges = store[i].importing;
    assert(after == add_edge(middle, i, specifier, store[j].file_path));
    assert(middle[i].importing == edges);
    lemma_put_edge_lookup(edges, specifier, store[j].file_path, specifier);
    lemma_edge_index_found(edges, specifier, edges.len() as int);
    assert(same_specifiers(edges, after[i].importing));
    assert(grown(store, middle));
    assert(grown(middle, after));
    lemma_grown_trans(store, middle, after);
    assert(after[j].file_path == store[j].file_path);
}

/// The graph `after` records, beyond what `before` did, that node `i` imports
/// node `j` under `specifier`: the specifier leads from node `i` to node `j`,
/// whatever it led to before; node `j` lists node `i` among its importers;
/// every other specifier of node `i` leads where it led; and no node was
/// added, taken away or given another path.
pub open spec fn linked_by(
    before: Seq<NodeView>,
    after: Seq<NodeView>,
    i: int,
    specifier: Seq<char>,
    j: int,
) -> bool {
    &&& after.len() == before.len()
    &&& forall|n: int| 0 <= n < before.len() ==> (#[trigger] after[n]).file_path == before[n].file_path
    &&& edge_target(after[i].importing, specifier) == Some(before[j].file_path)
    &&& after[j].imports.contains(before[i].file_path)
    &&& forall|other: Seq<char>|
        other != specifier ==> edge_target(after[i].importing, other) == edge_target(
            before[i].importing,
            other,
        )
}

/// Recording that node `i` imports node `j` links the two, whatever state the
/// graph is in and wherever the specifier led before.
pub proof fn lemma_connect_links(store: Seq<NodeView>, i: int, specifier: Seq<char>, j: int)
    requires
        0 <= i < store.len(),
        0 <= j < store.len(),
    ensures
        linked_by(store, connect(store, i, specifier, j), i, specifier, j),
{
    let middle = add_importer(store, j, store[i].file_path);
    let after = connect(store, i, specifier, j);
    lemma_connect_shape(store, i, specifier, j);
    assert(middle[j].imports.contains(store[i].file_path)) by {
        let list = store[j].imports;
        if !list.contains(store[i].file_path) {
            assert(list.push(store[i].file_path)[list.len() as int] == store[i].file_path);
        }
    }
    assert(after[j].imports == middle[j].imports);
    assert forall|other: Seq<char>| other != specifier implies edge_target(
        after[i].importing,
        other,
    ) == edge_target(store[i].importing, other) by {
        lemma_put_edge_lookup(store[i].importing, specifier, store[j].file_path, other);
    }
    assert forall|n: int| 0 <= n < store.len() implies (#[trigger] after[n]).file_path
        == store[n].file_path by {}
}

/// Whether recording that `specifier` leads from node `i` to node `j` leaves
/// every mark justified for certain: the specifier led nowhere or to node
/// `j` before, or node `j` exports a translation primitive, or node `i` is
/// not marked.
pub open spec fn connects_safely(store: Seq<NodeView>, i: int, specifier: Seq<char>, j: int) -> bool {
    ||| edge_target(store[i].importing, specifier) is None
    ||| edge_target(store[i].importing, specifier) == Some(store[j].file_path)
    ||| store[j].exported_i18n
    ||| !store[i].imported_i18n
}

/// Recording that node `i` imports node `j` in a graph that keeps the laws:
/// the graph grows, node `i` has an edge to an exporter if node `j` exports a
/// translation primitive, and the laws hold where the record is safe.
pub proof fn lemma_connect(store: Seq<NodeView>, i: int, specifier: Seq<char>, j: int)
    requires
        graph_wf(store),
        0 <= i < store.len(),
        0 <= j < store.len(),
    ensures
        grown(store, connect(store, i, specifier, j)),
        connect(store, i, specifier, j).len() == store.len(),
        links_wf(connect(store, i, specifier, j)),
        store[j].exported_i18n ==> imports_exporter(connect(store, i, specifier, j), i),
        connects_safely(store, i, specifier, j) ==> graph_wf(connect(store, i, specifier, j)),
{
    let middle = add_importer(store, j, store[i].file_path);
    lemma_add_importer(store, j, store[i].file_path);
    let after = connect(store, i, specifier, j);
    let target = store[j].file_path;
    let edges = middle[i].importing;
    assert(after == add_edge(middle, i, specifier, target));
    assert(edges == store[i].importing);
    assert forall|other: Seq<char>| other != specifier implies edge_target(
        after[i].importing,
        other,
    ) == edge_target(store[i].importing, other) by {
        lemma_put_edge_lookup(edges, specifier, target, other);
    }
    lemma_put_edge_lookup(edges, specifier, target, specifier);
    lemma_edge_index_found(edges, specifier, edges.len() as int);
    lemma_edge_index_found(after[i].importing, specifier, after[i].importing.len() as int);
    let at = edge_index(after[i].importing, specifier)->0;
    assert(same_specifiers(edges, after[i].importing));
    assert(grown(middle, after));
    lemma_grown_trans(store, middle, after);
    lemma_paths_unique_kept(middle, after);
    lemma_with_edge_wf(middle[i], specifier, target);
    assert(after[j].file_path == target);
    assert(after[j].imports.contains(store[i].file_path)) by {
        let place = choose|place: int|
            0 <= place < middle[j].imports.len() && middle[j].imports[place] == store[i].file_path;
        assert(after[j].imports[place] == store[i].file_path);
    }
    assert forall|k: int| 0 <= k < after[i].importing.len() && k != at implies k < edges.len()
        && (#[trigger] after[i].importing[k]) == edges[k] by {}
    assert(after[i].importing[at].target == target);
    assert(edge_closed(after, i, at));
    assert forall|n: int, k: int|
        0 <= n < after.len() && 0 <= k < after[n].importing.len() implies #[trigger] edge_closed(
        after,
        n,
        k,
    ) by {
        if !(n == i && k == at) {
            if n == i {
                assert(after[i].importing[k] == edges[k]);
            } else {
                assert(after[n] == middle[n]);
            }
            assert(edge_closed(middle, n, k));
            lemma_edge_still_closed(middle, after, n, k);
        }
    }
    if store[j].exported_i18n {
        assert(edge_to_exporter(after, i, at));
    }
    if connects_safely(store, i, specifier, j) {
        assert forall|n: int| 0 <= n < after.len() implies (#[trigger] after[n]).wf() by {
            if n != i {
                assert(after[n] == middle[n]);
            }
        }
        assert forall|n: int| 0 <= n < after.len() && (#[trigger] after[n]).imported_i18n implies (
        n < middle.len() && middle[n].imported_i18n && forall|k: int|
            0 <= k < middle[n].importing.len() ==> (#[trigger] after[n].importing[k])
                == middle[n].importing[k]) || imports_exporter(after, n) by {
            if n != i {
                assert(after[n] == middle[n]);
            } else if !store[j].exported_i18n {
                if edge_target(edges, specifier) == Some(target) {
                    assert(after[i].importing == edges);
                }
            }
        }
        lemma_graph_step(middle, after);
    }
}

/// Marking a node that has an edge to an exporting node keeps the laws.
pub proof fn lemma_mark(store: Seq<NodeView>, i: int)
    requires
        graph_wf(store),
        0 <= i < store.len(),
        imports_exporter(store, i),
    ensures
        graph_wf(mark(store, i)),
        grown(store, mark(store, i)),
{
    let after = mark(store, i);
    assert(grown(store, after));
    lemma_paths_unique_kept(store, after);
    assert forall|n: int| 0 <= n < after.len() && (#[trigger] after[n]).imported_i18n implies (n
        < store.len() && store[n].imported_i18n && forall|k: int|
        0 <= k < store[n].importing.len() ==> (#[trigger] after[n].importing[k])
            == store[n].importing[k]) || imports_exporter(after, n) by {
        if n == i {
            let k = choose|k: int| edge_to_exporter(store, i, k);
            lemma_edge_still_closed(store, after, i, k);
            assert(edge_to_exporter(after, i, k));
        }
    }
    lemma_graph_step(store, after);
}

/// Recording an export keeps the laws.
pub proof fn lemma_export(
    store: Seq<NodeView>,
    i: int,
    name: Seq<char>,
    member: Option<crate::i18n_types::MemberView>,
)
    requires
        graph_wf(store),
        0 <= i < store.len(),
    ensures
        graph_wf(store.update(i, store[i].with_export(name, member))),
        grown(store, store.update(i, store[i].with_export(name, member))),
{
    let after = store.update(i, store[i].with_export(name, member));
    crate::node::lemma_with_export_wf(store[i], name, member);
    lemma_export_index_found(store[i].exporting, name, 0);
    assert(same_names(store[i].exporting, after[i].exporting));
    assert(grown(store, after));
    lemma_paths_unique_kept(store, after);
    lemma_graph_step(store, after);
}

/// Adding a node without edges and marks under a path that is new keeps the laws.
pub proof fn lemma_push(store: Seq<NodeView>, node: NodeView)
    requires
        graph_wf(store),
        node.wf(),
        node.importing.len() == 0,
        !node.imported_i18n,
        node_index(store, node.file_path) is None,
    ensures
        graph_wf(store.push(node)),
        grown(store, store.push(node)),
{
    let after = store.push(node);
    assert(grown(store, after));
    lemma_paths_unique_push(store, node);
    lemma_graph_step(store, after);
}

/// In a graph that keeps its laws, every recorded edge leads to a node of the
/// graph, and that node lists the source of the edge among its importers.
pub proof fn lemma_edge_target_lists_importer(store: Seq<NodeView>, i: int, k: int)
    requires
        graph_wf(store),
        0 <= i < store.len(),
        0 <= k < store[i].importing.len(),
    ensures
        exists|j: int|
            0 <= j < store.len() && (#[trigger] store[j]).file_path == store[i].importing[k].target
                && store[j].imports.contains(store[i].file_path),
{
    assert(edge_closed(store, i, k));
    lemma_node_index_found(store, store[i].importing[k].target, 0);
    let j = node_index(store, store[i].importing[k].target)->0;
    assert(store[j].file_path == store[i].importing[k].target);
}

/// In a graph that keeps its laws, a node that is marked as importing a
/// translation primitive has an edge to a node that exports one.
pub proof fn lemma_marked_node_imports_exporter(store: Seq<NodeView>, i: int)
    requires
        graph_wf(store),
        0 <= i < store.len(),
        store[i].imported_i18n,
    ensures
        exists|k: int, j: int|
            0 <= k < store[i].importing.len() && 0 <= j < store.len() && (#[trigger] store[j]).file_path
                == (#[trigger] store[i].importing[k]).target && store[j].exported_i18n,
{
    assert(imports_exporter(store, i));
    let k = choose|k: int| edge_to_exporter(store, i, k);
    lemma_node_index_found(store, store[i].importing[k].target, 0);
    let j = node_index(store, store[i].importing[k].target)->0;
    assert(store[j].file_path == store[i].importing[k].target);
}

impl NodeStore {
    /// A store that holds `nodes`: each one is handed in after the other, so
    /// that of two nodes with one path the later one stays.
    pub fn new(nodes: Vec<Node>) -> (store: NodeStore)
        ensures
            store@ == put_all(Seq::empty(), nodes@.map_values(|n: Node| n@), 0),
            paths_unique(store@),
            nodes_wf(nodes@.map_values(|n: Node| n@)) ==> store_wf(store@),
    {
        let ghost views = nodes@.map_values(|n: Node| n@);
        let mut store = NodeStore { nodes: Vec::new() };
        assert(store@ =~= Seq::empty());
        let mut at: usize = 0;
        while at < nodes.len()
            invariant
                at <= nodes.len(),
                views == nodes@.map_values(|n: Node| n@),
                put_all(store@, views, at as int) == put_all(Seq::empty(), views, 0),
                paths_unique(store@),
                nodes_wf(views) ==> store_wf(store@),
            decreases nodes.len() - at,
        {
            let node = nodes[at].copy();
            assert(node@ == views[at as int]);
            store.insert_node(node);
            at += 1;
        }
        store
    }

    /// A copy of the store as it stands, apart from it from now on.
    pub fn clone(&self) -> (copy: NodeStore)
        ensures
            copy@ == self@,
    {
        let mut nodes: Vec<Node> = Vec::new();
        let mut i: usize = 0;
        while i < self.nodes.len()
            invariant
                i <= self.nodes.len(),
                nodes.len() == i,
                forall|k: int| 0 <= k < i ==> nodes[k]@ == self.nodes[k]@,
            decreases self.nodes.len() - i,
        {
            nodes.push(self.nodes[i].copy());
            i += 1;
        }
        let copy = NodeStore { nodes };
        assert(copy@ =~= self@);
        copy
    }

    /// The place of the node with the path `file_path`.
    pub fn index_of(&self, file_path: &str) -> (found: Option<usize>)
        ensures
            match found {
                Some(i) => node_index(self@, file_path@) == Some(i as int) && i < self.nodes.len(),
                None => node_index(self@, file_path@) is None,
            },
    {
        let mut i: usize = 0;
        while i < self.nodes.len()
            invariant
                i <= self.nodes.len(),
                node_index_from(self@, file_path@, i as int) == node_index(self@, file_path@),
            decreases self.nodes.len() - i,
        {
            if text_eq(self.nodes[i].file_path.as_str(), file_path) {
                return Some(i);
            }
            i += 1;
        }
        None
    }

    /// The node with the path `file_path`.
    pub fn get_node(&self, file_path: &str) -> (found: Option<&Node>)
        ensures
            match found {
                Some(node) => node_index(self@, file_path@) matches Some(i) && self@[i] == node@,
                None => node_index(self@, file_path@) is None,
            },
    {
        match self.index_of(file_path) {
            Some(i) => Some(&self.nodes[i]),
            None => None,
        }
    }

    /// The node with the path `node_path`.
    pub fn get_by_node_path(&self, node_path: &String) -> (found: Option<&Node>)
        ensures
            match found {
                Some(node) => node_index(self@, node_path@) matches Some(i) && self@[i] == node@,
                None => node_index(self@, node_path@) is None,
            },
    {
        self.get_node(node_path.as_str())
    }

    /// The node with the path `file_path`, together with its own copy of the path.
    pub fn get_path_and_node(&self, file_path: &str) -> (found: Option<(&String, &Node)>)
        ensures
            match found {
                Some((path, node)) => node_index(self@, file_path@) matches Some(i) && self@[i]
                    == node@ && path@ == file_path@,
                None => node_index(self@, file_path@) is None,
            },
    {
        match self.index_of(file_path) {
            Some(i) => {
                proof {
                    lemma_node_index_found(self@, file_path@, 0);
                }
                Some((&self.nodes[i].file_path, &self.nodes[i]))
            },
            None => None,
        }
    }

    /// Hands `node` to the store: it takes the place of the node with its path,
    /// or a new place at the end.
    pub fn insert_node(&mut self, node: Node)
        ensures
            final(self)@ == put_node(old(self)@, node@),
            paths_unique(old(self)@) ==> paths_unique(final(self)@),
            store_wf(old(self)@) && node@.wf() ==> store_wf(final(self)@),
    {
        proof {
            if paths_unique(self@) {
                lemma_paths_unique_put(self@, node@);
            }
            if store_wf(self@) && node@.wf() {
                lemma_store_wf_put(self@, node@);
            }
        }
        match self.index_of(node.file_path.as_str()) {
            Some(i) => {
                self.nodes[i] = node;
                assert(self@ =~= old(self)@.update(i as int, node@));
            },
            None => {
                self.nodes.push(node);
                assert(self@ =~= old(self)@.push(node@));
            },
        }
    }

    /// The node that `specifier` leads to from node `from`.
    pub fn importing_node(&self, from: usize, specifier: &str) -> (found: Option<usize>)
        requires
            from < self.nodes.len(),
        ensures
            match found {
                Some(j) => importing_index(self@, from as int, specifier@) == Some(j as int) && j
                    < self.nodes.len(),
                None => importing_index(self@, from as int, specifier@) is None,
            },
    {
        match self.nodes[from].importing_target(specifier) {
            Some(path) => self.index_of(path.as_str()),
            None => None,
        }
    }

    fn paths_where(&self, imported: bool, exported: bool) -> (paths: Vec<String>)
        ensures
            paths.deep_view() == paths_from(self@, imported, exported, 0),
    {
        let mut paths: Vec<String> = Vec::new();
        let mut i: usize = 0;
        while i < self.nodes.len()
            invariant
                i <= self.nodes.len(),
                paths.deep_view() + paths_from(self@, imported, exported, i as int) == paths_from(
                    self@,
                    imported,
                    exported,
                    0,
                ),
            decreases self.nodes.len() - i,
        {
            let node = &self.nodes[i];
            let ghost before = paths.deep_view();
            if (!imported || node.has_i18n_source_imported) && (!exported
                || node.has_exported_i18n_methods) {
                paths.push(node.file_path.clone());
                assert(paths.deep_view() =~= before.push(node.file_path@));
                assert(before.push(node.file_path@) + paths_from(
                    self@,
                    imported,
                    exported,
                    i + 1,
                ) =~= before + paths_from(self@, imported, exported, i as int));
            }
            i += 1;
        }
        assert(paths.deep_view() + Seq::<Seq<char>>::empty() =~= paths.deep_view());
        paths
    }

    /// The paths of all nodes, in the order in which they came.
    pub fn get_all_nodes(&self) -> (paths: Vec<String>)
        ensures
            paths.deep_view() == all_paths(self@),
    {
        self.paths_where(false, false)
    }

    /// The paths of the nodes that export a translation primitive.
    pub fn get_i18n_exported_nodes(&self) -> (paths: Vec<String>)
        ensures
            paths.deep_view() == exporter_paths(self@),
    {
        self.paths_where(false, true)
    }

    /// The paths of the nodes that import a translation primitive: the files to read keys from.
    pub fn get_all_i18n_nodes(&self) -> (paths: Vec<String>)
        ensures
            paths.deep_view() == importer_paths(self@),
    {
        self.paths_where(true, false)
    }

    /// Records that node `at` has `importer` among its importers.
    pub fn insert_imports(&mut self, at: usize, importer: String)
        requires
            at < old(self).nodes.len(),
        ensures
            final(self)@ == add_importer(old(self)@, at as int, importer@),
            store_wf(old(self)@) ==> store_wf(final(self)@),
            links_wf(old(self)@) ==> links_wf(final(self)@),
    {
        proof {
            assert(self@[at as int] == self.nodes[at as int]@);
            let node = self@[at as int];
            let after = node.with_importer(importer@);
            if store_wf(self@) {
                lemma_store_wf_update(self@, at as int, after);
            }
            if links_wf(self@) {
                assert(same_specifiers(node.importing, after.importing));
                assert(same_names(node.exporting, after.exporting));
                assert(grown(self@, self@.update(at as int, after)));
                lemma_links_update(self@, at as int, after);
            }
        }
        self.nodes[at].insert_imports(importer);
        assert(self@ =~= add_importer(old(self)@, at as int, importer@));
    }

    /// Marks node `at` as importing a translation primitive.
    pub fn mark_has_i18n_source_imported(&mut self, at: usize)
        requires
            at < old(self).nodes.len(),
        ensures
            final(self)@ == mark(old(self)@, at as int),
            store_wf(old(self)@) ==> store_wf(final(self)@),
            links_wf(old(self)@) ==> links_wf(final(self)@),
    {
        proof {
            assert(self@[at as int] == self.nodes[at as int]@);
            let node = self@[at as int];
            if store_wf(self@) {
                lemma_store_wf_update(self@, at as int, node.marked());
            }
            if links_wf(self@) {
                assert(same_specifiers(node.importing, node.marked().importing));
                assert(same_names(node.exporting, node.marked().exporting));
                assert(grown(self@, self@.update(at as int, node.marked())));
                lemma_links_update(self@, at as int, node.marked());
            }
        }
        self.nodes[at].mark_has_i18n_source_imported();
        assert(self@ =~= mark(old(self)@, at as int));
    }

    /// Records an export of node `at`.
    pub fn insert_exporting(
        &mut self,
        at: usize,
        member: String,
        i18n_member: Option<crate::i18n_types::I18nMember>,
    )
        requires
            at < old(self).nodes.len(),
        ensures
            final(self)@ == old(self)@.update(
                at as int,
                old(self)@[at as int].with_export(
                    member@,
                    crate::i18n_types::opt_member(i18n_member),
                ),
            ),
            store_wf(old(self)@) ==> store_wf(final(self)@),
            links_wf(old(self)@) ==> links_wf(final(self)@),
    {
        proof {
            assert(self@[at as int] == self.nodes[at as int]@);
            if links_wf(self@) {
                let node = self@[at as int];
                let after = node.with_export(member@, crate::i18n_types::opt_member(i18n_member));
                crate::node::lemma_with_export_wf(
                    node,
                    member@,
                    crate::i18n_types::opt_member(i18n_member),
                );
                crate::node::lemma_export_index_found(node.exporting, member@, 0);
                assert(same_specifiers(node.importing, after.importing));
                assert(same_names(node.exporting, after.exporting));
                assert(grown(self@, self@.update(at as int, after)));
                lemma_links_update(self@, at as int, after);
            }
            if store_wf(self@) {
                crate::node::lemma_with_export_wf(
                    self@[at as int],
                    member@,
                    crate::i18n_types::opt_member(i18n_member),
                );
                lemma_store_wf_update(
                    self@,
                    at as int,
                    self@[at as int].with_export(
                        member@,
                        crate::i18n_types::opt_member(i18n_member),
                    ),
                );
            }
        }
        self.nodes[at].insert_exporting(member, i18n_member);
        assert(self@ =~= old(self)@.update(
            at as int,
            old(self)@[at as int].with_export(member@, crate::i18n_types::opt_member(i18n_member)),
        ));
    }

    /// Records that node `from` imports node `to` under `specifier`: `to`
    /// learns of its importer, and the specifier leads from `from` to `to`.
    pub fn connect(&mut self, from: usize, specifier: String, to: usize)
        requires
            from < old(self).nodes.len(),
            to < old(self).nodes.len(),
        ensures
            final(self)@ == connect(old(self)@, from as int, specifier@, to as int),
            linked_by(old(self)@, final(self)@, from as int, specifier@, to as int),
            store_wf(old(self)@) ==> store_wf(final(self)@),
            links_wf(old(self)@) ==> links_wf(final(self)@),
    {
        proof {
            assert(self@.len() == self.nodes.len());
            lemma_connect_links(self@, from as int, specifier@, to as int);
            if store_wf(self@) {
                lemma_store_wf_connect(self@, from as int, specifier@, to as int);
            }
            if links_wf(self@) {
                lemma_links_connect(self@, from as int, specifier@, to as int);
            }
        }
        let importer = self.nodes[from].file_path.clone();
        let target = self.nodes[to].file_path.clone();
        self.nodes[to].insert_imports(importer);
        assert(self@ =~= add_importer(old(self)@, to as int, importer@));
        let ghost middle = self@;
        self.nodes[from].insert_importing(specifier, target);
        assert(self@ =~= add_edge(middle, from as int, specifier@, target@));
    }
}

impl Node {
    /// Records that `specifier`, written in node `from`, resolves to the file
    /// at `source_path`, if the store holds a node for that file. Without such
    /// a node nothing changes and the answer is `Err`.
    pub fn try_insert_importing(
        store: &mut NodeStore,
        from: usize,
        specifier: String,
        source_path: &str,
    ) -> (done: Result<(), ()>)
        requires
            from < old(store).nodes.len(),
        ensures
            match node_index(old(store)@, source_path@) {
                Some(to) => done is Ok && final(store)@ == connect(
                    old(store)@,
                    from as int,
                    specifier@,
                    to,
                ) && linked_by(old(store)@, final(store)@, from as int, specifier@, to)
                    && old(store)@[to].file_path == source_path@,
                None => done is Err && final(store)@ == old(store)@,
            },
            store_wf(old(store)@) ==> store_wf(final(store)@),
            links_wf(old(store)@) ==> links_wf(final(store)@),
    {
        proof {
            lemma_node_index_found(store@, source_path@, 0);
        }
        match store.index_of(source_path) {
            Some(to) => {
                store.connect(from, specifier, to);
                Ok(())
            },
            None => Err(()),
        }
    }

    /// The node that `specifier` leads to from this node.
    pub fn get_importing_node<'a>(&self, store: &'a NodeStore, specifier: &str) -> (found: Option<
        &'a Node,
    >)
        ensures
            match found {
                Some(node) => edge_target(self@.importing, specifier@) matches Some(path)
                    && node_index(store@, path) matches Some(i) && store@[i] == node@,
                None => (edge_target(self@.importing, specifier@) matches Some(path) ==> node_index(
                    store@,
                    path,
                ) is None),
            },
    {
        match self.importing_target(specifier) {
            Some(path) => store.get_node(path.as_str()),
            None => None,
        }
    }
}

} // verus!
