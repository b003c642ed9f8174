//! The second pass: reading translation keys out of the files that import a
//! translation primitive.

pub mod hooks;
pub mod keys;
pub mod markup;
pub mod reading;
pub mod visit;
pub mod walker;

use crate::collector::keys::{lemma_merged_unique, merged, table_wf, KeyTable, NamespaceView};
use crate::collector::visit::walk;
use crate::collector::walker::{Extraction, Walker};
use crate::node::NodeView;
use crate::node_store::{node_index, NodeStore};
use crate::post_collector::settled;
use crate::syntax::SyntaxTree;
use crate::text::text_eq;
use crate::walk_utils::Scene;
use vstd::prelude::*;

verus! {

/// A file that was read and parsed.
pub struct SourceFile {
    pub path: String,
    pub tree: SyntaxTree,
}

/// The keys of one file: what the walk over its tree finds, and what the
/// names that it left waiting turn out to stand for.
pub open spec fn file_keys(store: Seq<NodeView>, node: int, tree: SyntaxTree) -> Seq<NamespaceView> {
    let found = walk(Scene { tree, store, node }, Extraction::empty());
    settled(store, found.keys, found.pending, 0)
}

/// `keys` after the file at `path` with the tree `tree` was read: a file that
/// is a node of the graph and whose tree is in order adds its keys; any other
/// adds nothing.
pub open spec fn with_file(store: Seq<NodeView>, keys: Seq<NamespaceView>, path: Seq<char>, tree: SyntaxTree) -> Seq<
    NamespaceView,
> {
    match node_index(store, path) {
        Some(node) => if tree.wf() {
            merged(keys, file_keys(store, node, tree), 0)
        } else {
            keys
        },
        None => keys,
    }
}

/// The first of `sources[from..]` with the path `path`.
pub open spec fn source_index_from(sources: Seq<SourceFile>, path: Seq<char>, from: int) -> Option<int>
    decreases sources.len() - from,
{
    if from < 0 || from >= sources.len() {
        None
    } else if sources[from].path@ == path {
        Some(from)
    } else {
        source_index_from(sources, path, from + 1)
    }
}

/// `keys` after the nodes `from..` of the graph were gone through: each one
/// that imports a translation primitive and has a source adds its keys.
pub open spec fn collected_from(store: Seq<NodeView>, keys: Seq<NamespaceView>, sources: Seq<SourceFile>, from: int) -> Seq<
    NamespaceView,
>
    decreases store.len() - from,
{
    if from < 0 || from >= store.len() {
        keys
    } else {
        let next = if store[from].imported_i18n {
            match source_index_from(sources, store[from].file_path, 0) {
                Some(at) => with_file(store, keys, store[from].file_path, sources[at].tree),
                None => keys,
            }
        } else {
            keys
        };
        collected_from(store, next, sources, from + 1)
    }
}

/// The second pass over a graph that is complete.
pub struct Collector {
    /// The graph.
    pub node_store: NodeStore,
    /// The keys found so far, by namespace.
    pub i18n_namespaces: KeyTable,
}

impl Collector {
    /// A collector over the graph `nodes` that has found nothing yet.
    pub fn new(nodes: NodeStore) -> (collector: Collector)
        ensures
            collector.node_store == nodes,
            collector.i18n_namespaces@ == Seq::<NamespaceView>::empty(),
            table_wf(collector.i18n_namespaces@),
    {
        Collector { node_store: nodes, i18n_namespaces: KeyTable::new() }
    }

    /// Reads the keys of the file at `file_path` out of its tree.
    pub fn collect_file(&mut self, file_path: &str, tree: &SyntaxTree)
        ensures
            final(self).node_store == old(self).node_store,
            final(self).i18n_namespaces@ == with_file(
                old(self).node_store@,
                old(self).i18n_namespaces@,
                file_path@,
                *tree,
            ),
            table_wf(old(self).i18n_namespaces@) ==> table_wf(final(self).i18n_namespaces@),
    {
        match self.node_store.index_of(file_path) {
            Some(node) => {
                if tree.is_wf() {
                    let mut walker = Walker::new(tree, &self.node_store, node);
                    walker.walk();
                    let mut found = walker.i18n_namespaces;
                    walker.post_collects.resolve_into(&self.node_store, &mut found);
                    proof {
                        if table_wf(self.i18n_namespaces@) {
                            lemma_merged_unique(self.i18n_namespaces@, found@, 0);
                        }
                    }
                    self.i18n_namespaces.merge(&found);
                }
            },
            None => {},
        }
    }

    /// Reads the keys of every file that imports a translation primitive and
    /// that `sources` holds the tree of, in the order of the graph.
    pub fn collect_keys(&mut self, sources: &Vec<SourceFile>)
        ensures
            final(self).node_store == old(self).node_store,
            final(self).i18n_namespaces@ == collected_from(
                old(self).node_store@,
                old(self).i18n_namespaces@,
                sources@,
                0,
            ),
            table_wf(old(self).i18n_namespaces@) ==> table_wf(final(self).i18n_namespaces@),
    {
        let ghost store = self.node_store@;
        let mut i: usize = 0;
        while i < self.node_store.nodes.len()
            invariant
                self.node_store == old(self).node_store,
                store == self.node_store@,
                i <= self.node_store.nodes.len(),
                table_wf(old(self).i18n_namespaces@) ==> table_wf(self.i18n_namespaces@),
                collected_from(store, self.i18n_namespaces@, sources@, i as int) == collected_from(
                    store,
                    old(self).i18n_namespaces@,
                    sources@,
                    0,
                ),
            decreases self.node_store.nodes.len() - i,
        {
            assert(store[i as int] == self.node_store.nodes[i as int]@);
            if self.node_store.nodes[i].has_i18n_source_imported {
                let path = self.node_store.nodes[i].file_path.clone();
                match find_source(sources, path.as_str()) {
                    Some(at) => {
                        self.collect_file(path.as_str(), &sources[at].tree);
                    },
                    None => {},
                }
            }
            i += 1;
        }
    }

    /// The keys of `namespace`; none when it was never seen.
    pub fn get_keys(&self, namespace: &str) -> (keys: Vec<String>)
        ensures
            keys.deep_view() == crate::collector::keys::keys_of(self.i18n_namespaces@, namespace@),
    {
        self.i18n_namespaces.get_keys(namespace)
    }
}

/// Where the source of the file at `path` stands among `sources`.
pub fn find_source(sources: &Vec<SourceFile>, path: &str) -> (found: Option<usize>)
    ensures
        match found {
            Some(i) => source_index_from(sources@, path@, 0) == Some(i as int) && i < sources.len(),
            None => source_index_from(sources@, path@, 0) is None,
        },
{
    let mut i: usize = 0;
    while i < sources.len()
        invariant
            i <= sources.len(),
            source_index_from(sources@, path@, i as int) == source_index_from(sources@, path@, 0),
        decreases sources.len() - i,
    {
        if text_eq(sources[i].path.as_str(), path) {
            return Some(i);
        }
        i += 1;
    }
    None
}

/// Reading the same sources over the same graph gives the same keys: what a
/// collector finds is decided by the graph, the sources and the keys it
/// started with.
pub proof fn lemma_collect_keys_deterministic(
    store: Seq<NodeView>,
    start: Seq<NamespaceView>,
    sources: Seq<SourceFile>,
    first: Seq<NamespaceView>,
    second: Seq<NamespaceView>,
)
    requires
        first == collected_from(store, start, sources, 0),
        second == collected_from(store, start, sources, 0),
    ensures
        first == second,
        forall|namespace: Seq<char>|
            crate::collector::keys::keys_of(first, namespace).to_set()
                == crate::collector::keys::keys_of(second, namespace).to_set(),
{
}

} // verus!
