//! Static extraction of translation keys from a graph of script modules.
//!
//! A scan has two passes. The first ([`analyzer`]) grows the graph of the
//! modules that the entry files lead to and tells which of them hand out or
//! take in a translation primitive. The second ([`collector`]) reads the keys
//! out of the files that take one in.
//!
//! The library works on plain values: a file is handed to it as a
//! [`syntax::SyntaxTree`], the answers of the module resolver as
//! [`resolver::Resolution`]s. Reading files, parsing them and running the
//! resolver is left to the caller, who either answers the analyzer step by
//! step or hands over all files at once ([`scan::scan_files`]).

pub mod analyzer;
pub mod collector;
pub mod i18n_packages;
pub mod i18n_types;
pub mod node;
pub mod node_store;
pub mod pattern;
pub mod post_collector;
pub mod resolver;
pub mod scan;
pub mod syntax;
pub mod text;
pub mod walk_utils;

use crate::analyzer::{unlinked, Analyzer, ScanError};
use crate::i18n_packages::I18nPackage;
use crate::node_store::{graph_wf, paths_unique, NodeStore};
use crate::pattern::{external_patterns, first_invalid_from};
use vstd::prelude::*;

verus! {

/// Everything one scan is configured with.
pub struct Payload {
    /// Path of the typed configuration file; empty when default resolution is wanted.
    pub tsconfig_path: String,
    /// Absolute paths of the files the module graph is grown from.
    pub entry_paths: Vec<String>,
    /// Sources of the regular expressions that name external packages.
    pub externals: Vec<String>,
    /// Packages that expose translation primitives besides the preset ones.
    pub extend_i18n_packages: Option<Vec<I18nPackage>>,
}

/// Sets up the first pass of a scan over an empty graph.
///
/// A payload without entry files is refused, and so is one with an external
/// package source that is not a valid expression.
pub fn prepare(payload: &Payload) -> (analyzer: Result<Analyzer, ScanError>)
    ensures
        match analyzer {
            Ok(made) => {
                &&& payload.entry_paths.len() > 0
                &&& first_invalid_from(payload.externals.deep_view(), 0) is None
                &&& made@.store.len() == 0
                &&& made@.externals == external_patterns(payload.externals.deep_view())
                &&& made@.idle()
                &&& made.wf()
                &&& unlinked(made@.store)
            },
            Err(ScanError::EmptyEntries) => payload.entry_paths.len() == 0,
            Err(ScanError::InvalidExternal(at)) => payload.entry_paths.len() > 0
                && first_invalid_from(payload.externals.deep_view(), 0) == Some(at as int),
        },
{
    if payload.entry_paths.len() < 1 {
        return Err(ScanError::EmptyEntries);
    }
    let store = NodeStore::new(Vec::new());
    let ghost empty = store@;
    assert(empty =~= Seq::empty());
    assert(graph_wf(empty) && paths_unique(empty) && unlinked(empty));
    let analyzer = Analyzer::new(store, &payload.externals);
    proof {
        if analyzer is Ok {
            assert(analyzer->Ok_0@.store == empty);
        }
    }
    analyzer
}

} // verus!
