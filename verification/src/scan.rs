//! A whole scan over files that were read beforehand: the first pass from
//! each entry file, then the reading of the keys. What a scan finds is fixed
//! by the payload, the answers of the resolver and the files.

use crate::analyzer::{
    advance_step, analyze_step, lemma_advance_leaves_less, lemma_remaining_bounds, loaded_step,
    remaining, seeded_from, Action, ActionView, Analyzer, AnalyzerView, ScanError,
};
use crate::collector::keys::{keys_of, table_wf, KeyTable, NamespaceView};
use crate::collector::{collected_from, Collector, SourceFile};
use crate::i18n_packages::{known_packages, opt_packages};
use crate::node::NodeView;
use crate::node_store::{grown, lemma_grown_trans, lemma_node_index_grown, node_index};
use crate::pattern::{external_patterns, first_invalid_from};
use crate::resolver::Resolution;
use crate::syntax::SyntaxTree;
use crate::text::text_eq;
use crate::{prepare, Payload};
use vstd::prelude::*;

verus! {

/// A file as the first pass takes it: its tree, and what the resolver
/// answered to its import specifiers.
pub struct LoadedFile {
    pub path: String,
    pub tree: SyntaxTree,
    pub resolutions: Vec<Resolution>,
}

/// The first of `files[from..]` with the path `path`.
pub open spec fn file_index_from(files: Seq<LoadedFile>, path: Seq<char>, from: int) -> Option<int>
    decreases files.len() - from,
{
    if from < 0 || from >= files.len() {
        None
    } else if files[from].path@ == path {
        Some(from)
    } else {
        file_index_from(files, path, from + 1)
    }
}

/// What is handed in for the file at `path`: the first file of that path, or
/// nothing when there is none.
pub open spec fn loaded_source(files: Seq<LoadedFile>, path: Seq<char>) -> Option<
    (SyntaxTree, Seq<Resolution>),
> {
    match file_index_from(files, path, 0) {
        Some(at) => Some((files[at].tree, files[at].resolutions@)),
        None => None,
    }
}

/// The state and the answer after the caller did what `action` asks for.
pub open spec fn respond(state: AnalyzerView, action: ActionView, files: Seq<LoadedFile>) -> (
    AnalyzerView,
    ActionView,
) {
    match action {
        ActionView::Done => (state, ActionView::Done),
        ActionView::Next => advance_step(state),
        ActionView::Load(path) => loaded_step(state, loaded_source(files, path)),
    }
}

/// The state and the answer after the caller did `n` times what it was asked for.
pub open spec fn steps(state: AnalyzerView, action: ActionView, files: Seq<LoadedFile>, n: nat) -> (
    AnalyzerView,
    ActionView,
)
    decreases n,
{
    if n == 0 {
        (state, action)
    } else {
        let before = steps(state, action, files, (n - 1) as nat);
        respond(before.0, before.1, files)
    }
}

/// The first pass from the entry file `entry` takes the analyzer from `state`
/// to `after`: some number of steps after the entry was named, nothing is
/// left to do.
pub open spec fn runs_to(state: AnalyzerView, entry: Seq<char>, files: Seq<LoadedFile>, after: AnalyzerView) -> bool {
    exists|n: nat| #[trigger]
        steps(
            analyze_step(state, entry, None).0,
            analyze_step(state, entry, None).1,
            files,
            n,
        ) == (after, ActionView::Done)
}

/// The state in which the first pass from the entry file `entry` ends. Every
/// first pass of an analyzer that keeps its laws ends (`Analyzer::run`), and
/// in one state only (`lemma_run_deterministic`).
pub open spec fn run_end(state: AnalyzerView, entry: Seq<char>, files: Seq<LoadedFile>) -> AnalyzerView {
    choose|after: AnalyzerView| runs_to(state, entry, files, after)
}

/// The state after the first passes from the entry files `entries[..upto]`,
/// one after the other.
pub open spec fn runs_end(
    state: AnalyzerView,
    entries: Seq<Seq<char>>,
    upto: int,
    files: Seq<LoadedFile>,
) -> AnalyzerView
    decreases upto,
{
    if upto <= 0 || upto > entries.len() {
        state
    } else {
        run_end(runs_end(state, entries, upto - 1, files), entries[upto - 1], files)
    }
}

/// The analyzer that a scan starts its first pass with: the graph holds the
/// known packages and nothing is under way.
pub open spec fn seeded_state(
    externals: Seq<Seq<char>>,
    packages: Option<Seq<crate::i18n_packages::PackageView>>,
    answers: Seq<Resolution>,
) -> AnalyzerView {
    AnalyzerView {
        store: seeded_from(Seq::empty(), known_packages(packages, answers), 0),
        externals: external_patterns(externals),
        frames: Seq::empty(),
        waiting: None,
    }
}

/// What a scan finds: the first pass runs from every entry file over the
/// graph of the known packages, and the keys are read from `sources`.
pub open spec fn scan_keys(
    entries: Seq<Seq<char>>,
    externals: Seq<Seq<char>>,
    packages: Option<Seq<crate::i18n_packages::PackageView>>,
    answers: Seq<Resolution>,
    files: Seq<LoadedFile>,
    sources: Seq<SourceFile>,
) -> Seq<NamespaceView> {
    collected_from(
        runs_end(
            seeded_state(externals, packages, answers),
            entries,
            entries.len() as int,
            files,
        ).store,
        Seq::empty(),
        sources,
        0,
    )
}

/// Once nothing is left to do, further steps change nothing.
pub proof fn lemma_done_stays(
    state: AnalyzerView,
    action: ActionView,
    files: Seq<LoadedFile>,
    n: nat,
    m: nat,
)
    requires
        n <= m,
        steps(state, action, files, n).1 is Done,
    ensures
        steps(state, action, files, m) == steps(state, action, files, n),
    decreases m,
{
    if n < m {
        lemma_done_stays(state, action, files, n, (m - 1) as nat);
    }
}

/// The first pass from an entry file ends in one state only.
pub proof fn lemma_run_deterministic(
    state: AnalyzerView,
    entry: Seq<char>,
    files: Seq<LoadedFile>,
    first: AnalyzerView,
    second: AnalyzerView,
)
    requires
        runs_to(state, entry, files, first),
        runs_to(state, entry, files, second),
    ensures
        first == second,
{
    let start = analyze_step(state, entry, None);
    let n = choose|n: nat| #[trigger]
        steps(start.0, start.1, files, n) == (first, ActionView::Done);
    let m = choose|m: nat| #[trigger]
        steps(start.0, start.1, files, m) == (second, ActionView::Done);
    if n <= m {
        lemma_done_stays(start.0, start.1, files, n, m);
    } else {
        lemma_done_stays(start.0, start.1, files, m, n);
    }
}

/// A first pass that ends in `after` ends in the state that `run_end` names.
pub proof fn lemma_run_end(
    state: AnalyzerView,
    entry: Seq<char>,
    files: Seq<LoadedFile>,
    after: AnalyzerView,
)
    requires
        runs_to(state, entry, files, after),
    ensures
        run_end(state, entry, files) == after,
{
    lemma_run_deterministic(state, entry, files, run_end(state, entry, files), after);
}

/// Two scans of the same payload over the same files and the same answers of
/// the resolver find the same keys: the same namespaces, and in each of them
/// the same set of keys.
pub proof fn lemma_scan_deterministic(
    entries: Seq<Seq<char>>,
    externals: Seq<Seq<char>>,
    packages: Option<Seq<crate::i18n_packages::PackageView>>,
    answers: Seq<Resolution>,
    files: Seq<LoadedFile>,
    sources: Seq<SourceFile>,
    first: Seq<NamespaceView>,
    second: Seq<NamespaceView>,
)
    requires
        first == scan_keys(entries, externals, packages, answers, files, sources),
        second == scan_keys(entries, externals, packages, answers, files, sources),
    ensures
        first == second,
        forall|namespace: Seq<char>|
            keys_of(first, namespace).to_set() == keys_of(second, namespace).to_set(),
{
}

/// How many of `files[from..]` are not nodes of the graph.
pub open spec fn unloaded(files: Seq<LoadedFile>, store: Seq<NodeView>, from: int) -> nat
    decreases files.len() - from,
{
    if from < 0 || from >= files.len() {
        0
    } else if node_index(store, files[from].path@) is None {
        1 + unloaded(files, store, from + 1)
    } else {
        unloaded(files, store, from + 1)
    }
}

/// A graph that has grown leaves no more files outside than before, and fewer
/// when one of them has become a node.
pub proof fn lemma_unloaded_grown(
    files: Seq<LoadedFile>,
    before: Seq<NodeView>,
    after: Seq<NodeView>,
    from: int,
    entered: Option<int>,
)
    requires
        grown(before, after),
        0 <= from,
        entered matches Some(at) ==> from <= at < files.len() && node_index(
            before,
            files[at].path@,
        ) is None && node_index(after, files[at].path@) is Some,
    ensures
        unloaded(files, after, from) <= unloaded(files, before, from),
        entered is Some ==> unloaded(files, after, from) < unloaded(files, before, from),
    decreases files.len() - from,
{
    if from < files.len() {
        if node_index(before, files[from].path@) is Some {
            lemma_node_index_grown(before, after, files[from].path@);
        }
        let rest = match entered {
            Some(at) => if at == from {
                None
            } else {
                entered
            },
            None => None,
        };
        lemma_unloaded_grown(files, before, after, from + 1, rest);
    }
}

/// Where the file at `path` stands among `files`.
pub fn find_file(files: &Vec<LoadedFile>, path: &str) -> (found: Option<usize>)
    ensures
        match found {
            Some(at) => file_index_from(files@, path@, 0) == Some(at as int) && at < files.len()
                && files[at as int].path@ == path@,
            None => file_index_from(files@, path@, 0) is None,
        },
{
    let mut i: usize = 0;
    while i < files.len()
        invariant
            i <= files.len(),
            file_index_from(files@, path@, i as int) == file_index_from(files@, path@, 0),
        decreases files.len() - i,
    {
        if text_eq(files[i].path.as_str(), path) {
            return Some(i);
        }
        i += 1;
    }
    None
}

/// What is left of a run, for the sake of counting its steps down.
pub open spec fn left_to_do(state: AnalyzerView) -> int {
    2 * remaining(state.frames) + (if state.waiting is Some {
        1int
    } else {
        0int
    })
}

impl Analyzer {
    /// Runs the first pass from the entry file `entry` to its end. A file that
    /// the pass asks for is taken from `files`; one that is not among them
    /// counts as unreadable.
    pub fn run(&mut self, entry: String, files: &Vec<LoadedFile>)
        requires
            old(self).wf(),
        ensures
            runs_to(old(self)@, entry@, files@, final(self)@),
            final(self)@ == run_end(old(self)@, entry@, files@),
            final(self).wf(),
            grown(old(self).node_store@, final(self).node_store@),
    {
        let ghost start = analyze_step(self@, entry@, None);
        let ghost first = self.node_store@;
        let mut action = self.analyze(entry, None);
        let ghost mut n: nat = 0;
        loop
            invariant
                self.wf(),
                grown(first, self.node_store@),
                steps(start.0, start.1, files@, n) == (self@, action@),
                action@ matches ActionView::Load(path) ==> self@.waiting matches Some(waiting)
                    && waiting.path == path,
            ensures
                self.wf(),
                grown(first, self.node_store@),
                steps(start.0, start.1, files@, n) == (self@, ActionView::Done),
            decreases
                    unloaded(files@, self.node_store@, 0),
                    left_to_do(self@),
                    (if action@ is Next {
                        1int
                    } else {
                        0int
                    }),
        {
            let ghost before = self@;
            let ghost asked = action@;
            proof {
                lemma_remaining_bounds(before.frames);
                assert(steps(start.0, start.1, files@, n + 1) == respond(before, asked, files@));
            }
            match action {
                Action::Done => {
                    break ;
                },
                Action::Next => {
                    action = self.advance();
                    proof {
                        if before.waiting is None {
                            lemma_advance_leaves_less(before);
                        }
                        lemma_unloaded_grown(files@, before.store, self@.store, 0, None);
                    }
                },
                Action::Load(path) => {
                    let found = find_file(files, path.as_str());
                    match found {
                        Some(at) => {
                            action = self.loaded(Some((&files[at].tree, &files[at].resolutions)));
                        },
                        None => {
                            action = self.loaded(None);
                        },
                    }
                    proof {
                        if self@.frames.len() > before.frames.len() {
                            let at = file_index_from(files@, path@, 0)->0;
                            lemma_unloaded_grown(files@, before.store, self@.store, 0, Some(at));
                        } else {
                            lemma_unloaded_grown(files@, before.store, self@.store, 0, None);
                        }
                    }
                },
            }
            proof {
                n = n + 1;
                lemma_grown_trans(first, before.store, self@.store);
                lemma_remaining_bounds(self@.frames);
            }
        }
        proof {
            assert(runs_to(old(self)@, entry@, files@, self@));
            lemma_run_end(old(self)@, entry@, files@, self@);
        }
    }
}

/// Scans a project whose files were read beforehand.
///
/// `package_answers` holds what the resolver answered to the specifiers of
/// the packages (`i18n_packages::package_specifiers`), `files` the files of
/// the project with the answers to their import specifiers, and `sources` the
/// trees that the keys are read from. A payload without entry files or with
/// an external package source that is not a valid expression is refused.
pub fn scan_files(
    payload: Payload,
    package_answers: &Vec<Resolution>,
    files: &Vec<LoadedFile>,
    sources: &Vec<SourceFile>,
) -> (found: Result<KeyTable, ScanError>)
    ensures
        match found {
            Ok(keys) => {
                &&& payload.entry_paths.len() > 0
                &&& first_invalid_from(payload.externals.deep_view(), 0) is None
                &&& table_wf(keys@)
                &&& keys@ == scan_keys(
                    payload.entry_paths.deep_view(),
                    payload.externals.deep_view(),
                    opt_packages(payload.extend_i18n_packages),
                    package_answers@,
                    files@,
                    sources@,
                )
            },
            Err(ScanError::EmptyEntries) => payload.entry_paths.len() == 0,
            Err(ScanError::InvalidExternal(at)) => payload.entry_paths.len() > 0
                && first_invalid_from(payload.externals.deep_view(), 0) == Some(at as int),
        },
{
    let mut analyzer = match prepare(&payload) {
        Ok(analyzer) => analyzer,
        Err(error) => {
            return Err(error);
        },
    };
    let Payload { tsconfig_path: _, entry_paths, externals, extend_i18n_packages } = payload;
    let ghost entries = entry_paths.deep_view();
    let ghost start = seeded_state(
        externals.deep_view(),
        opt_packages(extend_i18n_packages),
        package_answers@,
    );
    assert(analyzer@.frames =~= Seq::empty());
    assert(analyzer@.store =~= Seq::empty());
    let packages = Analyzer::extend_i18n_packages(extend_i18n_packages, package_answers);
    analyzer.seed(&packages);
    assert(analyzer@ == start);
    let mut i: usize = 0;
    while i < entry_paths.len()
        invariant
            i <= entry_paths.len(),
            entries == entry_paths.deep_view(),
            analyzer.wf(),
            analyzer@ == runs_end(start, entries, i as int, files@),
        decreases entry_paths.len() - i,
    {
        let ghost middle = analyzer@;
        assert(entries[i as int] == entry_paths[i as int]@);
        analyzer.run(entry_paths[i].clone(), files);
        i += 1;
    }
    let ghost last = analyzer@;
    let mut collector = Collector::new(analyzer.node_store);
    collector.collect_keys(sources);
    Ok(collector.i18n_namespaces)
}

} // verus!
