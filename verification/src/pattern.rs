//! The two tests on names that the first pass makes: whether a path is that of
//! a script, and whether an import specifier names an external package.

use crate::text::{chars_of, text_concat};
use regex::Regex;
use vstd::prelude::*;

verus! {

#[verifier::external_type_specification]
#[verifier::external_body]
pub struct ExRegex(regex::Regex);

#[verifier::external_type_specification]
#[verifier::external_body]
pub struct ExRegexError(regex::Error);

/// Whether `regex::Regex::new` accepts `pattern`.
pub uninterp spec fn regex_compiles(pattern: Seq<char>) -> bool;

/// The pattern that a compiled expression was made from: what
/// `regex::Regex::as_str` returns for it.
pub uninterp spec fn regex_text(regex: Regex) -> Seq<char>;

/// Whether a compiled expression was made by `regex::Regex::new`, that is
/// from its pattern alone, with every option of the builder left as it comes.
pub uninterp spec fn regex_default(regex: Regex) -> bool;

/// Whether the expression that `regex::Regex::new` makes of `pattern` matches
/// somewhere in `haystack`: what `regex::Regex::is_match` returns for it.
pub uninterp spec fn regex_is_match(pattern: Seq<char>, haystack: Seq<char>) -> bool;

/// Calls `regex::Regex::new`. The contract gives a name to whether the pattern
/// is accepted, and says of an accepted pattern that the compiled expression
/// reports it as its own and was made with no option set.
#[verifier::external_body]
pub(crate) fn compile(pattern: &str) -> (compiled: Result<Regex, regex::Error>)
    ensures
        compiled is Ok == regex_compiles(pattern@),
        compiled matches Ok(regex) ==> regex_text(regex) == pattern@ && regex_default(regex),
{
    Regex::new(pattern)
}

/// Calls `regex::Regex::is_match` on an expression that was made with no
/// option set. The contract gives the answer its name: for such an expression
/// it depends on the pattern and on the haystack alone.
#[verifier::external_body]
pub(crate) fn is_match(regex: &Regex, haystack: &str) -> (found: bool)
    requires
        regex_default(*regex),
    ensures
        found == regex_is_match(regex_text(*regex), haystack@),
{
    regex.is_match(haystack)
}

/// The pattern that an external package source stands for: the source itself,
/// or the source followed by a path below it, and nothing else.
pub open spec fn external_pattern(source: Seq<char>) -> Seq<char> {
    "^"@ + source + "((!?/).*)?$"@
}

/// The compiled expressions of the external packages of a run. Each one was
/// made by `compile`, from its pattern alone.
pub struct Externals {
    list: Vec<Regex>,
}

impl Externals {
    #[verifier::type_invariant]
    spec fn made_by_compile(self) -> bool {
        forall|i: int| 0 <= i < self.list@.len() ==> regex_default(#[trigger] self.list@[i])
    }
}

impl View for Externals {
    type V = Seq<Seq<char>>;

    /// The patterns of the expressions, in order.
    closed spec fn view(&self) -> Seq<Seq<char>> {
        regex_texts(self.list@)
    }
}

/// The patterns of a list of compiled expressions.
spec fn regex_texts(externals: Seq<Regex>) -> Seq<Seq<char>> {
    externals.map_values(|r: Regex| regex_text(r))
}

/// Whether one of `patterns[from..]` matches `specifier`.
pub open spec fn any_match_from(patterns: Seq<Seq<char>>, specifier: Seq<char>, from: int) -> bool
    decreases patterns.len() - from,
{
    if from < 0 || from >= patterns.len() {
        false
    } else {
        regex_is_match(patterns[from], specifier) || any_match_from(patterns, specifier, from + 1)
    }
}

/// Whether `specifier` names an external package: one of `patterns` matches it.
pub open spec fn is_external(patterns: Seq<Seq<char>>, specifier: Seq<char>) -> bool {
    any_match_from(patterns, specifier, 0)
}

/// The first of `sources[from..]` whose pattern is not accepted.
pub open spec fn first_invalid_from(sources: Seq<Seq<char>>, from: int) -> Option<int>
    decreases sources.len() - from,
{
    if from < 0 || from >= sources.len() {
        None
    } else if !regex_compiles(external_pattern(sources[from])) {
        Some(from)
    } else {
        first_invalid_from(sources, from + 1)
    }
}

/// The patterns of `sources[from..]`.
pub open spec fn external_patterns_from(sources: Seq<Seq<char>>, from: int) -> Seq<Seq<char>>
    decreases sources.len() - from,
{
    if from < 0 || from >= sources.len() {
        Seq::empty()
    } else {
        seq![external_pattern(sources[from])] + external_patterns_from(sources, from + 1)
    }
}

/// The patterns of all `sources`.
pub open spec fn external_patterns(sources: Seq<Seq<char>>) -> Seq<Seq<char>> {
    external_patterns_from(sources, 0)
}

/// Compiles the pattern of each external package source. The answer is the
/// place of the first source whose pattern is not accepted, if there is one.
pub fn compile_externals(sources: &Vec<String>) -> (compiled: Result<Externals, usize>)
    ensures
        match compiled {
            Ok(externals) => first_invalid_from(sources.deep_view(), 0) is None && externals@
                == external_patterns(sources.deep_view()),
            Err(at) => first_invalid_from(sources.deep_view(), 0) == Some(at as int),
        },
{
    let ghost views = sources.deep_view();
    let mut list: Vec<Regex> = Vec::new();
    let mut i: usize = 0;
    while i < sources.len()
        invariant
            i <= sources.len(),
            views == sources.deep_view(),
            first_invalid_from(views, i as int) == first_invalid_from(views, 0),
            regex_texts(list@) + external_patterns_from(views, i as int) == external_patterns(views),
            forall|k: int| 0 <= k < list@.len() ==> regex_default(#[trigger] list@[k]),
        decreases sources.len() - i,
    {
        assert(views[i as int] == sources[i as int]@);
        let head = text_concat("^", sources[i].as_str());
        let pattern = text_concat(head.as_str(), "((!?/).*)?$");
        assert(pattern@ == external_pattern(views[i as int]));
        let ghost before = regex_texts(list@);
        match compile(pattern.as_str()) {
            Ok(regex) => {
                list.push(regex);
                assert(regex_texts(list@) =~= before.push(pattern@));
                assert(before.push(pattern@) + external_patterns_from(views, i + 1) =~= before
                    + external_patterns_from(views, i as int));
            },
            Err(_) => {
                return Err(i);
            },
        }
        i += 1;
    }
    assert(regex_texts(list@) + Seq::<Seq<char>>::empty() =~= regex_texts(list@));
    Ok(Externals { list })
}

/// Whether `specifier` names an external package.
pub fn matches_external(externals: &Externals, specifier: &str) -> (external: bool)
    ensures
        external == is_external(externals@, specifier@),
{
    proof {
        use_type_invariant(externals);
    }
    let ghost patterns = regex_texts(externals.list@);
    let mut i: usize = 0;
    while i < externals.list.len()
        invariant
            i <= externals.list.len(),
            patterns == regex_texts(externals.list@),
            forall|k: int|
                0 <= k < externals.list@.len() ==> regex_default(#[trigger] externals.list@[k]),
            any_match_from(patterns, specifier@, i as int) == any_match_from(
                patterns,
                specifier@,
                0,
            ),
        decreases externals.list.len() - i,
    {
        assert(patterns[i as int] == regex_text(externals.list[i as int]));
        if is_match(&externals.list[i], specifier) {
            return true;
        }
        i += 1;
    }
    false
}

/// Whether `text` ends with `suffix` and has something before it.
pub open spec fn ends_with(text: Seq<char>, suffix: Seq<char>) -> bool {
    suffix.len() < text.len() && text.subrange(text.len() - suffix.len(), text.len() as int)
        == suffix
}

/// Whether no line break stands in `text[..end]`.
pub open spec fn one_line(text: Seq<char>, end: int) -> bool {
    forall|i: int| 0 <= i < end && i < text.len() ==> text[i] != '\n'
}

/// Whether `path` is a name, free of line breaks, followed by `suffix`.
pub open spec fn has_extension(path: Seq<char>, suffix: Seq<char>) -> bool {
    ends_with(path, suffix) && one_line(path, path.len() - suffix.len())
}

/// Whether `path` is the path of a script: a name followed by `.ts`, `.tsx`,
/// `.js` or `.jsx`.
pub open spec fn is_script_path(path: Seq<char>) -> bool {
    ||| has_extension(path, seq!['.', 't', 's'])
    ||| has_extension(path, seq!['.', 't', 's', 'x'])
    ||| has_extension(path, seq!['.', 'j', 's'])
    ||| has_extension(path, seq!['.', 'j', 's', 'x'])
}

fn check_extension(path: &Vec<char>, suffix: &Vec<char>) -> (ok: bool)
    ensures
        ok == has_extension(path@, suffix@),
{
    if suffix.len() >= path.len() {
        return false;
    }
    let start = path.len() - suffix.len();
    let mut k: usize = 0;
    while k < suffix.len()
        invariant
            start == path.len() - suffix.len(),
            suffix.len() < path.len(),
            k <= suffix.len(),
            forall|j: int| 0 <= j < k ==> path[start + j] == suffix[j],
        decreases suffix.len() - k,
    {
        if path[start + k] != suffix[k] {
            assert(path@.subrange(start as int, path.len() as int)[k as int] != suffix@[k as int]);
            return false;
        }
        k += 1;
    }
    assert(path@.subrange(start as int, path.len() as int) =~= suffix@);
    let mut i: usize = 0;
    while i < start
        invariant
            i <= start,
            start == path.len() - suffix.len(),
            forall|j: int| 0 <= j < i ==> path[j] != '\n',
        decreases start - i,
    {
        if path[i] == '\n' {
            assert(path@[i as int] == '\n');
            assert(!one_line(path@, path@.len() - suffix@.len()));
            return false;
        }
        i += 1;
    }
    true
}

/// Whether `path` is the path of a script.
pub fn script_path(path: &str) -> (script: bool)
    ensures
        script == is_script_path(path@),
{
    let chars = chars_of(path);
    let ts: Vec<char> = vec!['.', 't', 's'];
    let tsx: Vec<char> = vec!['.', 't', 's', 'x'];
    let js: Vec<char> = vec!['.', 'j', 's'];
    let jsx: Vec<char> = vec!['.', 'j', 's', 'x'];
    assert(ts@ =~= seq!['.', 't', 's']);
    assert(tsx@ =~= seq!['.', 't', 's', 'x']);
    assert(js@ =~= seq!['.', 'j', 's']);
    assert(jsx@ =~= seq!['.', 'j', 's', 'x']);
    check_extension(&chars, &ts) || check_extension(&chars, &tsx) || check_extension(&chars, &js)
        || check_extension(&chars, &jsx)
}

} // verus!
