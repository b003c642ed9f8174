//! What the module resolver answered. The resolver itself reads the disk and
//! is run by the caller; the library works on its answers.

use crate::text::{opt_text, text_eq};
use vstd::prelude::*;

verus! {

/// What the resolver made of one specifier.
pub struct Resolution {
    pub specifier: String,
    /// The absolute path that the specifier leads to; `None` when it leads nowhere.
    pub path: Option<String>,
}

/// The path that the first of `resolutions[from..]` names for `specifier`.
pub open spec fn resolved_path_from(resolutions: Seq<Resolution>, specifier: Seq<char>, from: int) -> Option<
    Seq<char>,
>
    decreases resolutions.len() - from,
{
    if from < 0 || from >= resolutions.len() {
        None
    } else if resolutions[from].specifier@ == specifier {
        opt_text(resolutions[from].path)
    } else {
        resolved_path_from(resolutions, specifier, from + 1)
    }
}

/// The path that `specifier` resolves to; `None` when it was not resolved.
pub open spec fn resolved_path(resolutions: Seq<Resolution>, specifier: Seq<char>) -> Option<Seq<char>> {
    resolved_path_from(resolutions, specifier, 0)
}

/// The path that `specifier` resolves to.
pub fn find_resolution<'a>(resolutions: &'a Vec<Resolution>, specifier: &str) -> (path: Option<
    &'a String,
>)
    ensures
        match path {
            Some(text) => resolved_path(resolutions@, specifier@) == Some(text@),
            None => resolved_path(resolutions@, specifier@) is None,
        },
{
    let mut i: usize = 0;
    while i < resolutions.len()
        invariant
            i <= resolutions.len(),
            resolved_path_from(resolutions@, specifier@, i as int) == resolved_path(
                resolutions@,
                specifier@,
            ),
        decreases resolutions.len() - i,
    {
        if text_eq(resolutions[i].specifier.as_str(), specifier) {
            return match &resolutions[i].path {
                Some(text) => Some(text),
                None => None,
            };
        }
        i += 1;
    }
    None
}

} // verus!
