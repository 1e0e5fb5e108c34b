//! Regular-expression lookups, done by the `regex` crate.
//!
//! What a match yields is the `regex` crate's own semantics (leftmost-first
//! search, Unicode-aware classes such as `\d` and `\s`); the library names
//! those results and states its parsers over the names.

use vstd::prelude::*;

verus! {

/// The text of capture group `group` in the first match of the regular
/// expression `pattern` in `haystack`, by the `regex` crate's rules; `None`
/// when the pattern does not compile, nothing matches, or the group took no
/// part in the match.
pub uninterp spec fn regex_group(pattern: Seq<char>, haystack: Seq<char>, group: nat) -> Option<
    Seq<char>,
>;

/// The text of the named capture group `name` in the first match of
/// `pattern` in `haystack`; `None` as for [`regex_group`].
pub uninterp spec fn regex_named_group(
    pattern: Seq<char>,
    haystack: Seq<char>,
    name: Seq<char>,
) -> Option<Seq<char>>;

/// Whether `pattern` compiles as a `regex` crate regular expression.
pub uninterp spec fn regex_compiles(pattern: Seq<char>) -> bool;

/// `haystack` with every non-overlapping match of `pattern`, leftmost first,
/// replaced by the literal text `replacement`.
pub uninterp spec fn regex_replace_all_literal(
    pattern: Seq<char>,
    haystack: Seq<char>,
    replacement: Seq<char>,
) -> Seq<char>;

/// Compiles `pattern` with `regex::Regex::new`, searches `haystack` with
/// `Regex::captures` and returns the text of group `group` (`Captures::get`).
/// Claimed: the result is the named [`regex_group`] of the arguments.
#[verifier::external_body]
pub(crate) fn capture_group(pattern: &str, haystack: &str, group: usize) -> (r: Option<String>)
    ensures
        r is None <==> regex_group(pattern@, haystack@, group as nat) is None,
        r matches Some(c) ==> regex_group(pattern@, haystack@, group as nat) == Some(c@),
{
    let re = regex::Regex::new(pattern).ok()?;
    let caps = re.captures(haystack)?;
    caps.get(group).map(|m| m.as_str().to_owned())
}

/// As [`capture_group`], for a named group (`Captures::name`).
/// Claimed: the result is the named [`regex_named_group`] of the arguments.
#[verifier::external_body]
pub(crate) fn capture_named(pattern: &str, haystack: &str, name: &str) -> (r: Option<String>)
    ensures
        r is None <==> regex_named_group(pattern@, haystack@, name@) is None,
        r matches Some(c) ==> regex_named_group(pattern@, haystack@, name@) == Some(c@),
{
    let re = regex::Regex::new(pattern).ok()?;
    let caps = re.captures(haystack)?;
    caps.name(name).map(|m| m.as_str().to_owned())
}

/// Compiles `pattern` with `regex::Regex::new` and, when it compiles, replaces
/// every match in `haystack` with the literal `replacement` through
/// `Regex::replace_all` with a closure (so no `$` expansion takes place).
/// Claimed: `None` exactly when the pattern does not compile
/// ([`regex_compiles`]), otherwise the named [`regex_replace_all_literal`].
#[verifier::external_body]
pub(crate) fn replace_all_literal(pattern: &str, haystack: &str, replacement: &str) -> (r: Option<
    String,
>)
    ensures
        r is Some <==> regex_compiles(pattern@),
        r matches Some(t) ==> t@ == regex_replace_all_literal(pattern@, haystack@, replacement@),
{
    let re = regex::Regex::new(pattern).ok()?;
    Some(re.replace_all(haystack, |_: &regex::Captures<'_>| replacement.to_string()).to_string())
}

} // verus!
