//! The search of the process and app lists: a row is shown when no search is
//! active, or when the query occurs in one of its texts, case aside.

use vstd::prelude::*;

use crate::text::{contains_text, occurs_at, text_contains};

verus! {

/// What `str::to_lowercase` gives for a text: its Unicode lowercase mapping.
pub uninterp spec fn lowercase_of(s: Seq<char>) -> Seq<char>;

/// `str::to_lowercase`: the text with every character replaced by its
/// Unicode lowercase mapping. The contract names the result; it depends on
/// the text alone.
#[verifier::external_body]
fn to_lowercase(s: &str) -> (r: String)
    ensures
        r@ == lowercase_of(s@),
{
    s.to_lowercase()
}

/// A process row with the given texts is shown for `query`.
pub open spec fn process_shown(search_mode: bool, query: Seq<char>, name: Seq<char>, commandline: Seq<char>) -> bool {
    !search_mode || text_contains(name, query) || text_contains(commandline, query)
}

/// An app row with the given texts is shown for `query`.
pub open spec fn app_shown(
    search_mode: bool,
    query: Seq<char>,
    name: Seq<char>,
    id: Option<Seq<char>>,
    description: Seq<char>,
) -> bool {
    ||| !search_mode
    ||| text_contains(name, query)
    ||| (id matches Some(i) && text_contains(i, query))
    ||| text_contains(description, query)
}

/// Whether a process row with the already lowercased texts is shown for the
/// lowercased `query`.
pub fn process_shown_lowered(search_mode: bool, query: &str, name: &str, commandline: &str) -> (r: bool)
    ensures
        r == process_shown(search_mode, query@, name@, commandline@),
{
    !search_mode || contains_text(name, query) || contains_text(commandline, query)
}

/// Whether a process row is shown: no search is active, or the query occurs
/// in its name or its command line, both sides lowercased.
pub fn process_search_filter(search_mode: bool, query: &str, name: &str, commandline: &str) -> (r: bool)
    ensures
        r == process_shown(
            search_mode,
            lowercase_of(query@),
            lowercase_of(name@),
            lowercase_of(commandline@),
        ),
{
    let q = to_lowercase(query);
    let n = to_lowercase(name);
    let c = to_lowercase(commandline);
    process_shown_lowered(search_mode, q.as_str(), n.as_str(), c.as_str())
}

/// Whether an app row with the already lowercased texts is shown for the
/// lowercased `query`.
pub fn app_shown_lowered(
    search_mode: bool,
    query: &str,
    name: &str,
    id: Option<&str>,
    description: &str,
) -> (r: bool)
    ensures
        r == app_shown(
            search_mode,
            query@,
            name@,
            match id {
                Some(i) => Some(i@),
                None => None,
            },
            description@,
        ),
{
    !search_mode || contains_text(name, query) || match id {
        Some(i) => contains_text(i, query),
        None => false,
    } || contains_text(description, query)
}

/// Whether an app row is shown: no search is active, or the query occurs in
/// its name, its ID or its description (empty when it has none), all
/// lowercased.
pub fn app_search_filter(
    search_mode: bool,
    query: &str,
    name: &str,
    id: Option<&str>,
    description: Option<&str>,
) -> (r: bool)
    ensures
        r == app_shown(
            search_mode,
            lowercase_of(query@),
            lowercase_of(name@),
            match id {
                Some(i) => Some(lowercase_of(i@)),
                None => None,
            },
            match description {
                Some(d) => lowercase_of(d@),
                None => lowercase_of(Seq::empty()),
            },
        ),
{
    let q = to_lowercase(query);
    let n = to_lowercase(name);
    let i: Option<String> = match id {
        Some(s) => Some(to_lowercase(s)),
        None => None,
    };
    proof {
        reveal_strlit("");
    }
    assert(""@ =~= Seq::<char>::empty());
    let d = match description {
        Some(s) => to_lowercase(s),
        None => to_lowercase(""),
    };
    let i_ref: Option<&str> = match &i {
        Some(s) => Some(s.as_str()),
        None => None,
    };
    app_shown_lowered(search_mode, q.as_str(), n.as_str(), i_ref, d.as_str())
}

/// Every text contains itself and the empty text.
proof fn lemma_contains_self_and_empty(t: Seq<char>)
    ensures
        text_contains(t, t),
        text_contains(t, Seq::empty()),
{
    assert(t.subrange(0, t.len() as int) =~= t);
    assert(occurs_at(t, t, 0));
    assert(t.subrange(0, 0) =~= Seq::<char>::empty());
    assert(occurs_at(t, Seq::empty(), 0));
}

/// A process row is shown exactly when no search is active or the query
/// occurs in its name or in its command line; so the empty query shows every
/// row and a row's own name finds it.
pub proof fn lemma_process_rows_shown(
    search_mode: bool,
    query: Seq<char>,
    name: Seq<char>,
    commandline: Seq<char>,
)
    ensures
        !search_mode ==> process_shown(search_mode, query, name, commandline),
        (exists|i: int| occurs_at(name, query, i)) ==> process_shown(search_mode, query, name, commandline),
        (exists|i: int| occurs_at(commandline, query, i)) ==> process_shown(
            search_mode,
            query,
            name,
            commandline,
        ),
        search_mode && process_shown(search_mode, query, name, commandline) ==> (exists|i: int|
            occurs_at(name, query, i)) || (exists|i: int| occurs_at(commandline, query, i)),
        process_shown(search_mode, Seq::empty(), name, commandline),
        process_shown(search_mode, name, name, commandline),
{
    lemma_contains_self_and_empty(name);
}

/// An app row is shown exactly when no search is active or the query occurs
/// in its name, its ID (if it has one) or its description; so the empty
/// query shows every row and a row's own name finds it.
pub proof fn lemma_app_rows_shown(
    search_mode: bool,
    query: Seq<char>,
    name: Seq<char>,
    id: Option<Seq<char>>,
    description: Seq<char>,
)
    ensures
        !search_mode ==> app_shown(search_mode, query, name, id, description),
        (exists|i: int| occurs_at(name, query, i)) ==> app_shown(search_mode, query, name, id, description),
        (id matches Some(t) && exists|i: int| occurs_at(t, query, i)) ==> app_shown(
            search_mode,
            query,
            name,
            id,
            description,
        ),
        (exists|i: int| occurs_at(description, query, i)) ==> app_shown(
            search_mode,
            query,
            name,
            id,
            description,
        ),
        search_mode && app_shown(search_mode, query, name, id, description) ==> {
            ||| exists|i: int| occurs_at(name, query, i)
            ||| (id matches Some(t) && exists|i: int| occurs_at(t, query, i))
            ||| exists|i: int| occurs_at(description, query, i)
        },
        app_shown(search_mode, Seq::empty(), name, id, description),
        app_shown(search_mode, name, name, id, description),
{
    lemma_contains_self_and_empty(name);
}

} // verus!
