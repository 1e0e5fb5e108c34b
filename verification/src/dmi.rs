//! Memory module information from `dmidecode --type 17 -q` output.
//!
//! Each blank-line separated record of the output is read with nparse's
//! indented-text parser, whose JSON document is then queried with serde_json.

use vstd::prelude::*;
use vstd::utf8::{decode_utf8, valid_utf8};

use crate::text::{chars_of, lemma_split_pattern_nonempty, same_text, split_pattern, split_pattern_ranges};
use vstd::string::StrSliceExecFns;
use nparse::IndentToJson;

verus! {

/// The top-level shape of a JSON document.
#[derive(Debug, Clone, Copy, PartialEq, Eq, Structural)]
pub enum JsonShape {
    Null,
    Bool,
    Number,
    Text,
    Array,
    Object,
}

/// The shape of the JSON document that nparse's `IndentToJson::indent_to_json`
/// makes of `chunk`; `Null` when it fails.
pub uninterp spec fn indented_shape(chunk: Seq<char>) -> JsonShape;

/// The text at `document[section][key]` of the JSON document that nparse
/// makes of `chunk`, when that entry is a JSON string.
pub uninterp spec fn indented_field(chunk: Seq<char>, section: Seq<char>, key: Seq<char>) -> Option<
    Seq<char>,
>;

/// Parses `chunk` with `nparse::IndentToJson::indent_to_json` and tells the
/// variant of the `serde_json::Value` apart (a failed parse counts as `Null`).
/// Claimed: the result is the named [`indented_shape`]; as the parser's source
/// shows, a document is `Null` (empty input), an array or an object.
#[verifier::external_body]
fn document_shape(chunk: &str) -> (r: JsonShape)
    ensures
        r == indented_shape(chunk@),
        r is Null || r is Array || r is Object,
{
    match chunk.to_string().indent_to_json() {
        Ok(serde_json::Value::Null) => JsonShape::Null,
        Ok(serde_json::Value::Bool(_)) => JsonShape::Bool,
        Ok(serde_json::Value::Number(_)) => JsonShape::Number,
        Ok(serde_json::Value::String(_)) => JsonShape::Text,
        Ok(serde_json::Value::Array(_)) => JsonShape::Array,
        Ok(serde_json::Value::Object(_)) => JsonShape::Object,
        Err(_) => JsonShape::Null,
    }
}

/// Parses `chunk` with `nparse::IndentToJson::indent_to_json` and reads
/// `value[section][key]` with serde_json's `Index` and `Value::as_str`.
/// Claimed: the result is the named [`indented_field`].
#[verifier::external_body]
fn document_field(chunk: &str, section: &str, key: &str) -> (r: Option<String>)
    ensures
        r is None <==> indented_field(chunk@, section@, key@) is None,
        r matches Some(t) ==> indented_field(chunk@, section@, key@) == Some(t@),
{
    let value = chunk.to_string().indent_to_json().unwrap_or(serde_json::Value::Null);
    value[section][key].as_str().map(|s| s.to_owned())
}

/// The keys of a memory module record, in sorted order.
pub open spec fn ram_keys() -> Seq<Seq<char>> {
    seq![
        "Bank Locator"@,
        "Form Factor"@,
        "Locator"@,
        "Manufacturer"@,
        "Size"@,
        "Speed"@,
        "Type"@,
        "Type Detail"@,
    ]
}

/// The value of `key` in the `Memory Device` section of a record, or
/// `Unknown`.
pub open spec fn device_field(chunk: Seq<char>, key: Seq<char>) -> Seq<char> {
    match indented_field(chunk, "Memory Device"@, key) {
        Some(v) => v,
        None => "Unknown"@,
    }
}

/// The record is a JSON object for an installed module: its size is given
/// and is not `No Module Installed`.
pub open spec fn installed_module(chunk: Seq<char>) -> bool {
    &&& indented_shape(chunk) is Object
    &&& indented_field(chunk, "Memory Device"@, "Size"@) matches Some(size)
    &&& size != "No Module Installed"@
}

/// The fields of the module record `chunk`, keyed as [`ram_keys`].
pub open spec fn module_fields(chunk: Seq<char>) -> Seq<(Seq<char>, Seq<char>)> {
    ram_keys().map_values(|k: Seq<char>| (k, device_field(chunk, k)))
}

/// The records of the installed modules among `chunks`, in order.
pub open spec fn modules_of(chunks: Seq<Seq<char>>) -> Seq<Seq<(Seq<char>, Seq<char>)>>
    decreases chunks.len(),
{
    if chunks.len() == 0 {
        Seq::empty()
    } else {
        let rest = modules_of(chunks.drop_last());
        if installed_module(chunks.last()) {
            rest.push(module_fields(chunks.last()))
        } else {
            rest
        }
    }
}

/// The text of the command output: its UTF-8 decoding, or empty when it is
/// not valid UTF-8.
pub open spec fn output_text(stdout: Seq<u8>) -> Seq<char> {
    if valid_utf8(stdout) {
        decode_utf8(stdout)
    } else {
        Seq::empty()
    }
}

/// The module records that `dmidecode --type 17 -q` printed as `stdout`.
pub open spec fn ram_modules(stdout: Seq<u8>) -> Seq<Seq<(Seq<char>, Seq<char>)>> {
    modules_of(split_pattern(output_text(stdout), "\n\n"@))
}

/// The views of a list of records.
pub open spec fn record_views(r: Seq<Vec<(String, String)>>) -> Seq<Seq<(Seq<char>, Seq<char>)>> {
    r.map_values(|rec: Vec<(String, String)>| rec@.map_values(|e: (String, String)| (e.0@, e.1@)))
}

/// The fields of one installed module record.
fn module_record(chunk: &str) -> (r: Vec<(String, String)>)
    ensures
        r@.map_values(|e: (String, String)| (e.0@, e.1@)) == module_fields(chunk@),
{
    let keys: [&str; 8] = [
        "Bank Locator",
        "Form Factor",
        "Locator",
        "Manufacturer",
        "Size",
        "Speed",
        "Type",
        "Type Detail",
    ];
    assert(keys@.map_values(|k: &str| k@) =~= ram_keys());
    let mut out: Vec<(String, String)> = Vec::new();
    let mut i: usize = 0;
    while i < 8
        invariant
            i <= 8,
            keys@.map_values(|k: &str| k@) == ram_keys(),
            out@.map_values(|e: (String, String)| (e.0@, e.1@)) == module_fields(chunk@).take(
                i as int,
            ),
        decreases 8 - i,
    {
        let value = match document_field(chunk, "Memory Device", keys[i]) {
            Some(v) => v,
            None => "Unknown".to_owned(),
        };
        assert(ram_keys()[i as int] == keys@[i as int]@);
        assert(value@ == device_field(chunk@, keys@[i as int]@));
        assert(module_fields(chunk@)[i as int] == (keys@[i as int]@, value@));
        let ghost before = out@;
        out.push((keys[i].to_owned(), value));
        assert(out@.map_values(|e: (String, String)| (e.0@, e.1@)) =~= before.map_values(
            |e: (String, String)| (e.0@, e.1@),
        ).push((keys@[i as int]@, value@)));
        assert(out@.map_values(|e: (String, String)| (e.0@, e.1@)) =~= module_fields(chunk@).take(
            i + 1,
        ));
        i = i + 1;
    }
    assert(module_fields(chunk@).take(8) =~= module_fields(chunk@));
    out
}

/// Whether the record `chunk` is a JSON object for an installed module.
fn is_installed_module(chunk: &str) -> (r: bool)
    ensures
        r == installed_module(chunk@),
{
    match document_shape(chunk) {
        JsonShape::Object => match document_field(chunk, "Memory Device", "Size") {
            Some(size) => !same_text(size.as_str(), "No Module Installed"),
            None => false,
        },
        _ => false,
    }
}

/// The memory modules that `dmidecode --type 17 -q` reports in `stdout`: for
/// each installed module its locator, bank locator, size, form factor, type,
/// type detail, speed and manufacturer (`Unknown` where not given), keyed in
/// sorted order.
pub fn ram_info(stdout: Vec<u8>) -> (r: Vec<Vec<(String, String)>>)
    ensures
        record_views(r@) == ram_modules(stdout@),
{
    let ghost bytes = stdout@;
    let text = match String::from_utf8(stdout) {
        Ok(t) => t,
        Err(_) => String::new(),
    };
    assert(text@ == output_text(bytes));
    let cs = chars_of(text.as_str());
    let sep = chars_of("\n\n");
    proof {
        reveal_strlit("\n\n");
    }
    let chunks = split_pattern_ranges(&cs, &sep);
    let ghost all = split_pattern(cs@, "\n\n"@);
    let s = text.as_str();
    let mut out: Vec<Vec<(String, String)>> = Vec::new();
    let mut i: usize = 0;
    while i < chunks.len()
        invariant
            i <= chunks@.len() == all.len(),
            s@ == cs@,
            cs@ == output_text(bytes),
            all == split_pattern(cs@, "\n\n"@),
            forall|j: int|
                #![trigger chunks@[j]]
                0 <= j < chunks@.len() ==> chunks@[j].0 <= chunks@[j].1 <= cs@.len()
                    && cs@.subrange(chunks@[j].0 as int, chunks@[j].1 as int) == all[j],
            record_views(out@) == modules_of(all.take(i as int)),
        decreases chunks.len() - i,
    {
        let chunk = s.substring_char(chunks[i].0, chunks[i].1);
        assert(all.take(i + 1).drop_last() =~= all.take(i as int));
        assert(all.take(i + 1).last() == chunk@);
        if is_installed_module(chunk) {
            let rec = module_record(chunk);
            let ghost before = out@;
            out.push(rec);
            assert(record_views(out@) =~= record_views(before).push(
                rec@.map_values(|e: (String, String)| (e.0@, e.1@)),
            ));
        }
        i = i + 1;
    }
    assert(all.take(i as int) =~= all);
    out
}

} // verus!
