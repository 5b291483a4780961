//! JSON text to and from plain pairs of strings, by way of `serde_json`.
//! Nothing here is proved: each function states what is taken on trust from
//! the call it makes.

use vstd::prelude::*;

verus! {

/// The error type of `serde_json`, carried through as it is.
#[verifier::external_type_specification]
#[verifier::external_body]
pub struct ExJsonError(serde_json::Error);

/// Name and value pairs.
pub type Pairs = Seq<(Seq<char>, Seq<char>)>;

/// Names, each with the fields of its object.
pub type Table = Seq<(Seq<char>, Pairs)>;

/// What `serde_json::from_str` makes of `text` when it is asked for a map
/// from strings to strings: the pairs in the order of their names, or nothing
/// where it reports an error.
pub uninterp spec fn json_string_map(text: Seq<char>) -> Option<Pairs>;

/// The text that `serde_json::to_string_pretty` gives for the map made of
/// `pairs`, or nothing where it reports an error.
pub uninterp spec fn string_map_json(pairs: Pairs) -> Option<Seq<char>>;

/// The text that `serde_json::to_string_pretty` gives for the map of maps
/// made of `table`, or nothing where it reports an error.
pub uninterp spec fn string_table_json(table: Table) -> Option<Seq<char>>;

/// The pairs of `v` as character sequences.
pub open spec fn pairs_view(v: Seq<(String, String)>) -> Pairs {
    Seq::new(v.len(), |i: int| (v[i].0@, v[i].1@))
}

/// The table `v` as character sequences.
pub open spec fn table_view(v: Seq<(String, Vec<(String, String)>)>) -> Table {
    Seq::new(v.len(), |i: int| (v[i].0@, pairs_view(v[i].1@)))
}

/// Calls `serde_json::from_str` for a `BTreeMap<String, String>` and lists
/// the map's pairs. The result is a function of the text alone, and is named,
/// not described.
#[verifier::external_body]
pub(crate) fn parse_string_map(text: &str) -> (r: Result<Vec<(String, String)>, serde_json::Error>)
    ensures
        match r {
            Ok(v) => json_string_map(text@) == Some(pairs_view(v@)),
            Err(_) => json_string_map(text@) is None,
        },
{
    let m: std::collections::BTreeMap<String, String> = serde_json::from_str(text)?;
    Ok(m.into_iter().collect())
}

/// Calls `serde_json::to_string_pretty` on the `BTreeMap` collected from
/// `pairs`. The text is a function of the pairs alone, and is named, not
/// described.
#[verifier::external_body]
pub(crate) fn write_string_map(pairs: &Vec<(String, String)>) -> (r: Result<String, serde_json::Error>)
    ensures
        match r {
            Ok(t) => string_map_json(pairs_view(pairs@)) == Some(t@),
            Err(_) => string_map_json(pairs_view(pairs@)) is None,
        },
{
    let m: std::collections::BTreeMap<&str, &str> = pairs.iter().map(
        |p| (p.0.as_str(), p.1.as_str()),
    ).collect();
    serde_json::to_string_pretty(&m)
}

/// Calls `serde_json::to_string_pretty` on the `BTreeMap` of `BTreeMap`s
/// collected from `table`. The text is a function of the table alone, and is
/// named, not described.
#[verifier::external_body]
pub(crate) fn write_string_table(table: &Vec<(String, Vec<(String, String)>)>) -> (r: Result<
    String,
    serde_json::Error,
>)
    ensures
        match r {
            Ok(t) => string_table_json(table_view(table@)) == Some(t@),
            Err(_) => string_table_json(table_view(table@)) is None,
        },
{
    let m: std::collections::BTreeMap<&str, std::collections::BTreeMap<&str, &str>> =
        table.iter().map(
        |e| (e.0.as_str(), e.1.iter().map(|p| (p.0.as_str(), p.1.as_str())).collect()),
    ).collect();
    serde_json::to_string_pretty(&m)
}

/// The message of a `serde_json::Error`, through its `to_string`. Nothing is
/// claimed of the message.
#[verifier::external_body]
pub(crate) fn message_of(e: &serde_json::Error) -> String {
    e.to_string()
}

} // verus!
