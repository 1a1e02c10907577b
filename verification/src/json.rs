use vstd::prelude::*;

verus! {

/// The rows that JSON `text` holds when it is read as an array of arrays
/// of strings, if it can be read so.
pub uninterp spec fn json_rows(text: Seq<char>) -> Option<Seq<Seq<Seq<char>>>>;

/// The JSON text for `rows` as an array of arrays of strings, if they can
/// be written so.
pub uninterp spec fn json_text(rows: Seq<Seq<Seq<char>>>) -> Option<Seq<char>>;

/// `serde_json::Error`, the reason a text or a value was refused. It is
/// passed on without being looked into.
#[verifier::external_type_specification]
#[verifier::external_body]
pub struct ExJsonError(serde_json::Error);

/// Parses with `serde_json::from_str` at the type `Vec<Vec<String>>`.
///
/// Trusted: whether parsing succeeds and what it yields depend on the text
/// alone; both are named by [`json_rows`].
#[verifier::external_body]
pub(crate) fn parse_rows(text: &str) -> (r: Result<Vec<Vec<String>>, serde_json::Error>)
    ensures
        match r {
            Ok(rows) => json_rows(text@) == Some(rows.deep_view()),
            Err(_) => json_rows(text@) is None,
        },
{
    serde_json::from_str(text)
}

/// Serialises with `serde_json::to_string`.
///
/// Trusted: whether serialising succeeds and what it yields depend on the
/// rows alone; both are named by [`json_text`].
#[verifier::external_body]
pub(crate) fn print_rows(rows: &Vec<Vec<String>>) -> (r: Result<String, serde_json::Error>)
    ensures
        match r {
            Ok(text) => json_text(rows.deep_view()) == Some(text@),
            Err(_) => json_text(rows.deep_view()) is None,
        },
{
    serde_json::to_string(rows)
}

} // verus!
