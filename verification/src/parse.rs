//! Parsing the candidate schema text into a generic JSON value.
//!
//! The checker's input is a piece of JSON text.  The external JSON parser
//! turns it into a generic value tree, or rejects it; a rejection of the
//! embedded text means a broken build, so the caller has no recovery path and
//! terminates on it.

use vstd::prelude::*;

verus! {

#[verifier::external_type_specification]
#[verifier::external_body]
pub struct ExValue(serde_json::Value);

#[verifier::external_type_specification]
#[verifier::external_body]
pub struct ExError(serde_json::Error);

/// Whether the external JSON parser accepts a text as one JSON document.
pub uninterp spec fn json_parse_ok(s: Seq<char>) -> bool;

/// Relies on serde_json::from_str for serde_json::Value: it returns Ok
/// exactly on text it accepts as JSON, and what it accepts depends on the
/// text alone.
#[verifier::external_body]
fn parse_json_text(s: &str) -> (r: Result<serde_json::Value, serde_json::Error>)
    ensures
        r is Ok <==> json_parse_ok(s@),
{
    serde_json::from_str::<serde_json::Value>(s)
}

/// Relies on the Display impl of serde_json::Error to describe a parse
/// failure; nothing is assumed of the text it produces.
#[verifier::external_body]
fn parse_error_text(e: &serde_json::Error) -> String {
    e.to_string()
}

/// Why the schema text could not be parsed, as the parser's own display text.
#[derive(Debug)]
pub struct ParseFailure {
    pub message: String,
}

/// Parses candidate schema text into a generic JSON value: the parsed value
/// exactly when the parser accepts the text, and otherwise the failure's
/// description.
pub fn parse_schema_text(text: &str) -> (r: Result<serde_json::Value, ParseFailure>)
    ensures
        r is Ok <==> json_parse_ok(text@),
{
    match parse_json_text(text) {
        Ok(v) => Ok(v),
        Err(e) => {
            let message = parse_error_text(&e);
            Err(ParseFailure { message })
        },
    }
}

} // verus!
