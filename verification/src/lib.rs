//! Validation reporting for a data-contract schema checker.
//!
//! The checker hands a candidate data-contract definition (a JSON object
//! mapping document-type names to JSON-Schema-like definitions) to an
//! external validation engine and reports the findings.  This library holds
//! the verified part of that pipeline: the model of the engine's error
//! taxonomy, the rendering of structural instance paths, the extraction and
//! deduplication of human-readable messages, and the handling of each
//! engine outcome.  The engine itself, and the console reporting, live
//! outside the library.

use vstd::prelude::*;

pub mod errors;
pub mod extract;
pub mod parse;
pub mod pipeline;

verus! {

/// The embedded text of the data contract under test.  Editing this literal
/// and rebuilding is the checker's only configuration mechanism.  It models a
/// document type `nft` whose property `b` is restricted to the values 1, 2
/// and 3, whose property `a` is numeric, where the presence of `b` raises the
/// minimum of `a` to 4, and where no further properties are allowed.
pub const JSON_STRING: &'static str = r#"{"nft":{"type":"object","properties":{"b":{"enum":[1,2,3]},"a":{"type":"number"}},"dependencies":{"b":{"properties":{"a":{"minimum":4}}}},"additionalProperties":false}}"#;

} // verus!
