//! The reporting half of the validation pipeline.
//!
//! Driving the external validation engine yields one of three outcomes:
//! construction of a candidate contract failed, validation ran and produced a
//! list of consensus errors, or the validation step itself faulted.  This
//! module fixes the messages owed for each outcome: one line for a
//! construction failure, the extracted and deduplicated lines for a completed
//! validation, and no line at all for a fault, which is deliberately absorbed
//! as "no findings".

use vstd::prelude::*;
use crate::errors::ConsensusError;
use crate::extract::extract_basic_error_messages;
use crate::extract::extracted_messages;
use crate::extract::lemma_extraction_distinct;
use crate::extract::message_views;

verus! {

/// What came of driving the validation engine for one parsed JSON value.
pub enum EngineOutcome {
    /// The engine rejected the value before structural validation ran: no
    /// candidate contract could be built.  Carries the display text of the
    /// engine's own failure description.
    ConstructionFailed(String),
    /// A contract was built and structural validation ran to completion,
    /// finding these errors (none, if the value is valid).
    Validated(Vec<ConsensusError>),
    /// Validation execution itself failed for a reason other than finding
    /// violations.
    ValidationFaulted,
}

/// The messages owed for one engine outcome: exactly the construction
/// failure's own text, the extracted messages of a completed validation, or
/// nothing for an absorbed execution fault.
pub open spec fn outcome_messages(o: EngineOutcome) -> Seq<Seq<char>> {
    match o {
        EngineOutcome::ConstructionFailed(m) => seq![m@],
        EngineOutcome::Validated(errs) => extracted_messages(errs@),
        EngineOutcome::ValidationFaulted => Seq::empty(),
    }
}

/// Turns one engine outcome into the list of user-facing message lines.  An
/// empty list means the input is valid under the embedded configuration.  A
/// construction failure yields exactly one line; an execution fault yields
/// none.
pub fn validate_outcome(outcome: &EngineOutcome) -> (out: Vec<String>)
    ensures
        message_views(out@) == outcome_messages(*outcome),
        *outcome is ConstructionFailed ==> out@.len() == 1,
        *outcome is ValidationFaulted ==> out@.len() == 0,
{
    match outcome {
        EngineOutcome::ConstructionFailed(m) => {
            let mut out: Vec<String> = Vec::new();
            out.push(m.clone());
            proof {
                assert(message_views(out@) =~= outcome_messages(*outcome));
            }
            out
        },
        EngineOutcome::Validated(errs) => extract_basic_error_messages(errs),
        EngineOutcome::ValidationFaulted => {
            let out: Vec<String> = Vec::new();
            proof {
                assert(message_views(out@) =~= outcome_messages(*outcome));
            }
            out
        },
    }
}

/// Every produced message is unique within one run's output, whatever the
/// outcome was.
pub proof fn lemma_outcome_messages_distinct(o: EngineOutcome)
    ensures
        forall|i: int, j: int|
            0 <= i < j < outcome_messages(o).len() ==> outcome_messages(o)[i] != outcome_messages(
                o,
            )[j],
{
    match o {
        EngineOutcome::Validated(errs) => {
            lemma_extraction_distinct(errs@);
        },
        _ => {
        },
    }
}

/// Running the pipeline twice on the same outcome yields the same messages:
/// the result is a function of the input alone, so two runs agree line for
/// line and, in particular, as unordered sets.
pub proof fn lemma_runs_agree(o: EngineOutcome, r1: Seq<Seq<char>>, r2: Seq<Seq<char>>)
    requires
        r1 == outcome_messages(o),
        r2 == outcome_messages(o),
    ensures
        r1 == r2,
        r1.to_set() == r2.to_set(),
{
}

} // verus!
