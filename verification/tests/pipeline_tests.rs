use contract_check::errors::BasicError;
use contract_check::errors::ConsensusError;
use contract_check::pipeline::EngineOutcome;
use contract_check::pipeline::validate_outcome;

#[test]
fn construction_failure_yields_exactly_its_one_message() {
    let outcome = EngineOutcome::ConstructionFailed(
        "invalid data contract structure".to_string(),
    );
    let messages = validate_outcome(&outcome);
    assert_eq!(messages, vec!["invalid data contract structure".to_string()]);
}

#[test]
fn validation_fault_is_absorbed_as_no_findings() {
    let outcome = EngineOutcome::ValidationFaulted;
    let messages = validate_outcome(&outcome);
    assert!(messages.is_empty());
}

#[test]
fn validation_without_findings_yields_no_message() {
    let outcome = EngineOutcome::Validated(Vec::new());
    let messages = validate_outcome(&outcome);
    assert!(messages.is_empty());
}

#[test]
fn validation_findings_are_extracted_and_deduplicated() {
    let outcome = EngineOutcome::Validated(vec![
        ConsensusError::Basic(BasicError::Other("first finding".to_string())),
        ConsensusError::Basic(BasicError::Other("first finding".to_string())),
        ConsensusError::NonBasic,
        ConsensusError::Basic(BasicError::Other("second finding".to_string())),
    ]);
    let messages = validate_outcome(&outcome);
    assert_eq!(
        messages,
        vec!["first finding".to_string(), "second finding".to_string()],
    );
}

#[test]
fn two_runs_on_the_same_input_agree() {
    let outcome = EngineOutcome::Validated(vec![
        ConsensusError::Basic(BasicError::Other("a finding".to_string())),
        ConsensusError::NonBasic,
        ConsensusError::Basic(BasicError::Other("another finding".to_string())),
        ConsensusError::Basic(BasicError::Other("a finding".to_string())),
    ]);
    let first = validate_outcome(&outcome);
    let second = validate_outcome(&outcome);
    assert_eq!(first, second);
}
