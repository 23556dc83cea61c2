use contract_check::errors::BasicError;
use contract_check::errors::ConsensusError;
use contract_check::errors::JsonSchemaError;
use contract_check::errors::PathStep;
use contract_check::errors::render_instance_path;
use contract_check::extract::extract_basic_error_messages;

fn schema_error(summary: &str, path: Vec<PathStep>) -> ConsensusError {
    ConsensusError::Basic(BasicError::JsonSchema(JsonSchemaError {
        error_summary: summary.to_string(),
        instance_path: path,
    }))
}

#[test]
fn enum_and_dependency_violations_give_two_distinct_messages() {
    let errors = vec![
        schema_error(
            "4 is not one of [1,2,3]",
            vec![
                PathStep::Property("nft".to_string()),
                PathStep::Property("b".to_string()),
            ],
        ),
        schema_error(
            "2 is less than the minimum of 4",
            vec![
                PathStep::Property("nft".to_string()),
                PathStep::Property("a".to_string()),
            ],
        ),
    ];
    let messages = extract_basic_error_messages(&errors);
    assert_eq!(messages.len(), 2);
    assert!(messages.contains(&"JsonSchemaError: 4 is not one of [1,2,3], Path: /nft/b".to_string()));
    assert!(messages.contains(&"JsonSchemaError: 2 is less than the minimum of 4, Path: /nft/a".to_string()));
    assert_ne!(messages[0], messages[1]);
}

#[test]
fn equal_messages_are_reported_once() {
    let errors = vec![
        schema_error("missing required property", vec![PathStep::Property("nft".to_string())]),
        schema_error("missing required property", vec![PathStep::Property("nft".to_string())]),
    ];
    let messages = extract_basic_error_messages(&errors);
    assert_eq!(
        messages,
        vec!["JsonSchemaError: missing required property, Path: /nft".to_string()],
    );
}

#[test]
fn non_basic_errors_yield_no_message() {
    let errors = vec![ConsensusError::NonBasic, ConsensusError::NonBasic];
    let messages = extract_basic_error_messages(&errors);
    assert!(messages.is_empty());
}

#[test]
fn non_basic_errors_are_dropped_among_basic_ones() {
    let errors = vec![
        ConsensusError::NonBasic,
        ConsensusError::Basic(BasicError::Other("data contract is unsupported".to_string())),
        ConsensusError::NonBasic,
    ];
    let messages = extract_basic_error_messages(&errors);
    assert_eq!(messages, vec!["data contract is unsupported".to_string()]);
}

#[test]
fn root_path_renders_as_empty_string() {
    let errors = vec![schema_error("additional properties are not allowed", vec![])];
    let messages = extract_basic_error_messages(&errors);
    assert_eq!(
        messages,
        vec!["JsonSchemaError: additional properties are not allowed, Path: ".to_string()],
    );
}

#[test]
fn other_basic_error_uses_its_own_display_text() {
    let errors = vec![ConsensusError::Basic(BasicError::Other(
        "document type name is not valid".to_string(),
    ))];
    let messages = extract_basic_error_messages(&errors);
    assert_eq!(messages, vec!["document type name is not valid".to_string()]);
}

#[test]
fn dedup_keeps_first_occurrences_in_order() {
    let errors = vec![
        ConsensusError::Basic(BasicError::Other("b".to_string())),
        ConsensusError::Basic(BasicError::Other("a".to_string())),
        ConsensusError::Basic(BasicError::Other("b".to_string())),
        ConsensusError::Basic(BasicError::Other("c".to_string())),
    ];
    let messages = extract_basic_error_messages(&errors);
    assert_eq!(messages, vec!["b".to_string(), "a".to_string(), "c".to_string()]);
}

#[test]
fn property_names_are_escaped_in_rendered_paths() {
    let path = vec![
        PathStep::Property("a/b".to_string()),
        PathStep::Property("c~d".to_string()),
    ];
    assert_eq!(render_instance_path(&path), "/a~1b/c~0d");
}

#[test]
fn array_indices_render_in_decimal() {
    let path = vec![
        PathStep::Property("enum".to_string()),
        PathStep::Index(0),
        PathStep::Index(10),
        PathStep::Index(1234567890),
    ];
    assert_eq!(render_instance_path(&path), "/enum/0/10/1234567890");
}

#[test]
fn the_largest_index_renders_in_full() {
    let path = vec![PathStep::Index(u64::MAX)];
    assert_eq!(render_instance_path(&path), "/18446744073709551615");
}

#[test]
fn empty_error_list_yields_no_message() {
    let errors: Vec<ConsensusError> = Vec::new();
    let messages = extract_basic_error_messages(&errors);
    assert!(messages.is_empty());
}
