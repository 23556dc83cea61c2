use contract_check::JSON_STRING;
use contract_check::parse::parse_schema_text;

#[test]
fn embedded_schema_text_parses() {
    let parsed = parse_schema_text(JSON_STRING);
    let value = parsed.expect("the embedded schema text must be valid JSON");
    let nft = value.get("nft").expect("the schema defines the document type nft");
    assert_eq!(
        nft.get("type").and_then(|t| t.as_str()),
        Some("object"),
    );
    assert_eq!(
        nft.get("additionalProperties").and_then(|p| p.as_bool()),
        Some(false),
    );
    let b_enum = nft
        .get("properties")
        .and_then(|p| p.get("b"))
        .and_then(|b| b.get("enum"))
        .and_then(|e| e.as_array())
        .expect("property b is an enumeration");
    let values: Vec<i64> = b_enum.iter().filter_map(|v| v.as_i64()).collect();
    assert_eq!(values, vec![1, 2, 3]);
}

#[test]
fn syntactically_invalid_text_is_rejected_before_validation() {
    let parsed = parse_schema_text(r#"{"nft": {"type": }"#);
    assert!(parsed.is_err());
    assert!(!parsed.unwrap_err().message.is_empty());
}

#[test]
fn a_json_value_of_any_shape_parses() {
    assert!(parse_schema_text("[1, 2, 3]").is_ok());
    assert!(parse_schema_text("42").is_ok());
    assert!(parse_schema_text("null").is_ok());
}

#[test]
fn empty_text_is_rejected() {
    assert!(parse_schema_text("").is_err());
}
