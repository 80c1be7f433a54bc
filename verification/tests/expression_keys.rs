use extenddb_query::expression_keys::{check_expression_names, check_expression_values, check_prefixed_keys};

/// The keys of the object under `field` in a JSON document.
fn object_keys(json: &str, field: &str) -> Vec<String> {
    let value: serde_json::Value = serde_json::from_str(json).unwrap();
    value
        .get(field)
        .and_then(|v| v.as_object())
        .map(|m| m.keys().cloned().collect())
        .unwrap()
}

#[test]
fn names_missing_hash_rejected() {
    let json = r#"{"names":{"a":"real"}}"#;
    let result = check_expression_names(&object_keys(json, "names"));
    assert!(result.is_err());
    assert!(result.unwrap_err().contains("Syntax error; key"));
}

#[test]
fn names_with_hash_accepted() {
    let json = "{\"names\":{\"#a\":\"real\"}}";
    let keys = object_keys(json, "names");
    let result = check_expression_names(&keys);
    assert!(result.is_ok());
    assert!(keys.contains(&"#a".to_string()));
}

#[test]
fn names_empty_rejected() {
    let json = r#"{"names":{}}"#;
    let result = check_expression_names(&object_keys(json, "names"));
    assert!(result.is_err());
    assert!(result.unwrap_err().contains("must not be empty"));
}

#[test]
fn values_missing_colon_rejected() {
    let json = r#"{"values":{"v":{"S":"x"}}}"#;
    let result = check_expression_values(&object_keys(json, "values"));
    assert!(result.is_err());
    assert!(result.unwrap_err().contains("Syntax error; key"));
}

#[test]
fn values_with_colon_accepted() {
    let json = r#"{"values":{":v":{"S":"x"}}}"#;
    let result = check_expression_values(&object_keys(json, "values"));
    assert!(result.is_ok());
}

#[test]
fn invalid_key_message_is_exact() {
    let keys = vec!["#ok".to_string(), "bad".to_string(), "worse".to_string()];
    assert_eq!(
        check_expression_names(&keys).unwrap_err(),
        "ExpressionAttributeNames contains invalid key: Syntax error; key: \"bad\""
    );
}

#[test]
fn empty_message_is_exact() {
    assert_eq!(
        check_expression_values(&Vec::new()).unwrap_err(),
        "ExpressionAttributeValues must not be empty"
    );
}

#[test]
fn empty_key_is_rejected() {
    let keys = vec![String::new()];
    assert_eq!(
        check_prefixed_keys(&keys, '#', "F").unwrap_err(),
        "F contains invalid key: Syntax error; key: \"\""
    );
}

#[test]
fn multibyte_keys_are_checked_by_character() {
    let keys = vec!["#é".to_string(), "é#".to_string()];
    assert_eq!(
        check_prefixed_keys(&keys, '#', "F").unwrap_err(),
        "F contains invalid key: Syntax error; key: \"é#\""
    );
    assert!(check_prefixed_keys(&vec!["ü:".to_string()], 'ü', "F").is_ok());
}

#[test]
fn all_prefixed_keys_are_accepted() {
    let keys = vec![":a".to_string(), ":b".to_string(), ":".to_string()];
    assert!(check_expression_values(&keys).is_ok());
}
