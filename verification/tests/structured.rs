use file_converter::error::ConvertError;
use file_converter::structured::{
    json_from, json_to_yaml, json_written, yaml_from, yaml_to_json, yaml_written,
};

fn normalized(document: &str) -> String {
    let tree: serde_json::Value = serde_json::from_str(document).unwrap();
    serde_json::to_string_pretty(&tree).unwrap()
}

fn there_and_back(document: &str) -> String {
    let yaml = json_to_yaml(document).unwrap();
    yaml_to_json(&yaml).unwrap()
}

#[test]
fn json_object_becomes_yaml_mapping() {
    assert_eq!(json_to_yaml("{\"name\": \"x\", \"n\": 3}").unwrap(), "n: 3\nname: x\n");
}

#[test]
fn json_array_becomes_yaml_sequence() {
    assert_eq!(json_to_yaml("[1, true, null, \"a\"]").unwrap(), "- 1\n- true\n- null\n- a\n");
}

#[test]
fn yaml_mapping_becomes_indented_json() {
    assert_eq!(
        yaml_to_json("name: x\nitems:\n  - 1\n  - 2\n").unwrap(),
        "{\n  \"name\": \"x\",\n  \"items\": [\n    1,\n    2\n  ]\n}"
    );
}

#[test]
fn yaml_scalar_becomes_json_scalar() {
    assert_eq!(yaml_to_json("42").unwrap(), "42");
    assert_eq!(yaml_to_json("hello").unwrap(), "\"hello\"");
    assert_eq!(yaml_to_json("~").unwrap(), "null");
}

#[test]
fn malformed_json_is_a_parse_error() {
    assert!(matches!(json_to_yaml("{\"a\": "), Err(ConvertError::ParseError(_))));
    assert!(matches!(json_to_yaml(""), Err(ConvertError::ParseError(_))));
    assert!(matches!(json_to_yaml("{'a': 1}"), Err(ConvertError::ParseError(_))));
}

#[test]
fn malformed_yaml_is_a_parse_error() {
    assert!(matches!(yaml_to_json("a: [1, 2"), Err(ConvertError::ParseError(_))));
    assert!(matches!(yaml_to_json("a: b: c: d"), Err(ConvertError::ParseError(_))));
}

#[test]
fn yaml_that_refers_to_nothing_is_a_parse_error() {
    assert!(matches!(yaml_to_json("a: *missing"), Err(ConvertError::ParseError(_))));
}

#[test]
fn yaml_that_refers_to_itself_is_a_parse_error() {
    assert!(matches!(yaml_to_json("&a [*a]"), Err(ConvertError::ParseError(_))));
}

#[test]
fn yaml_number_as_key_is_written_as_its_text() {
    assert_eq!(yaml_to_json("1: a").unwrap(), "{\n  \"1\": \"a\"\n}");
}

#[test]
fn yaml_with_more_than_one_document_is_a_parse_error() {
    assert!(matches!(yaml_to_json("a: 1\n---\nb: 2\n"), Err(ConvertError::ParseError(_))));
}

#[test]
fn yaml_with_a_sequence_as_key_is_a_serialize_error() {
    assert!(matches!(yaml_to_json("? [1, 2]\n: x"), Err(ConvertError::SerializeError(_))));
    assert!(matches!(yaml_to_json("? [1, 2]\n: x\n"), Err(ConvertError::SerializeError(_))));
    assert_eq!(
        yaml_to_json("a:\n  ? {b: c}\n  : x\n"),
        Err(ConvertError::SerializeError("key must be a string".to_string()))
    );
}

#[test]
fn yaml_with_nothing_as_key_is_a_serialize_error() {
    assert!(matches!(yaml_to_json("~: x"), Err(ConvertError::SerializeError(_))));
}

#[test]
fn parse_error_carries_the_parser_description() {
    let theirs = serde_json::from_str::<serde_json::Value>("[1,").unwrap_err().to_string();
    assert!(!theirs.is_empty());
    assert_eq!(json_to_yaml("[1,"), Err(ConvertError::ParseError(theirs.clone())));
    assert_eq!(json_to_yaml("[1,").unwrap_err().message(), theirs);
}

#[test]
fn yaml_parse_error_carries_the_parser_description() {
    let theirs = serde_yaml::from_str::<serde_yaml::Value>("a: [1").unwrap_err().to_string();
    assert!(!theirs.is_empty());
    assert_eq!(yaml_to_json("a: [1"), Err(ConvertError::ParseError(theirs)));
}

#[test]
fn round_trip_keeps_values() {
    let documents = [
        "{\"b\": [1, 2.5, -3, 1e10], \"a\": {\"deep\": [[], {}, null, true, false]}}",
        "[\"true\", \"null\", \"~\", \"1.0\", \"yes\", \"- x\", \"a: b\", \"#c\", \"\", \" \"]",
        "\"line one\\nline two\\ttabbed \\\"quoted\\\" \\u00e9 \\ud83d\\ude00\"",
        "{\"key with spaces\": 1, \"123\": 2, \"\": 3, \"k:v\": 4}",
        "18446744073709551615",
        "-9223372036854775808",
        "0.1",
        "null",
        "{}",
        "[]",
    ];
    for document in documents {
        let back = there_and_back(document);
        assert_eq!(back, normalized(document), "document: {}", document);
        let tree: serde_json::Value = serde_json::from_str(document).unwrap();
        let tree_back: serde_json::Value = serde_json::from_str(&back).unwrap();
        assert_eq!(tree_back, tree, "document: {}", document);
    }
}

#[test]
fn round_trip_forgets_key_order_and_spacing() {
    assert_eq!(there_and_back("{ \"z\":1,\n\"a\" :2 }"), "{\n  \"a\": 2,\n  \"z\": 1\n}");
}

#[test]
fn writer_failure_is_a_serialize_error() {
    let failure = serde_json::from_str::<serde_json::Value>("?").unwrap_err();
    let words = failure.to_string();
    assert_eq!(json_written(Err(failure)), Err(ConvertError::SerializeError(words)));
    let failure = serde_yaml::from_str::<serde_yaml::Value>("[").unwrap_err();
    let words = failure.to_string();
    assert_eq!(yaml_written(Err(failure)), Err(ConvertError::SerializeError(words)));
}

#[test]
fn written_text_is_handed_on() {
    assert_eq!(json_written(Ok("{}".to_string())), Ok("{}".to_string()));
    assert_eq!(yaml_written(Ok("a: 1\n".to_string())), Ok("a: 1\n".to_string()));
}

#[test]
fn parsed_tree_is_written_in_the_other_format() {
    let tree = serde_json::Value::Array(vec![serde_json::Value::Bool(true), serde_json::Value::Null]);
    assert_eq!(yaml_from(Ok(tree)), Ok("- true\n- null\n".to_string()));
    let tree = serde_yaml::Value::Sequence(vec![serde_yaml::Value::Bool(true), serde_yaml::Value::Null]);
    assert_eq!(json_from(Ok(tree)), Ok("[\n  true,\n  null\n]".to_string()));
}

#[test]
fn parser_failure_is_a_parse_error() {
    let failure = serde_json::from_str::<serde_json::Value>("?").unwrap_err();
    let words = failure.to_string();
    assert_eq!(yaml_from(Err(failure)), Err(ConvertError::ParseError(words)));
    let failure = serde_yaml::from_str::<serde_yaml::Value>("[").unwrap_err();
    let words = failure.to_string();
    assert_eq!(json_from(Err(failure)), Err(ConvertError::ParseError(words)));
}
