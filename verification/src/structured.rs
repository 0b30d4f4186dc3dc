//! JSON to YAML and YAML to JSON, by way of a value tree.
//!
//! The text is parsed into a tree and the tree is written in the other
//! format. JSON is read into the tree of `serde_json`, whose mappings have
//! strings as keys. YAML is read into the tree of `serde_yaml`, whose
//! mappings have any value as key, so that a mapping which JSON cannot hold
//! is read and then refused by the JSON writer. Parsing and writing are the
//! work of the two crates; what this module decides is which failure is
//! which.

use crate::error::{is_ok_text, is_parse_error, is_serialize_error, ConvertError};
use vstd::prelude::*;

verus! {

/// `serde_json::Value`: the tree that the JSON parser builds and the YAML
/// writer reads. It is carried from the one to the other and never looked
/// into.
#[verifier::external_type_specification]
#[verifier::external_body]
pub struct ExJsonValue(serde_json::Value);

/// `serde_yaml::Value`: the tree that the YAML parser builds and the JSON
/// writer reads. It is carried from the one to the other and never looked
/// into.
#[verifier::external_type_specification]
#[verifier::external_body]
pub struct ExYamlValue(serde_yaml::Value);

/// `serde_json::Error`: what `serde_json` hands back in place of a tree or
/// a text. It is asked for its description and never looked into.
#[verifier::external_type_specification]
#[verifier::external_body]
pub struct ExJsonError(serde_json::Error);

/// `serde_yaml::Error`: what `serde_yaml` hands back in place of a tree or
/// a text. It is asked for its description and never looked into.
#[verifier::external_type_specification]
#[verifier::external_body]
pub struct ExYamlError(serde_yaml::Error);

/// What `serde_json::from_str` makes of a text: a tree, or an error.
pub uninterp spec fn json_parse(text: Seq<char>) -> Result<serde_json::Value, serde_json::Error>;

/// What `serde_yaml::from_str` makes of a text: a tree, or an error.
pub uninterp spec fn yaml_parse(text: Seq<char>) -> Result<serde_yaml::Value, serde_yaml::Error>;

/// What `serde_yaml::to_string` makes of a tree: a text, or an error.
pub uninterp spec fn yaml_emit(tree: serde_json::Value) -> Result<Seq<char>, serde_yaml::Error>;

/// What `serde_json::to_string_pretty` makes of a tree: an indented text,
/// or an error.
pub uninterp spec fn json_emit(tree: serde_yaml::Value) -> Result<Seq<char>, serde_json::Error>;

/// The description that a `serde_json::Error` gives of itself.
pub uninterp spec fn json_error_text(e: serde_json::Error) -> Seq<char>;

/// The description that a `serde_yaml::Error` gives of itself.
pub uninterp spec fn yaml_error_text(e: serde_yaml::Error) -> Seq<char>;

/// Calls `serde_json::from_str` for a `serde_json::Value`. What comes back
/// is determined by the text alone; the contract gives it the name
/// `json_parse` and claims nothing else of it.
#[verifier::external_body]
fn parse_json(text: &str) -> (r: Result<serde_json::Value, serde_json::Error>)
    ensures
        r == json_parse(text@),
{
    serde_json::from_str(text)
}

/// Calls `serde_yaml::from_str` for a `serde_yaml::Value`. What comes back
/// is determined by the text alone; the contract gives it the name
/// `yaml_parse` and claims nothing else of it.
#[verifier::external_body]
fn parse_yaml(text: &str) -> (r: Result<serde_yaml::Value, serde_yaml::Error>)
    ensures
        r == yaml_parse(text@),
{
    serde_yaml::from_str(text)
}

/// Calls `serde_yaml::to_string`. What comes back is determined by the tree
/// alone; the contract gives it the name `yaml_emit` and claims nothing else
/// of it.
#[verifier::external_body]
fn emit_yaml(tree: &serde_json::Value) -> (r: Result<String, serde_yaml::Error>)
    ensures
        match r {
            Ok(text) => yaml_emit(*tree) == Ok::<Seq<char>, serde_yaml::Error>(text@),
            Err(e) => yaml_emit(*tree) == Err::<Seq<char>, serde_yaml::Error>(e),
        },
{
    serde_yaml::to_string(tree)
}

/// Calls `serde_json::to_string_pretty`. What comes back is determined by
/// the tree alone; the contract gives it the name `json_emit` and claims
/// nothing else of it.
#[verifier::external_body]
fn emit_json(tree: &serde_yaml::Value) -> (r: Result<String, serde_json::Error>)
    ensures
        match r {
            Ok(text) => json_emit(*tree) == Ok::<Seq<char>, serde_json::Error>(text@),
            Err(e) => json_emit(*tree) == Err::<Seq<char>, serde_json::Error>(e),
        },
{
    serde_json::to_string_pretty(tree)
}

/// Calls `to_string` on a `serde_json::Error`, which writes its `Display`
/// form. The words are determined by the error alone; the contract gives
/// them the name `json_error_text` and claims nothing else of them.
#[verifier::external_body]
fn json_error_words(e: &serde_json::Error) -> (words: String)
    ensures
        words@ == json_error_text(*e),
{
    e.to_string()
}

/// Calls `to_string` on a `serde_yaml::Error`, which writes its `Display`
/// form. The words are determined by the error alone; the contract gives
/// them the name `yaml_error_text` and claims nothing else of them.
#[verifier::external_body]
fn yaml_error_words(e: &serde_yaml::Error) -> (words: String)
    ensures
        words@ == yaml_error_text(*e),
{
    e.to_string()
}

/// Whether `r` is what the conversion to YAML owes for what the YAML writer
/// returned: the text, or a `SerializeError` with the writer's description.
pub open spec fn is_yaml_written(
    written: Result<Seq<char>, serde_yaml::Error>,
    r: Result<String, ConvertError>,
) -> bool {
    match written {
        Ok(text) => is_ok_text(r, text),
        Err(e) => is_serialize_error(r, yaml_error_text(e)),
    }
}

/// Whether `r` is what the conversion to JSON owes for what the JSON writer
/// returned: the text, or a `SerializeError` with the writer's description.
pub open spec fn is_json_written(
    written: Result<Seq<char>, serde_json::Error>,
    r: Result<String, ConvertError>,
) -> bool {
    match written {
        Ok(text) => is_ok_text(r, text),
        Err(e) => is_serialize_error(r, json_error_text(e)),
    }
}

/// Whether `r` is what the conversion to YAML owes for what the JSON parser
/// returned: a `ParseError` with the parser's description where it read no
/// tree, else what is owed for what the YAML writer makes of the tree.
pub open spec fn is_yaml_of(
    parsed: Result<serde_json::Value, serde_json::Error>,
    r: Result<String, ConvertError>,
) -> bool {
    match parsed {
        Ok(tree) => is_yaml_written(yaml_emit(tree), r),
        Err(e) => is_parse_error(r, json_error_text(e)),
    }
}

/// Whether `r` is what the conversion to JSON owes for what the YAML parser
/// returned: a `ParseError` with the parser's description where it read no
/// tree, else what is owed for what the JSON writer makes of the tree.
pub open spec fn is_json_of(
    parsed: Result<serde_yaml::Value, serde_yaml::Error>,
    r: Result<String, ConvertError>,
) -> bool {
    match parsed {
        Ok(tree) => is_json_written(json_emit(tree), r),
        Err(e) => is_parse_error(r, yaml_error_text(e)),
    }
}

/// The end of the conversion to YAML: the written text is handed on, the
/// writer's failure becomes a `SerializeError` with the writer's description.
pub fn yaml_written(written: Result<String, serde_yaml::Error>) -> (r: Result<String, ConvertError>)
    ensures
        match written {
            Ok(text) => is_ok_text(r, text@),
            Err(e) => is_serialize_error(r, yaml_error_text(e)),
        },
{
    match written {
        Ok(text) => Ok(text),
        Err(e) => Err(ConvertError::SerializeError(yaml_error_words(&e))),
    }
}

/// The end of the conversion to JSON: the written text is handed on, the
/// writer's failure becomes a `SerializeError` with the writer's description.
pub fn json_written(written: Result<String, serde_json::Error>) -> (r: Result<String, ConvertError>)
    ensures
        match written {
            Ok(text) => is_ok_text(r, text@),
            Err(e) => is_serialize_error(r, json_error_text(e)),
        },
{
    match written {
        Ok(text) => Ok(text),
        Err(e) => Err(ConvertError::SerializeError(json_error_words(&e))),
    }
}

/// Writes as YAML what the JSON parser returned; the parser's failure
/// becomes a `ParseError` with the parser's description.
pub fn yaml_from(parsed: Result<serde_json::Value, serde_json::Error>) -> (r: Result<
    String,
    ConvertError,
>)
    ensures
        is_yaml_of(parsed, r),
{
    match parsed {
        Ok(tree) => yaml_written(emit_yaml(&tree)),
        Err(e) => Err(ConvertError::ParseError(json_error_words(&e))),
    }
}

/// Writes as indented JSON what the YAML parser returned; the parser's
/// failure becomes a `ParseError` with the parser's description.
pub fn json_from(parsed: Result<serde_yaml::Value, serde_yaml::Error>) -> (r: Result<
    String,
    ConvertError,
>)
    ensures
        is_json_of(parsed, r),
{
    match parsed {
        Ok(tree) => json_written(emit_json(&tree)),
        Err(e) => Err(ConvertError::ParseError(yaml_error_words(&e))),
    }
}

/// Converts JSON text to YAML text.
pub fn json_to_yaml(json_content: &str) -> (r: Result<String, ConvertError>)
    ensures
        is_yaml_of(json_parse(json_content@), r),
{
    yaml_from(parse_json(json_content))
}

/// Converts YAML text to indented JSON text. A mapping with a key that the
/// JSON writer does not take as a string is read and then refused by the
/// writer: the failure is a `SerializeError`.
pub fn yaml_to_json(yaml_content: &str) -> (r: Result<String, ConvertError>)
    ensures
        is_json_of(yaml_parse(yaml_content@), r),
{
    json_from(parse_yaml(yaml_content))
}

/// What the two conversions, one after the other, make of a JSON document:
/// the JSON writer's text for the tree that the YAML parser reads from the
/// YAML writer's text for the tree that the JSON parser reads from the
/// document; nothing where one of the four fails.
pub open spec fn there_and_back(document: Seq<char>) -> Option<Seq<char>> {
    match json_parse(document) {
        Ok(tree) => match yaml_emit(tree) {
            Ok(yaml) => match yaml_parse(yaml) {
                Ok(read_back) => match json_emit(read_back) {
                    Ok(json) => Some(json),
                    Err(_) => None,
                },
                Err(_) => None,
            },
            Err(_) => None,
        },
        Err(_) => None,
    }
}

/// Converting a JSON document to YAML and that YAML back to JSON gives
/// what the two parsers and the two writers make of it in turn, and fails
/// where one of them does: this module adds nothing and takes nothing away
/// between them. That the text so written holds the values of the document
/// is a matter of the YAML parser reading back what the YAML writer wrote;
/// it is not shown here.
pub proof fn lemma_round_trip_is_the_chain(
    document: Seq<char>,
    there: Result<String, ConvertError>,
    back: Result<String, ConvertError>,
)
    requires
        is_yaml_of(json_parse(document), there),
        there matches Ok(yaml) && is_json_of(yaml_parse(yaml@), back),
    ensures
        match there_and_back(document) {
            Some(json) => is_ok_text(back, json),
            None => back is Err,
        },
{
}

} // verus!
