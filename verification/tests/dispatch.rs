use file_converter::ascii::{asc_to_txt, txt_to_asc};
use file_converter::dispatch::{convert, ConversionKind};
use file_converter::error::ConvertError;
use file_converter::html::csv_to_html;
use file_converter::structured::{json_to_yaml, yaml_to_json};
use file_converter::svg::csv_to_svg;

const ALL: [ConversionKind; 6] = [
    ConversionKind::JsonToYaml,
    ConversionKind::YamlToJson,
    ConversionKind::CsvToHtml,
    ConversionKind::CsvToSvg,
    ConversionKind::TxtToAsc,
    ConversionKind::AscToTxt,
];

#[test]
fn unknown_name_is_refused_without_output() {
    assert_eq!(convert("foo", "a,b"), Err(ConvertError::UnknownConversion("foo".to_string())));
    assert_eq!(ConversionKind::from_name("foo"), None);
}

#[test]
fn names_are_taken_letter_for_letter() {
    for name in ["", "JSON_TO_YAML", "json_to_yaml ", " csv_to_svg", "csv_to_htm", "txt-to-asc"] {
        assert_eq!(ConversionKind::from_name(name), None);
        assert!(matches!(convert(name, ""), Err(ConvertError::UnknownConversion(_))));
    }
}

#[test]
fn every_kind_is_found_by_its_name() {
    for kind in ALL {
        assert_eq!(ConversionKind::from_name(kind.name()), Some(kind));
    }
    assert_eq!(ConversionKind::JsonToYaml.name(), "json_to_yaml");
    assert_eq!(ConversionKind::YamlToJson.name(), "yaml_to_json");
    assert_eq!(ConversionKind::CsvToHtml.name(), "csv_to_html");
    assert_eq!(ConversionKind::CsvToSvg.name(), "csv_to_svg");
    assert_eq!(ConversionKind::TxtToAsc.name(), "txt_to_asc");
    assert_eq!(ConversionKind::AscToTxt.name(), "asc_to_txt");
}

#[test]
fn each_name_runs_its_own_conversion() {
    assert_eq!(convert("json_to_yaml", "{\"a\": 1}"), json_to_yaml("{\"a\": 1}"));
    assert_eq!(convert("yaml_to_json", "a: 1"), yaml_to_json("a: 1"));
    assert_eq!(convert("csv_to_html", "a,b\n1,2"), csv_to_html("a,b\n1,2"));
    assert_eq!(convert("csv_to_svg", "a,b\n1,2"), Ok(csv_to_svg("a,b\n1,2")));
    assert_eq!(convert("txt_to_asc", "ab"), txt_to_asc("ab"));
    assert_eq!(convert("asc_to_txt", "097 098 "), asc_to_txt("097 098 "));
    assert_eq!(convert("txt_to_asc", "ab"), Ok("097 098 ".to_string()));
    assert_eq!(convert("asc_to_txt", "097 098 "), Ok("ab".to_string()));
}

#[test]
fn failures_of_the_conversion_are_handed_on() {
    assert_eq!(convert("asc_to_txt", "abc"), Err(ConvertError::InvalidFormat));
    assert_eq!(convert("asc_to_txt", "300"), Err(ConvertError::InvalidValue));
    assert!(matches!(convert("json_to_yaml", "{"), Err(ConvertError::ParseError(_))));
    assert_eq!(ConversionKind::AscToTxt.run("abc"), Err(ConvertError::InvalidFormat));
}

#[test]
fn unknown_conversion_message_lists_the_names() {
    let message = ConvertError::UnknownConversion("foo".to_string()).message();
    assert!(message.contains("'foo'"));
    for kind in ALL {
        assert!(message.contains(kind.name()));
    }
}

#[test]
fn messages_of_the_code_listing_errors() {
    assert_eq!(ConvertError::InvalidFormat.message(), "Invalid ASCII format");
    assert_eq!(ConvertError::InvalidValue.message(), "Invalid ASCII value");
    assert_eq!(ConvertError::SerializeError("why".to_string()).message(), "why");
}
