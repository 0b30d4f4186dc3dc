//! Choosing a conversion by its name.

use crate::ascii::{asc_to_txt, code_listing, is_text_of, listed_text, txt_to_asc};
use crate::error::ConvertError;
use crate::html::{csv_to_html, is_html_of};
use crate::structured::{
    is_json_of, is_yaml_of, json_parse, json_to_yaml, yaml_parse, yaml_to_json,
};
use crate::svg::{csv_to_svg, svg_document};
use crate::table::{csv_read, plain_table};
use crate::text::same_text;
use vstd::prelude::*;
use vstd::string::StringExecFns;

verus! {

/// The conversions that there are.
#[derive(Debug, Clone, Copy, PartialEq, Eq, Structural)]
pub enum ConversionKind {
    JsonToYaml,
    YamlToJson,
    CsvToHtml,
    CsvToSvg,
    TxtToAsc,
    AscToTxt,
}

impl ConversionKind {
    /// The name by which the conversion is asked for.
    pub open spec fn name_text(self) -> Seq<char> {
        match self {
            ConversionKind::JsonToYaml => "json_to_yaml"@,
            ConversionKind::YamlToJson => "yaml_to_json"@,
            ConversionKind::CsvToHtml => "csv_to_html"@,
            ConversionKind::CsvToSvg => "csv_to_svg"@,
            ConversionKind::TxtToAsc => "txt_to_asc"@,
            ConversionKind::AscToTxt => "asc_to_txt"@,
        }
    }

    /// The conversion that goes by `name`, if any does. Names are taken
    /// letter for letter.
    pub open spec fn named(name: Seq<char>) -> Option<ConversionKind> {
        if name == "json_to_yaml"@ {
            Some(ConversionKind::JsonToYaml)
        } else if name == "yaml_to_json"@ {
            Some(ConversionKind::YamlToJson)
        } else if name == "csv_to_html"@ {
            Some(ConversionKind::CsvToHtml)
        } else if name == "csv_to_svg"@ {
            Some(ConversionKind::CsvToSvg)
        } else if name == "txt_to_asc"@ {
            Some(ConversionKind::TxtToAsc)
        } else if name == "asc_to_txt"@ {
            Some(ConversionKind::AscToTxt)
        } else {
            None
        }
    }

    /// Whether `r` is what this conversion owes for `text`.
    pub open spec fn owes(self, text: Seq<char>, r: Result<String, ConvertError>) -> bool {
        match self {
            ConversionKind::JsonToYaml => is_yaml_of(json_parse(text), r),
            ConversionKind::YamlToJson => is_json_of(yaml_parse(text), r),
            ConversionKind::CsvToHtml => is_html_of(csv_read(text), r),
            ConversionKind::CsvToSvg => r matches Ok(svg) && svg@ == svg_document(
                plain_table(text),
            ),
            ConversionKind::TxtToAsc => r matches Ok(listing) && listing@ == code_listing(text),
            ConversionKind::AscToTxt => is_text_of(listed_text(text), r),
        }
    }

    /// The name by which the conversion is asked for.
    pub fn name(self) -> (name: &'static str)
        ensures
            name@ == self.name_text(),
    {
        match self {
            ConversionKind::JsonToYaml => "json_to_yaml",
            ConversionKind::YamlToJson => "yaml_to_json",
            ConversionKind::CsvToHtml => "csv_to_html",
            ConversionKind::CsvToSvg => "csv_to_svg",
            ConversionKind::TxtToAsc => "txt_to_asc",
            ConversionKind::AscToTxt => "asc_to_txt",
        }
    }

    /// The conversion that goes by `name`, if any does.
    pub fn from_name(name: &str) -> (kind: Option<ConversionKind>)
        ensures
            kind == Self::named(name@),
    {
        if same_text(name, "json_to_yaml") {
            Some(ConversionKind::JsonToYaml)
        } else if same_text(name, "yaml_to_json") {
            Some(ConversionKind::YamlToJson)
        } else if same_text(name, "csv_to_html") {
            Some(ConversionKind::CsvToHtml)
        } else if same_text(name, "csv_to_svg") {
            Some(ConversionKind::CsvToSvg)
        } else if same_text(name, "txt_to_asc") {
            Some(ConversionKind::TxtToAsc)
        } else if same_text(name, "asc_to_txt") {
            Some(ConversionKind::AscToTxt)
        } else {
            None
        }
    }

    /// Runs this conversion, and no other, on `text`.
    pub fn run(self, text: &str) -> (r: Result<String, ConvertError>)
        ensures
            self.owes(text@, r),
    {
        match self {
            ConversionKind::JsonToYaml => json_to_yaml(text),
            ConversionKind::YamlToJson => yaml_to_json(text),
            ConversionKind::CsvToHtml => csv_to_html(text),
            ConversionKind::CsvToSvg => Ok(csv_to_svg(text)),
            ConversionKind::TxtToAsc => txt_to_asc(text),
            ConversionKind::AscToTxt => asc_to_txt(text),
        }
    }
}

/// Runs the conversion that goes by `name` on `text`. A name that no
/// conversion goes by gives `UnknownConversion` with that name, and no
/// text.
pub fn convert(name: &str, text: &str) -> (r: Result<String, ConvertError>)
    ensures
        match ConversionKind::named(name@) {
            Some(kind) => kind.owes(text@, r),
            None => r matches Err(ConvertError::UnknownConversion(asked)) && asked@ == name@,
        },
{
    match ConversionKind::from_name(name) {
        Some(kind) => kind.run(text),
        None => Err(ConvertError::UnknownConversion(String::from_str(name))),
    }
}

/// A name stands for a conversion if and only if it is that conversion's
/// own name: the six names differ, and any other name stands for none.
pub proof fn lemma_named_by_own_name(name: Seq<char>, kind: ConversionKind)
    ensures
        ConversionKind::named(name) == Some(kind) <==> name == kind.name_text(),
        ConversionKind::named(kind.name_text()) == Some(kind),
{
    reveal_strlit("json_to_yaml");
    reveal_strlit("yaml_to_json");
    reveal_strlit("csv_to_html");
    reveal_strlit("csv_to_svg");
    reveal_strlit("txt_to_asc");
    reveal_strlit("asc_to_txt");
    assert("json_to_yaml"@[0] == 'j');
    assert("yaml_to_json"@[0] == 'y');
    assert("csv_to_html"@[0] == 'c');
    assert("csv_to_svg"@[0] == 'c');
    assert("txt_to_asc"@[0] == 't');
    assert("asc_to_txt"@[0] == 'a');
    assert("csv_to_html"@.len() == 11);
    assert("csv_to_svg"@.len() == 10);
}

} // verus!
