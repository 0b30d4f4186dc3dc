//! Why a conversion did not come about.

use vstd::prelude::*;
use vstd::string::StringExecFns;

verus! {

/// The ways in which a conversion fails. No failure is mended on the way:
/// the first one ends the conversion.
#[derive(Debug, Clone, PartialEq, Eq)]
pub enum ConvertError {
    /// The input is not well-formed JSON, YAML or CSV. Holds the parser's
    /// own description.
    ParseError(String),
    /// The parsed value cannot be written in the target format. Holds the
    /// serializer's own description.
    SerializeError(String),
    /// A token of a code listing is not an unsigned decimal number.
    InvalidFormat,
    /// A number of a code listing is above 127.
    InvalidValue,
    /// The name of the conversion is none of the six known ones. Holds the
    /// name.
    UnknownConversion(String),
}

/// Whether `r` is the text `text`.
pub open spec fn is_ok_text(r: Result<String, ConvertError>, text: Seq<char>) -> bool {
    r matches Ok(s) && s@ == text
}

/// Whether `r` is a `ParseError` with the description `words`.
pub open spec fn is_parse_error<T>(r: Result<T, ConvertError>, words: Seq<char>) -> bool {
    r matches Err(ConvertError::ParseError(why)) && why@ == words
}

/// Whether `r` is a `SerializeError` with the description `words`.
pub open spec fn is_serialize_error<T>(r: Result<T, ConvertError>, words: Seq<char>) -> bool {
    r matches Err(ConvertError::SerializeError(why)) && why@ == words
}

impl ConvertError {
    /// The words of `message`.
    pub open spec fn message_text(self) -> Seq<char> {
        match self {
            ConvertError::ParseError(why) => why@,
            ConvertError::SerializeError(why) => why@,
            ConvertError::InvalidFormat => "Invalid ASCII format"@,
            ConvertError::InvalidValue => "Invalid ASCII value"@,
            ConvertError::UnknownConversion(name) => "Invalid conversion '"@ + name@
                + "'. Use one of: json_to_yaml, yaml_to_json, csv_to_html, csv_to_svg, txt_to_asc, asc_to_txt."@,
        }
    }

    /// A description for a person to read. For a parser's or a serializer's
    /// failure it is the description that came with it, word for word.
    pub fn message(&self) -> (s: String)
        ensures
            s@ == self.message_text(),
    {
        match self {
            ConvertError::ParseError(why) => why.clone(),
            ConvertError::SerializeError(why) => why.clone(),
            ConvertError::InvalidFormat => String::from_str("Invalid ASCII format"),
            ConvertError::InvalidValue => String::from_str("Invalid ASCII value"),
            ConvertError::UnknownConversion(name) => {
                let mut s = String::from_str("Invalid conversion '");
                s.append(name.as_str());
                s.append(
                    "'. Use one of: json_to_yaml, yaml_to_json, csv_to_html, csv_to_svg, txt_to_asc, asc_to_txt.",
                );
                s
            },
        }
    }
}

} // verus!
