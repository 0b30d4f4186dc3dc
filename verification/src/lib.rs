//! Conversions between simple textual data formats: JSON and YAML, CSV to
//! HTML and SVG, and text to and from a listing of its character codes.
//!
//! Every conversion is a function from the whole input text to the whole
//! output text, or to an error. None reads or writes a file.

pub mod ascii;
pub mod dispatch;
pub mod error;
pub mod html;
pub mod numeral;
pub mod structured;
pub mod svg;
pub mod table;
pub mod text;

pub use crate::ascii::{asc_to_txt, txt_to_asc};
pub use crate::dispatch::{convert, ConversionKind};
pub use crate::error::ConvertError;
pub use crate::html::csv_to_html;
pub use crate::structured::{json_to_yaml, yaml_to_json};
pub use crate::svg::csv_to_svg;
pub use crate::table::Table;
