use file_converter::error::ConvertError;
use file_converter::html::{csv_to_html, escape, render_html};
use file_converter::svg::{csv_to_svg, render_svg};
use file_converter::table::{add_record, header_from, read_csv, split_table, Table};

const SVG_OPEN: &str = "<?xml version=\"1.0\" encoding=\"UTF-8\"?>\n<svg width=\"400\" height=\"200\" xmlns=\"http://www.w3.org/2000/svg\">\n<rect width=\"100%\" height=\"100%\" fill=\"white\" />\n";

fn strings(fields: &[&str]) -> Vec<String> {
    fields.iter().map(|f| f.to_string()).collect()
}

#[test]
fn html_table_has_header_and_rows_in_order() {
    let html = csv_to_html("a,b\n1,2\n3,4").unwrap();
    assert_eq!(
        html,
        "<table>\n<tr>\n<th>a</th>\n<th>b</th>\n</tr>\n<tr>\n<td>1</td>\n<td>2</td>\n</tr>\n<tr>\n<td>3</td>\n<td>4</td>\n</tr>\n</table>"
    );
}

#[test]
fn html_escapes_markup_in_fields() {
    let html = csv_to_html("name\n<script>alert(1)</script>").unwrap();
    assert!(html.contains("<td>&lt;script&gt;alert(1)&lt;/script&gt;</td>"));
    assert!(!html.contains("<script>"));
}

#[test]
fn html_escapes_markup_in_header() {
    let html = csv_to_html("a&b,\"x \"\"y\"\"\"\n1,2").unwrap();
    assert!(html.contains("<th>a&amp;b</th>\n<th>x &quot;y&quot;</th>\n"));
}

#[test]
fn escape_replaces_the_four_reserved_characters() {
    assert_eq!(escape("<a href=\"x\">Tom & Jerry</a>"), "&lt;a href=&quot;x&quot;&gt;Tom &amp; Jerry&lt;/a&gt;");
    assert_eq!(escape("plain 'text'"), "plain 'text'");
    assert_eq!(escape(""), "");
}

#[test]
fn html_reads_quoted_fields() {
    let html = csv_to_html("k,v\n\"a,b\",\"line\nbreak\"").unwrap();
    assert!(html.contains("<td>a,b</td>\n<td>line\nbreak</td>\n"));
}

#[test]
fn html_keeps_ragged_rows() {
    let html = csv_to_html("a,b\n1\n2,3,4\n").unwrap();
    assert_eq!(
        html,
        "<table>\n<tr>\n<th>a</th>\n<th>b</th>\n</tr>\n<tr>\n<td>1</td>\n</tr>\n<tr>\n<td>2</td>\n<td>3</td>\n<td>4</td>\n</tr>\n</table>"
    );
}

#[test]
fn html_wants_a_header_row() {
    let missing = Err(ConvertError::ParseError("CSV has no header row".to_string()));
    assert_eq!(csv_to_html(""), missing);
    assert_eq!(csv_to_html("\n\n"), missing);
    assert_eq!(read_csv(""), Err(ConvertError::ParseError("CSV has no header row".to_string())));
}

#[test]
fn header_with_one_empty_field_is_a_header() {
    assert_eq!(csv_to_html("\"\"\n").unwrap(), "<table>\n<tr>\n<th></th>\n</tr>\n</table>");
}

#[test]
fn read_csv_gives_header_and_rows() {
    let table = read_csv("a,b\n1,\"2,3\"\n4\n").unwrap();
    assert_eq!(table.header, strings(&["a", "b"]));
    assert_eq!(table.rows, vec![strings(&["1", "2,3"]), strings(&["4"])]);
}

#[test]
fn header_without_fields_is_refused() {
    let missing = Err(ConvertError::ParseError("CSV has no header row".to_string()));
    assert_eq!(header_from(Ok(vec![])), missing);
    assert_eq!(header_from(Ok(strings(&["h"]))), Ok(strings(&["h"])));
    assert_eq!(header_from(Ok(strings(&[""]))), Ok(strings(&[""])));
}

fn reader_failure() -> csv::Error {
    let mut reader = csv::ReaderBuilder::new().from_reader("a,b\n1\n".as_bytes());
    reader.records().next().unwrap().unwrap_err()
}

#[test]
fn reader_failure_is_a_parse_error() {
    let words = reader_failure().to_string();
    assert!(!words.is_empty());
    assert_eq!(header_from(Err(reader_failure())), Err(ConvertError::ParseError(words.clone())));
    let mut rows = vec![strings(&["1"])];
    assert_eq!(add_record(&mut rows, Err(reader_failure())), Err(ConvertError::ParseError(words)));
    assert_eq!(rows, vec![strings(&["1"])]);
}

#[test]
fn record_becomes_the_next_row() {
    let mut rows = vec![strings(&["1"])];
    assert_eq!(add_record(&mut rows, Ok(strings(&["2", "3"]))), Ok(()));
    assert_eq!(add_record(&mut rows, Ok(vec![])), Ok(()));
    assert_eq!(rows, vec![strings(&["1"]), strings(&["2", "3"]), strings(&[])]);
}

#[test]
fn html_of_header_alone_has_no_data_rows() {
    assert_eq!(csv_to_html("only\n").unwrap(), "<table>\n<tr>\n<th>only</th>\n</tr>\n</table>");
}

#[test]
fn render_html_writes_a_given_table() {
    let table = Table { header: strings(&["h"]), rows: vec![strings(&["<"]), strings(&[])] };
    assert_eq!(
        render_html(&table),
        "<table>\n<tr>\n<th>h</th>\n</tr>\n<tr>\n<td>&lt;</td>\n</tr>\n<tr>\n</tr>\n</table>"
    );
}

#[test]
fn svg_places_header_and_cells() {
    let svg = csv_to_svg("x,y\n1,2");
    let expected = format!(
        "{}{}{}{}{}{}",
        SVG_OPEN,
        "<text x=\"10\" y=\"30\" font-size=\"12\" fill=\"black\">x</text>",
        "<text x=\"90\" y=\"30\" font-size=\"12\" fill=\"black\">y</text>",
        "<rect x=\"10\" y=\"60\" width=\"70\" height=\"20\" fill=\"#f0f0f0\" stroke=\"black\" stroke-width=\"1\" />\n<text x=\"15\" y=\"75\" font-size=\"12\" fill=\"black\">1</text>",
        "<rect x=\"90\" y=\"60\" width=\"70\" height=\"20\" fill=\"#f0f0f0\" stroke=\"black\" stroke-width=\"1\" />\n<text x=\"95\" y=\"75\" font-size=\"12\" fill=\"black\">2</text>",
        "</svg>"
    );
    assert_eq!(svg, expected);
}

#[test]
fn svg_of_empty_text_has_one_empty_label() {
    let expected = format!(
        "{}{}{}",
        SVG_OPEN, "<text x=\"10\" y=\"30\" font-size=\"12\" fill=\"black\"></text>", "</svg>"
    );
    assert_eq!(csv_to_svg(""), expected);
}

#[test]
fn svg_does_not_understand_quotes() {
    let svg = csv_to_svg("\"a,b\"");
    assert!(svg.contains("<text x=\"10\" y=\"30\" font-size=\"12\" fill=\"black\">\"a</text>"));
    assert!(svg.contains("<text x=\"90\" y=\"30\" font-size=\"12\" fill=\"black\">b\"</text>"));
}

#[test]
fn svg_rows_go_down_by_thirty_and_columns_right_by_eighty() {
    let svg = csv_to_svg("h\na\nb,c,d\n");
    assert!(svg.contains("<rect x=\"10\" y=\"60\""));
    assert!(svg.contains("<rect x=\"10\" y=\"90\""));
    assert!(svg.contains("<rect x=\"170\" y=\"90\""));
    assert!(svg.contains("<text x=\"175\" y=\"105\" font-size=\"12\" fill=\"black\">d</text>"));
    assert!(svg.contains("<rect x=\"10\" y=\"120\""));
    assert!(svg.contains("<text x=\"15\" y=\"135\" font-size=\"12\" fill=\"black\"></text></svg>"));
}

#[test]
fn svg_draws_beyond_the_canvas() {
    let svg = csv_to_svg("a,b,c,d,e,f,g,h,i,j,k,l,m");
    assert!(svg.contains("<text x=\"970\" y=\"30\" font-size=\"12\" fill=\"black\">m</text>"));
}

#[test]
fn split_table_takes_the_first_line_as_header() {
    let table = split_table("a,b\n1,,2\n\nz");
    assert_eq!(table.header, strings(&["a", "b"]));
    assert_eq!(table.rows, vec![strings(&["1", "", "2"]), strings(&[""]), strings(&["z"])]);
    assert_eq!(render_svg(&table), csv_to_svg("a,b\n1,,2\n\nz"));
}

#[test]
fn parse_error_keeps_its_kind() {
    let e = ConvertError::ParseError("bad".to_string());
    assert_eq!(e.message(), "bad");
}
