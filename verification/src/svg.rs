//! Drawing a table as an SVG document: the header as a line of labels, each
//! data row as a line of boxed values.

use crate::numeral::{decimal, push_decimal};
use crate::table::{plain_table, split_table, Table, TableView};
use crate::text::lemma_join_step;
use vstd::prelude::*;
use vstd::string::StringExecFns;

verus! {

/// The horizontal position of column `col`.
pub open spec fn cell_x(col: nat) -> nat {
    10 + 80 * col
}

/// The vertical position of line `row`, the header being line 0.
pub open spec fn row_y(row: nat) -> nat {
    30 + 30 * row
}

/// The start of every document: the XML declaration, a canvas of 400 by 200
/// and its white background.
pub open spec fn svg_opening() -> Seq<char> {
    "<?xml version=\"1.0\" encoding=\"UTF-8\"?>\n<svg width=\"400\" height=\"200\" xmlns=\"http://www.w3.org/2000/svg\">\n<rect width=\"100%\" height=\"100%\" fill=\"white\" />\n"@
}

/// A text element at (`x`, `y`). The content is copied as it is.
pub open spec fn svg_text(x: nat, y: nat, content: Seq<char>) -> Seq<char> {
    "<text x=\""@ + decimal(x) + "\" y=\""@ + decimal(y)
        + "\" font-size=\"12\" fill=\"black\">"@ + content + "</text>"@
}

/// A light gray box of 70 by 20 with a black outline at (`x`, `y`), and the
/// line break after it.
pub open spec fn svg_box(x: nat, y: nat) -> Seq<char> {
    "<rect x=\""@ + decimal(x) + "\" y=\""@ + decimal(y)
        + "\" width=\"70\" height=\"20\" fill=\"#f0f0f0\" stroke=\"black\" stroke-width=\"1\" />\n"@
}

/// The label of column `col`.
pub open spec fn svg_header_cell(col: nat, name: Seq<char>) -> Seq<char> {
    svg_text(cell_x(col), row_y(0), name)
}

/// The box of the field in line `row` and column `col`, and its value
/// inside the box.
pub open spec fn svg_data_cell(row: nat, col: nat, value: Seq<char>) -> Seq<char> {
    svg_box(cell_x(col), row_y(row)) + svg_text(cell_x(col) + 5, row_y(row) + 15, value)
}

/// The labels of all columns, one after the other.
pub open spec fn svg_header(header: Seq<Seq<char>>) -> Seq<char> {
    header.map(|col: int, name: Seq<char>| svg_header_cell(col as nat, name)).flatten()
}

/// The cells of line `row`, one after the other.
pub open spec fn svg_row(row: nat, cells: Seq<Seq<char>>) -> Seq<char> {
    cells.map(|col: int, value: Seq<char>| svg_data_cell(row, col as nat, value)).flatten()
}

/// The data rows, one after the other; the first of them is line 1.
pub open spec fn svg_rows(rows: Seq<Seq<Seq<char>>>) -> Seq<char> {
    rows.map(|i: int, cells: Seq<Seq<char>>| svg_row((i + 1) as nat, cells)).flatten()
}

/// The whole document for a table.
pub open spec fn svg_document(table: TableView) -> Seq<char> {
    svg_opening() + svg_header(table.header) + svg_rows(table.rows) + "</svg>"@
}

/// Appends a text element to `out`.
fn push_text(out: &mut String, x: u128, y: u128, content: &str)
    ensures
        final(out)@ == old(out)@ + svg_text(x as nat, y as nat, content@),
{
    out.append("<text x=\"");
    push_decimal(out, x);
    out.append("\" y=\"");
    push_decimal(out, y);
    out.append("\" font-size=\"12\" fill=\"black\">");
    out.append(content);
    out.append("</text>");
}

/// Appends a box, and the line break after it, to `out`.
fn push_box(out: &mut String, x: u128, y: u128)
    ensures
        final(out)@ == old(out)@ + svg_box(x as nat, y as nat),
{
    out.append("<rect x=\"");
    push_decimal(out, x);
    out.append("\" y=\"");
    push_decimal(out, y);
    out.append(
        "\" width=\"70\" height=\"20\" fill=\"#f0f0f0\" stroke=\"black\" stroke-width=\"1\" />\n",
    );
}

/// Appends the cells of line `row` to `out`.
fn push_row(out: &mut String, row: u128, cells: &Vec<String>)
    requires
        row <= usize::MAX,
    ensures
        final(out)@ == old(out)@ + svg_row(row as nat, cells.deep_view()),
{
    let ghost line = row as nat;
    let y: u128 = 30 + 30 * row;
    let mut col: usize = 0;
    assert(svg_row(line, cells.deep_view().take(0)) =~= Seq::<char>::empty());
    while col < cells.len()
        invariant
            col <= cells.len(),
            line == row,
            y == row_y(line),
            out@ == old(out)@ + svg_row(line, cells.deep_view().take(col as int)),
        decreases cells.len() - col,
    {
        let x: u128 = 10 + 80 * (col as u128);
        push_box(out, x, y);
        push_text(out, x + 5, y + 15, cells[col].as_str());
        proof {
            lemma_join_step(
                cells.deep_view(),
                |col: int, value: Seq<char>| svg_data_cell(line, col as nat, value),
                col as int,
            );
        }
        col += 1;
    }
    assert(cells.deep_view().take(cells.len() as int) == cells.deep_view());
}

/// Draws `table` as an SVG document.
pub fn render_svg(table: &Table) -> (out: String)
    ensures
        out@ == svg_document(table@),
{
    let mut out = String::new();
    out.append(
        "<?xml version=\"1.0\" encoding=\"UTF-8\"?>\n<svg width=\"400\" height=\"200\" xmlns=\"http://www.w3.org/2000/svg\">\n<rect width=\"100%\" height=\"100%\" fill=\"white\" />\n",
    );
    let mut col: usize = 0;
    assert(svg_header(table@.header.take(0)) =~= Seq::<char>::empty());
    while col < table.header.len()
        invariant
            col <= table.header.len(),
            out@ == svg_opening() + svg_header(table@.header.take(col as int)),
        decreases table.header.len() - col,
    {
        push_text(&mut out, 10 + 80 * (col as u128), 30, table.header[col].as_str());
        proof {
            lemma_join_step(
                table@.header,
                |col: int, name: Seq<char>| svg_header_cell(col as nat, name),
                col as int,
            );
        }
        col += 1;
    }
    assert(table@.header.take(table.header.len() as int) == table@.header);
    let mut i: usize = 0;
    assert(svg_rows(table@.rows.take(0)) =~= Seq::<char>::empty());
    while i < table.rows.len()
        invariant
            i <= table.rows.len(),
            out@ == svg_opening() + svg_header(table@.header) + svg_rows(
                table@.rows.take(i as int),
            ),
        decreases table.rows.len() - i,
    {
        push_row(&mut out, i as u128 + 1, &table.rows[i]);
        proof {
            lemma_join_step(
                table@.rows,
                |i: int, cells: Seq<Seq<char>>| svg_row((i + 1) as nat, cells),
                i as int,
            );
        }
        i += 1;
    }
    assert(table@.rows.take(table.rows.len() as int) == table@.rows);
    out.append("</svg>");
    out
}

/// Draws the table that `csv_content` denotes without quoting as an SVG
/// document. Every text has a drawing: this does not fail.
pub fn csv_to_svg(csv_content: &str) -> (svg: String)
    ensures
        svg@ == svg_document(plain_table(csv_content@)),
{
    let table = split_table(csv_content);
    render_svg(&table)
}

} // verus!
