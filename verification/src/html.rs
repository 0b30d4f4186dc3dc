//! Writing a table as an HTML `<table>`.

use crate::error::{is_ok_text, is_parse_error, ConvertError};
use crate::table::{csv_read, read_csv, Table, TableView};
use crate::text::{chars_of, lemma_flat_map_step};
use vstd::prelude::*;
use vstd::string::StringExecFns;

verus! {

/// What stands for `c` in HTML text: an entity for each of `&`, `<`, `>`
/// and `"`, the character itself for any other.
pub open spec fn escape_char(c: char) -> Seq<char> {
    if c == '&' {
        "&amp;"@
    } else if c == '<' {
        "&lt;"@
    } else if c == '>' {
        "&gt;"@
    } else if c == '"' {
        "&quot;"@
    } else {
        seq![c]
    }
}

/// `s` with every character that HTML reserves replaced by its entity.
pub open spec fn escape_html(s: Seq<char>) -> Seq<char> {
    s.flat_map(|c: char| escape_char(c))
}

/// A header cell and the line break after it.
pub open spec fn html_header_cell(name: Seq<char>) -> Seq<char> {
    "<th>"@ + escape_html(name) + "</th>\n"@
}

/// A data cell and the line break after it.
pub open spec fn html_data_cell(value: Seq<char>) -> Seq<char> {
    "<td>"@ + escape_html(value) + "</td>\n"@
}

/// The header cells, one for each name, in order.
pub open spec fn html_header_cells(header: Seq<Seq<char>>) -> Seq<char> {
    header.flat_map(|name: Seq<char>| html_header_cell(name))
}

/// The data cells of one row, one for each field, in order.
pub open spec fn html_data_cells(cells: Seq<Seq<char>>) -> Seq<char> {
    cells.flat_map(|value: Seq<char>| html_data_cell(value))
}

/// The header row.
pub open spec fn html_header_row(header: Seq<Seq<char>>) -> Seq<char> {
    "<tr>\n"@ + html_header_cells(header) + "</tr>\n"@
}

/// One data row, with as many cells as the row has fields.
pub open spec fn html_data_row(cells: Seq<Seq<char>>) -> Seq<char> {
    "<tr>\n"@ + html_data_cells(cells) + "</tr>\n"@
}

/// The data rows, in order.
pub open spec fn html_data_rows(rows: Seq<Seq<Seq<char>>>) -> Seq<char> {
    rows.flat_map(|cells: Seq<Seq<char>>| html_data_row(cells))
}

/// The whole table: the header row, then the data rows.
pub open spec fn html_document(table: TableView) -> Seq<char> {
    "<table>\n"@ + html_header_row(table.header) + html_data_rows(table.rows) + "</table>"@
}

/// Whether `r` is what the conversion to HTML owes for what reading the
/// CSV gave: the table written out, or a `ParseError` with the description.
pub open spec fn is_html_of(read: Result<TableView, Seq<char>>, r: Result<
    String,
    ConvertError,
>) -> bool {
    match read {
        Ok(table) => is_ok_text(r, html_document(table)),
        Err(words) => is_parse_error(r, words),
    }
}

/// Appends `value`, escaped, to `out`.
fn push_escaped(out: &mut String, value: &str)
    ensures
        final(out)@ == old(out)@ + escape_html(value@),
{
    let chars = chars_of(value);
    let mut i: usize = 0;
    assert(escape_html(chars@.take(0)) =~= Seq::<char>::empty());
    while i < chars.len()
        invariant
            i <= chars.len(),
            out@ == old(out)@ + escape_html(chars@.take(i as int)),
        decreases chars.len() - i,
    {
        let c = chars[i];
        if c == '&' {
            out.append("&amp;");
        } else if c == '<' {
            out.append("&lt;");
        } else if c == '>' {
            out.append("&gt;");
        } else if c == '"' {
            out.append("&quot;");
        } else {
            out.push(c);
        }
        proof {
            lemma_flat_map_step(chars@, |c: char| escape_char(c), i as int);
        }
        i += 1;
    }
    assert(chars@.take(chars.len() as int) == chars@);
}

/// `value` with every character that HTML reserves replaced by its entity.
pub fn escape(value: &str) -> (escaped: String)
    ensures
        escaped@ == escape_html(value@),
{
    let mut out = String::new();
    push_escaped(&mut out, value);
    out
}

/// Appends the header row to `out`.
fn push_header_row(out: &mut String, header: &Vec<String>)
    ensures
        final(out)@ == old(out)@ + html_header_row(header.deep_view()),
{
    out.append("<tr>\n");
    let mut i: usize = 0;
    assert(html_header_cells(header.deep_view().take(0)) =~= Seq::<char>::empty());
    while i < header.len()
        invariant
            i <= header.len(),
            out@ == old(out)@ + "<tr>\n"@ + html_header_cells(header.deep_view().take(i as int)),
        decreases header.len() - i,
    {
        out.append("<th>");
        push_escaped(out, header[i].as_str());
        out.append("</th>\n");
        proof {
            lemma_flat_map_step(
                header.deep_view(),
                |name: Seq<char>| html_header_cell(name),
                i as int,
            );
        }
        i += 1;
    }
    assert(header.deep_view().take(header.len() as int) == header.deep_view());
    out.append("</tr>\n");
}

/// Appends one data row to `out`.
fn push_data_row(out: &mut String, cells: &Vec<String>)
    ensures
        final(out)@ == old(out)@ + html_data_row(cells.deep_view()),
{
    out.append("<tr>\n");
    let mut i: usize = 0;
    assert(html_data_cells(cells.deep_view().take(0)) =~= Seq::<char>::empty());
    while i < cells.len()
        invariant
            i <= cells.len(),
            out@ == old(out)@ + "<tr>\n"@ + html_data_cells(cells.deep_view().take(i as int)),
        decreases cells.len() - i,
    {
        out.append("<td>");
        push_escaped(out, cells[i].as_str());
        out.append("</td>\n");
        proof {
            lemma_flat_map_step(
                cells.deep_view(),
                |value: Seq<char>| html_data_cell(value),
                i as int,
            );
        }
        i += 1;
    }
    assert(cells.deep_view().take(cells.len() as int) == cells.deep_view());
    out.append("</tr>\n");
}

/// Writes `table` as an HTML table. Values are escaped; every row keeps its
/// own number of fields.
pub fn render_html(table: &Table) -> (out: String)
    ensures
        out@ == html_document(table@),
{
    let mut out = String::new();
    out.append("<table>\n");
    push_header_row(&mut out, &table.header);
    let mut i: usize = 0;
    assert(html_data_rows(table@.rows.take(0)) =~= Seq::<char>::empty());
    while i < table.rows.len()
        invariant
            i <= table.rows.len(),
            out@ == "<table>\n"@ + html_header_row(table@.header) + html_data_rows(
                table@.rows.take(i as int),
            ),
        decreases table.rows.len() - i,
    {
        push_data_row(&mut out, &table.rows[i]);
        proof {
            lemma_flat_map_step(
                table@.rows,
                |cells: Seq<Seq<char>>| html_data_row(cells),
                i as int,
            );
        }
        i += 1;
    }
    assert(table@.rows.take(table.rows.len() as int) == table@.rows);
    out.append("</table>");
    out
}

/// Reads `csv_content` as CSV with a header row, quoted fields understood,
/// and writes it as an HTML table.
pub fn csv_to_html(csv_content: &str) -> (r: Result<String, ConvertError>)
    ensures
        is_html_of(csv_read(csv_content@), r),
{
    match read_csv(csv_content) {
        Ok(table) => Ok(render_html(&table)),
        Err(e) => Err(e),
    }
}

/// Whether HTML reserves `c`: one of `&`, `<`, `>` and `"`.
pub open spec fn is_reserved(c: char) -> bool {
    c == '&' || c == '<' || c == '>' || c == '"'
}

/// An escaped text starts with what stands for its first character.
proof fn lemma_escape_unfold(s: Seq<char>)
    requires
        s.len() > 0,
    ensures
        escape_html(s) == escape_char(s[0]) + escape_html(s.drop_first()),
{
    let f = |c: char| escape_char(c);
    assert(s.map_values(f).drop_first() =~= s.drop_first().map_values(f));
}

/// An escaped text holds none of `<`, `>` and `"`: whatever the value, it
/// opens no tag, closes none and ends no attribute.
pub proof fn lemma_escaped_has_no_markup(s: Seq<char>)
    ensures
        forall|i: int|
            0 <= i < escape_html(s).len() ==> {
                let c = #[trigger] escape_html(s)[i];
                c != '<' && c != '>' && c != '"'
            },
    decreases s.len(),
{
    if s.len() > 0 {
        reveal_strlit("&amp;");
        reveal_strlit("&lt;");
        reveal_strlit("&gt;");
        reveal_strlit("&quot;");
        lemma_escape_unfold(s);
        lemma_escaped_has_no_markup(s.drop_first());
        let first = escape_char(s[0]);
        let rest = escape_html(s.drop_first());
        assert forall|i: int| 0 <= i < escape_html(s).len() implies {
            let c = #[trigger] escape_html(s)[i];
            c != '<' && c != '>' && c != '"'
        } by {
            if i < first.len() {
                assert(escape_html(s)[i] == first[i]);
            } else {
                assert(escape_html(s)[i] == rest[i - first.len()]);
            }
        }
    }
}

/// A text without reserved characters is its own escaped form.
pub proof fn lemma_plain_text_unchanged(s: Seq<char>)
    requires
        forall|i: int| 0 <= i < s.len() ==> !is_reserved(#[trigger] s[i]),
    ensures
        escape_html(s) == s,
    decreases s.len(),
{
    if s.len() > 0 {
        lemma_escape_unfold(s);
        lemma_plain_text_unchanged(s.drop_first());
        assert(!is_reserved(s[0]));
        assert(seq![s[0]] + s.drop_first() =~= s);
    } else {
        assert(escape_html(s) =~= s);
    }
}

} // verus!
