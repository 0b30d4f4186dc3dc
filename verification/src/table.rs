//! Tabular data: a header and the rows below it.

use crate::error::{is_parse_error, ConvertError};
use crate::text::{chars_of, lemma_split_nonempty, split, split_chars, string_of};
use vstd::prelude::*;
use vstd::string::StringExecFns;

verus! {

/// A table of text fields. A row may have more or fewer fields than the
/// header.
#[derive(Debug, Clone, PartialEq, Eq)]
pub struct Table {
    /// The column names.
    pub header: Vec<String>,
    /// The data rows, in order.
    pub rows: Vec<Vec<String>>,
}

/// What a [`Table`] holds, as sequences of characters.
pub struct TableView {
    /// The column names.
    pub header: Seq<Seq<char>>,
    /// The data rows, in order.
    pub rows: Seq<Seq<Seq<char>>>,
}

impl View for Table {
    type V = TableView;

    open spec fn view(&self) -> TableView {
        TableView { header: self.header.deep_view(), rows: self.rows.deep_view() }
    }
}

/// The table that a text denotes when every line break ends a row and
/// every comma ends a field. Quotes have no meaning. The first line is the
/// header, also where the text is empty.
pub open spec fn plain_table(text: Seq<char>) -> TableView {
    let lines = split(text, '\n');
    TableView {
        header: split(lines[0], ','),
        rows: lines.drop_first().map_values(|line: Seq<char>| split(line, ',')),
    }
}

/// The fields of one line: its pieces between commas.
pub fn fields_of(line: &Vec<char>) -> (fields: Vec<String>)
    ensures
        fields.deep_view() == split(line@, ','),
{
    let pieces = split_chars(line, ',');
    let mut fields: Vec<String> = Vec::new();
    let mut i: usize = 0;
    while i < pieces.len()
        invariant
            i <= pieces.len(),
            fields.len() == i,
            forall|k: int| 0 <= k < i ==> (#[trigger] fields@[k])@ == pieces@[k]@,
        decreases pieces.len() - i,
    {
        fields.push(string_of(&pieces[i]));
        i += 1;
    }
    assert(fields.deep_view() =~~= pieces.deep_view());
    fields
}

/// Reads `text` as a table without quoting: lines are rows, commas part
/// fields.
pub fn split_table(text: &str) -> (table: Table)
    ensures
        table@ == plain_table(text@),
{
    let chars = chars_of(text);
    let lines = split_chars(&chars, '\n');
    proof {
        lemma_split_nonempty(text@, '\n');
    }
    assert(lines.deep_view()[0] =~= lines@[0]@);
    let header = fields_of(&lines[0]);
    let mut rows: Vec<Vec<String>> = Vec::new();
    let mut i: usize = 1;
    while i < lines.len()
        invariant
            1 <= i <= lines.len(),
            rows.len() == i - 1,
            forall|k: int|
                0 <= k < i - 1 ==> (#[trigger] rows@[k]).deep_view() == split(lines@[k + 1]@, ','),
        decreases lines.len() - i,
    {
        rows.push(fields_of(&lines[i]));
        i += 1;
    }
    let table = Table { header, rows };
    proof {
        let all = split(text@, '\n');
        let want = plain_table(text@);
        assert(table@.header == want.header);
        assert(table@.rows.len() == want.rows.len());
        assert forall|k: int| 0 <= k < want.rows.len() implies table@.rows[k] == want.rows[k] by {
            assert(lines.deep_view()[k + 1] =~= lines@[k + 1]@);
            assert(all.drop_first()[k] == all[k + 1]);
        }
        assert(table@.rows =~= want.rows);
    }
    table
}

/// `csv::Reader`: the reader that parts a text into records. It is made,
/// asked for the header and for one record after the other, and never looked
/// into.
#[verifier::external_type_specification]
#[verifier::external_body]
#[verifier::reject_recursive_types(R)]
pub struct ExCsvReader<R>(csv::Reader<R>);

/// `csv::Error`: what the reader hands back in place of a record. It is
/// asked for its description and never looked into.
#[verifier::external_type_specification]
#[verifier::external_body]
pub struct ExCsvError(csv::Error);

/// The header that a reader gives, as `csv::Reader::headers` returns it:
/// the fields of the first record, or an error. Reading records does not
/// change it.
pub uninterp spec fn reader_header(reader: csv::Reader<&[u8]>) -> Result<
    Seq<Seq<char>>,
    csv::Error,
>;

/// What a reader has yet to yield through `csv::Reader::records`, in order:
/// for each record to come its fields, or the error that the reader reports
/// at it.
pub uninterp spec fn reader_rest(reader: csv::Reader<&[u8]>) -> Seq<
    Result<Seq<Seq<char>>, csv::Error>,
>;

/// The header of a text, for a reader as `open_reader` makes it.
pub uninterp spec fn csv_header(text: Seq<char>) -> Result<Seq<Seq<char>>, csv::Error>;

/// The records of a text after its header, for a reader as `open_reader`
/// makes it.
pub uninterp spec fn csv_records(text: Seq<char>) -> Seq<Result<Seq<Seq<char>>, csv::Error>>;

/// The description that a `csv::Error` gives of itself.
pub uninterp spec fn csv_error_text(e: csv::Error) -> Seq<char>;

/// Makes a reader over the bytes of `text` with `csv::ReaderBuilder`: `new`,
/// `has_headers(true)` so that the first record is the header,
/// `flexible(true)` so that records may differ in length, and `from_reader`.
/// What the reader will give is determined by the text alone; the contract
/// gives it the names `csv_header` and `csv_records`.
#[verifier::external_body]
fn open_reader<'a>(text: &'a str) -> (reader: csv::Reader<&'a [u8]>)
    ensures
        reader_header(reader) == csv_header(text@),
        reader_rest(reader) == csv_records(text@),
{
    csv::ReaderBuilder::new().has_headers(true).flexible(true).from_reader(text.as_bytes())
}

/// Calls `csv::Reader::headers` and copies every field into a `String`. The
/// contract says that this is the reader's header and that it leaves the
/// header and the records to come as they were.
#[verifier::external_body]
fn read_header(reader: &mut csv::Reader<&[u8]>) -> (r: Result<Vec<String>, csv::Error>)
    ensures
        reader_header(*final(reader)) == reader_header(*old(reader)),
        reader_rest(*final(reader)) == reader_rest(*old(reader)),
        match r {
            Ok(header) => reader_header(*old(reader)) == Ok::<Seq<Seq<char>>, csv::Error>(
                header.deep_view(),
            ),
            Err(e) => reader_header(*old(reader)) == Err::<Seq<Seq<char>>, csv::Error>(e),
        },
{
    Ok(reader.headers()?.iter().map(String::from).collect())
}

/// Calls `next` on `csv::Reader::records` and copies every field of the
/// record into a `String`. The contract says that this is the first of the
/// records to come, that the others are left to come, and that there is
/// nothing where none was left.
#[verifier::external_body]
fn next_record(reader: &mut csv::Reader<&[u8]>) -> (r: Option<Result<Vec<String>, csv::Error>>)
    ensures
        reader_header(*final(reader)) == reader_header(*old(reader)),
        match r {
            Some(outcome) => reader_rest(*old(reader)).len() > 0 && reader_rest(*final(reader))
                == reader_rest(*old(reader)).drop_first() && match outcome {
                Ok(fields) => reader_rest(*old(reader))[0] == Ok::<Seq<Seq<char>>, csv::Error>(
                    fields.deep_view(),
                ),
                Err(e) => reader_rest(*old(reader))[0] == Err::<Seq<Seq<char>>, csv::Error>(e),
            },
            None => reader_rest(*old(reader)).len() == 0 && reader_rest(*final(reader)).len() == 0,
        },
{
    Some(reader.records().next()?.map(|record| record.iter().map(String::from).collect()))
}

/// Calls `to_string` on a `csv::Error`, which writes its `Display` form. The
/// words are determined by the error alone; the contract gives them the name
/// `csv_error_text` and claims nothing else of them.
#[verifier::external_body]
fn csv_error_words(e: &csv::Error) -> (words: String)
    ensures
        words@ == csv_error_text(*e),
{
    e.to_string()
}

/// `r` with `rows` in front of its rows, where it has rows.
pub open spec fn prepend_rows(
    rows: Seq<Seq<Seq<char>>>,
    r: Result<Seq<Seq<Seq<char>>>, csv::Error>,
) -> Result<Seq<Seq<Seq<char>>>, csv::Error> {
    match r {
        Ok(rest) => Ok(rows + rest),
        Err(e) => Err(e),
    }
}

/// The rows that `records` give, or the first error among them.
pub open spec fn read_rows(records: Seq<Result<Seq<Seq<char>>, csv::Error>>) -> Result<
    Seq<Seq<Seq<char>>>,
    csv::Error,
>
    decreases records.len(),
{
    if records.len() == 0 {
        Ok(Seq::empty())
    } else {
        match records[0] {
            Ok(fields) => prepend_rows(seq![fields], read_rows(records.drop_first())),
            Err(e) => Err(e),
        }
    }
}

/// The description of the failure where a CSV text has no header row.
pub open spec fn no_header_text() -> Seq<char> {
    "CSV has no header row"@
}

/// What reading a text as CSV gives: the table, or the description of the
/// failure. The reader's error at the header comes first; then the header
/// without a field, which is so where the text holds no record at all; then
/// the reader's first error at a record.
pub open spec fn csv_read(text: Seq<char>) -> Result<TableView, Seq<char>> {
    match csv_header(text) {
        Ok(header) => if header.len() == 0 {
            Err(no_header_text())
        } else {
            match read_rows(csv_records(text)) {
                Ok(rows) => Ok(TableView { header, rows }),
                Err(e) => Err(csv_error_text(e)),
            }
        },
        Err(e) => Err(csv_error_text(e)),
    }
}

/// Whether `r` is `read`: the table, or a `ParseError` with the
/// description.
pub open spec fn is_table_of(read: Result<TableView, Seq<char>>, r: Result<
    Table,
    ConvertError,
>) -> bool {
    match read {
        Ok(table) => r matches Ok(t) && t@ == table,
        Err(words) => is_parse_error(r, words),
    }
}

/// Takes what the reader returned for the header: a header with a field is
/// handed on, one without is refused, and the reader's failure becomes a
/// `ParseError` with the reader's description.
pub fn header_from(read: Result<Vec<String>, csv::Error>) -> (r: Result<Vec<String>, ConvertError>)
    ensures
        match read {
            Ok(header) => if header.len() > 0 {
                r matches Ok(h) && h == header
            } else {
                is_parse_error(r, no_header_text())
            },
            Err(e) => is_parse_error(r, csv_error_text(e)),
        },
{
    match read {
        Ok(header) => {
            if header.len() > 0 {
                Ok(header)
            } else {
                Err(ConvertError::ParseError(String::from_str("CSV has no header row")))
            }
        },
        Err(e) => Err(ConvertError::ParseError(csv_error_words(&e))),
    }
}

/// Takes what the reader returned for one record: its fields become the
/// next row, and the reader's failure becomes a `ParseError` with the
/// reader's description.
pub fn add_record(rows: &mut Vec<Vec<String>>, outcome: Result<Vec<String>, csv::Error>) -> (r:
    Result<(), ConvertError>)
    ensures
        match outcome {
            Ok(fields) => r is Ok && final(rows)@ == old(rows)@.push(fields),
            Err(e) => is_parse_error(r, csv_error_text(e)) && final(rows)@ == old(rows)@,
        },
{
    match outcome {
        Ok(fields) => {
            rows.push(fields);
            Ok(())
        },
        Err(e) => Err(ConvertError::ParseError(csv_error_words(&e))),
    }
}

/// Reads `text` as CSV with a header row. Fields may be quoted, and rows
/// may have more or fewer fields than the header. The first failure of the
/// reader ends the reading.
pub fn read_csv(text: &str) -> (r: Result<Table, ConvertError>)
    ensures
        is_table_of(csv_read(text@), r),
{
    let mut reader = open_reader(text);
    let header = match header_from(read_header(&mut reader)) {
        Ok(header) => header,
        Err(e) => {
            return Err(e);
        },
    };
    let ghost records = csv_records(text@);
    let mut rows: Vec<Vec<String>> = Vec::new();
    assert(read_rows(records) matches Ok(all) ==> rows.deep_view() + all == all);
    loop
        invariant_except_break
            read_rows(records) == prepend_rows(rows.deep_view(), read_rows(reader_rest(reader))),
        invariant
            records == csv_records(text@),
            csv_header(text@) == Ok::<Seq<Seq<char>>, csv::Error>(header.deep_view()),
            header.len() > 0,
        ensures
            read_rows(records) == Ok::<Seq<Seq<Seq<char>>>, csv::Error>(rows.deep_view()),
        decreases reader_rest(reader).len(),
    {
        let ghost before = rows.deep_view();
        match next_record(&mut reader) {
            None => {
                assert(before + Seq::<Seq<Seq<char>>>::empty() =~= before);
                break ;
            },
            Some(outcome) => {
                let ghost got = outcome;
                match add_record(&mut rows, outcome) {
                    Ok(()) => {
                        assert(got matches Ok(fields) && rows.deep_view() =~= before
                            + seq![fields.deep_view()]);
                        assert(forall|r: Seq<Seq<Seq<char>>>|
                            before + (seq![got->Ok_0.deep_view()] + r) =~= rows.deep_view() + r);
                    },
                    Err(e) => {
                        return Err(e);
                    },
                }
            },
        }
    }
    Ok(Table { header, rows })
}

} // verus!
