//! Listings of the collected scripts: as plain lines, as CSV, and as a table
//! with one column for each directory.
//!
//! Nothing is printed here. Each function hands back what is to be printed.

use vstd::prelude::*;
use vstd::string::*;
use crate::scripts::models::{ScriptInfo, ScriptInfoView};
use crate::text::{append_text, sort_texts, sorted_texts, str_eq};

verus! {

/// Why a listing could not be made.
#[derive(Debug)]
pub enum ListError {
    /// The format is none of `plain`, `json`, `csv` and `table`.
    UnsupportedFormat(String),
    /// The CSV writer failed, with its message.
    Csv(String),
}

/// A listing, or what the caller is to make it from.
#[derive(Debug)]
pub enum Listing {
    /// The lines to print, one for each script.
    Plain(Vec<String>),
    /// The caller serialises the scripts as JSON.
    Json,
    /// The bytes to print.
    Csv(Vec<u8>),
    /// The caller reads the directories and lays them out with `table_lines`.
    Table,
}

/// A listing as texts and bytes.
pub enum ListingView {
    Plain(Seq<Seq<char>>),
    Json,
    Csv(Seq<u8>),
    Table,
}

impl View for Listing {
    type V = ListingView;

    open spec fn view(&self) -> ListingView {
        match self {
            Listing::Plain(lines) => ListingView::Plain(lines.deep_view()),
            Listing::Json => ListingView::Json,
            Listing::Csv(bytes) => ListingView::Csv(bytes@),
            Listing::Table => ListingView::Table,
        }
    }
}

/// The line of a script in a plain listing: its name, and its operating
/// system in square brackets.
pub open spec fn plain_line(info: ScriptInfoView) -> Seq<char> {
    info.name + " ["@ + info.os_type + "]"@
}

/// The lines of a plain listing: one for each script, in their order.
pub open spec fn plain_lines(infos: Seq<ScriptInfoView>) -> Seq<Seq<char>> {
    Seq::new(infos.len(), |i: int| plain_line(infos[i]))
}

/// The first record of a CSV listing.
pub open spec fn csv_header() -> Seq<Seq<char>> {
    seq!["Script Name"@, "OS Type"@, "Path"@]
}

/// The record of a script in a CSV listing.
pub open spec fn csv_row(info: ScriptInfoView) -> Seq<Seq<char>> {
    seq![info.name, info.os_type, info.path]
}

/// The records of a CSV listing: the header, then one record for each script.
pub open spec fn csv_records(infos: Seq<ScriptInfoView>) -> Seq<Seq<Seq<char>>> {
    seq![csv_header()] + Seq::new(infos.len(), |i: int| csv_row(infos[i]))
}

/// The bytes that the CSV writer of the `csv` crate, as it is configured by
/// default, writes for one record with the given fields: the fields, quoted
/// where they need it and separated by commas, and a line feed.
pub uninterp spec fn csv_record_bytes(fields: Seq<Seq<char>>) -> Seq<u8>;

/// The bytes of a CSV document: those of its records, one after the other.
pub open spec fn csv_document(records: Seq<Seq<Seq<char>>>) -> Seq<u8>
    decreases records.len(),
{
    if records.len() == 0 {
        Seq::empty()
    } else {
        csv_document(records.drop_last()) + csv_record_bytes(records.last())
    }
}

/// The error of the `csv` crate. It is carried from the writer to
/// `append_record` as it is, and nothing is known of what it holds.
#[verifier::external_type_specification]
#[verifier::external_body]
pub struct ExCsvError(csv::Error);

/// One record as the `csv` crate writes it.
///
/// Builds a writer with `csv::WriterBuilder::new().from_writer` over an empty
/// vector, writes the fields with `csv::Writer::write_record`, and takes the
/// vector back with `csv::Writer::into_inner`. What the writer puts out for a
/// record depends on the fields of that record alone, so the bytes have a
/// name. Whether the writer fails is left open.
#[verifier::external_body]
fn write_csv_record(fields: &Vec<String>) -> (written: Result<Vec<u8>, csv::Error>)
    ensures
        written matches Ok(bytes) ==> bytes@ == csv_record_bytes(fields.deep_view()),
{
    let mut writer = csv::WriterBuilder::new().from_writer(Vec::new());
    writer.write_record(fields)?;
    writer.into_inner().map_err(|e| csv::Error::from(e.into_error()))
}

/// The message of an error of the `csv` crate, as its `Display` impl writes
/// it. Nothing is stated of the text.
#[verifier::external_body]
fn csv_error_message(error: &csv::Error) -> String {
    error.to_string()
}

/// Adds what the writer made of one record to a document: its bytes where it
/// wrote them, and nothing where it failed.
pub fn append_record(document: &mut Vec<u8>, written: Result<Vec<u8>, csv::Error>) -> (result:
    Result<(), ListError>)
    ensures
        match written {
            Ok(bytes) => result is Ok && final(document)@ == old(document)@ + bytes@,
            Err(_) => result matches Err(e) && e is Csv && final(document)@ == old(document)@,
        },
{
    match written {
        Ok(mut bytes) => {
            document.append(&mut bytes);
            Ok(())
        },
        Err(e) => Err(ListError::Csv(csv_error_message(&e))),
    }
}

/// The records of a CSV listing of the scripts.
pub fn to_csv_records(script_infos: &Vec<ScriptInfo>) -> (records: Vec<Vec<String>>)
    ensures
        records.deep_view() == csv_records(script_infos.deep_view()),
{
    let mut header: Vec<String> = Vec::new();
    header.push(String::from_str("Script Name"));
    header.push(String::from_str("OS Type"));
    header.push(String::from_str("Path"));
    assert(header.deep_view() =~= csv_header());
    let mut records: Vec<Vec<String>> = Vec::new();
    records.push(header);
    for i in 0..script_infos.len()
        invariant
            records.len() == i + 1,
            records[0].deep_view() == csv_header(),
            forall|j: int| 0 <= j < i ==> (#[trigger] records[j + 1]).deep_view() == csv_row(
                script_infos[j]@,
            ),
    {
        let info = &script_infos[i];
        let mut row: Vec<String> = Vec::new();
        row.push(info.name.clone());
        row.push(info.os_type.clone());
        row.push(info.path.clone());
        assert(row.deep_view() =~= csv_row(info@));
        records.push(row);
    }
    proof {
        let want = csv_records(script_infos.deep_view());
        let have = records.deep_view();
        assert(have.len() == want.len());
        assert forall|k: int| 0 <= k < have.len() implies have[k] == want[k] by {
            if k > 0 {
                assert(records[(k - 1) + 1].deep_view() == csv_row(script_infos[k - 1]@));
            }
        }
        assert(have =~= want);
    }
    records
}

/// The CSV document with the given records, as the `csv` crate writes it.
/// Where the writer fails on a record, its error comes back.
pub fn write_csv(records: &Vec<Vec<String>>) -> (result: Result<Vec<u8>, ListError>)
    ensures
        match result {
            Ok(bytes) => bytes@ == csv_document(records.deep_view()),
            Err(e) => e is Csv,
        },
        records@.len() == 0 ==> result is Ok,
{
    let ghost all = records.deep_view();
    let mut document: Vec<u8> = Vec::new();
    for i in 0..records.len()
        invariant
            all == records.deep_view(),
            document@ == csv_document(all.take(i as int)),
    {
        proof {
            assert(all.take(i + 1).drop_last() =~= all.take(i as int));
            assert(all.take(i + 1).last() == records[i as int].deep_view());
        }
        let written = write_csv_record(&records[i]);
        match append_record(&mut document, written) {
            Ok(()) => {},
            Err(e) => {
                return Err(e);
            },
        }
    }
    assert(all.take(records.len() as int) =~= all);
    Ok(document)
}

/// The lines of a plain listing of the scripts.
pub fn to_plain_lines(script_infos: &Vec<ScriptInfo>) -> (lines: Vec<String>)
    ensures
        lines.deep_view() == plain_lines(script_infos.deep_view()),
{
    let mut lines: Vec<String> = Vec::new();
    for i in 0..script_infos.len()
        invariant
            lines.len() == i,
            forall|j: int| 0 <= j < i ==> lines[j]@ == plain_line(script_infos[j]@),
    {
        let info = &script_infos[i];
        let opened = append_text(info.name.as_str(), " [");
        let tagged = append_text(opened.as_str(), info.os_type.as_str());
        lines.push(append_text(tagged.as_str(), "]"));
    }
    assert(lines.deep_view() =~= plain_lines(script_infos.deep_view()));
    lines
}

/// The listing of the scripts in the format with the given name.
///
/// `plain` gives the lines, and `csv` the bytes of the document, unless the
/// CSV writer fails. For `json` and `table` the caller does the work. Any
/// other name is an error.
pub fn list_scripts(script_infos: &Vec<ScriptInfo>, format: &str) -> (result: Result<
    Listing,
    ListError,
>)
    ensures
        format@ == "plain"@ ==> (result matches Ok(listing) && listing@ == ListingView::Plain(
            plain_lines(script_infos.deep_view()),
        )),
        format@ == "json"@ ==> (result matches Ok(listing) && listing@ == ListingView::Json),
        format@ == "table"@ ==> (result matches Ok(listing) && listing@ == ListingView::Table),
        format@ == "csv"@ ==> match result {
            Ok(listing) => listing@ == ListingView::Csv(
                csv_document(csv_records(script_infos.deep_view())),
            ),
            Err(e) => e is Csv,
        },
        format@ != "plain"@ && format@ != "json"@ && format@ != "table"@ && format@ != "csv"@
            ==> (result matches Err(ListError::UnsupportedFormat(name)) && name@ == format@),
{
    proof {
        reveal_strlit("plain");
        reveal_strlit("json");
        reveal_strlit("table");
        reveal_strlit("csv");
        assert("plain"@.len() == 5 && "plain"@[0] == 'p');
        assert("table"@.len() == 5 && "table"@[0] == 't');
        assert("json"@.len() == 4);
        assert("csv"@.len() == 3);
    }
    if str_eq(format, "plain") {
        Ok(Listing::Plain(to_plain_lines(script_infos)))
    } else if str_eq(format, "json") {
        Ok(Listing::Json)
    } else if str_eq(format, "csv") {
        let records = to_csv_records(script_infos);
        match write_csv(&records) {
            Ok(bytes) => Ok(Listing::Csv(bytes)),
            Err(e) => Err(e),
        }
    } else if str_eq(format, "table") {
        Ok(Listing::Table)
    } else {
        Err(ListError::UnsupportedFormat(String::from_str(format)))
    }
}

/// A column of the table: a directory and the names of its entries.
#[derive(Debug)]
pub struct TableColumn {
    pub title: String,
    pub entries: Vec<String>,
}

/// A column as texts.
pub struct TableColumnView {
    pub title: Seq<char>,
    pub entries: Seq<Seq<char>>,
}

impl View for TableColumn {
    type V = TableColumnView;

    open spec fn view(&self) -> TableColumnView {
        TableColumnView { title: self.title@, entries: self.entries.deep_view() }
    }
}

impl DeepView for TableColumn {
    type V = TableColumnView;

    open spec fn deep_view(&self) -> TableColumnView {
        self@
    }
}

/// The column of a directory with the given entries: its title is the name of
/// the directory, and its entries stand in ascending order.
pub fn directory_column(name: &str, entries: &Vec<String>) -> (column: TableColumn)
    ensures
        column@.title == name@,
        sorted_texts(column@.entries),
        column@.entries.to_multiset() == entries.deep_view().to_multiset(),
{
    TableColumn { title: String::from_str(name), entries: sort_texts(entries) }
}

/// The width of a column of the table, in characters.
pub open spec fn column_width() -> nat {
    30
}

/// `text`, followed by as many spaces as it takes to fill `width` characters.
/// A longer text stays as it is.
pub open spec fn padded(text: Seq<char>, width: nat) -> Seq<char> {
    text + Seq::new(
        if text.len() < width {
            (width - text.len()) as nat
        } else {
            0
        },
        |i: int| ' ',
    )
}

/// A rule of `width` hyphens.
pub open spec fn rule(width: nat) -> Seq<char> {
    Seq::new(width, |i: int| '-')
}

/// The cells of a line put together.
pub open spec fn joined(cells: Seq<Seq<char>>) -> Seq<char>
    decreases cells.len(),
{
    if cells.len() == 0 {
        Seq::empty()
    } else {
        joined(cells.drop_last()) + cells.last()
    }
}

/// The entry of a column in the given row, or nothing where the column is
/// shorter.
pub open spec fn entry_at(column: TableColumnView, row: int) -> Seq<char> {
    if 0 <= row < column.entries.len() {
        column.entries[row]
    } else {
        Seq::empty()
    }
}

/// The line with the titles of the columns.
pub open spec fn header_line(columns: Seq<TableColumnView>) -> Seq<char> {
    joined(Seq::new(columns.len(), |c: int| padded(columns[c].title, column_width())))
}

/// The line below the titles: a rule for each column.
pub open spec fn rule_line(columns: Seq<TableColumnView>) -> Seq<char> {
    joined(Seq::new(columns.len(), |c: int| rule(column_width())))
}

/// The line with the entries of the given row.
pub open spec fn row_line(columns: Seq<TableColumnView>, row: int) -> Seq<char> {
    joined(Seq::new(columns.len(), |c: int| padded(entry_at(columns[c], row), column_width())))
}

/// The number of rows of the table: the length of its longest column.
pub open spec fn row_count(columns: Seq<TableColumnView>) -> nat
    decreases columns.len(),
{
    if columns.len() == 0 {
        0
    } else {
        let before = row_count(columns.drop_last());
        if columns.last().entries.len() > before {
            columns.last().entries.len()
        } else {
            before
        }
    }
}

/// The lines of the table: the titles, the rules, and the rows.
pub open spec fn table(columns: Seq<TableColumnView>) -> Seq<Seq<char>> {
    seq![header_line(columns), rule_line(columns)] + Seq::new(
        row_count(columns),
        |r: int| row_line(columns, r),
    )
}

/// A line that got one more cell.
proof fn lemma_joined_next(cells: Seq<Seq<char>>, longer: Seq<Seq<char>>)
    requires
        longer.len() == cells.len() + 1,
        longer.drop_last() == cells,
    ensures
        joined(longer) == joined(cells) + longer.last(),
{
}

/// `text`, filled with spaces to `width` characters.
pub fn pad(text: &str, width: usize) -> (cell: String)
    ensures
        cell@ == padded(text@, width as nat),
{
    let length = text.unicode_len();
    let mut cell = String::from_str(text);
    proof {
        reveal_strlit(" ");
        assert(cell@ =~= text@ + Seq::new(0, |i: int| ' '));
    }
    let mut filled: usize = length;
    while filled < width
        invariant
            length == text@.len(),
            length <= filled,
            length < width ==> filled <= width,
            length >= width ==> filled == length,
            " "@.len() == 1 && " "@[0] == ' ',
            cell@ == text@ + Seq::new((filled - length) as nat, |i: int| ' '),
        decreases width - filled,
    {
        cell.append(" ");
        filled += 1;
        assert(cell@ =~= text@ + Seq::new((filled - length) as nat, |i: int| ' '));
    }
    cell
}

/// A rule of `width` hyphens.
pub fn rule_text(width: usize) -> (text: String)
    ensures
        text@ == rule(width as nat),
{
    let mut text = String::new();
    proof {
        reveal_strlit("-");
        assert(text@ =~= rule(0));
    }
    for i in 0..width
        invariant
            "-"@.len() == 1 && "-"@[0] == '-',
            text@ == rule(i as nat),
    {
        text.append("-");
        assert(text@ =~= rule((i + 1) as nat));
    }
    text
}

/// The number of rows of the table.
pub fn count_rows(columns: &Vec<TableColumn>) -> (rows: usize)
    ensures
        rows == row_count(columns.deep_view()),
{
    let ghost all = columns.deep_view();
    let mut rows: usize = 0;
    for c in 0..columns.len()
        invariant
            all == columns.deep_view(),
            rows == row_count(all.take(c as int)),
    {
        proof {
            assert(all.take(c + 1).drop_last() =~= all.take(c as int));
            assert(all.take(c + 1).last() == columns[c as int]@);
        }
        if columns[c].entries.len() > rows {
            rows = columns[c].entries.len();
        }
    }
    assert(all.take(columns.len() as int) =~= all);
    rows
}

/// The line with the titles of the columns.
pub fn header_text(columns: &Vec<TableColumn>) -> (line: String)
    ensures
        line@ == header_line(columns.deep_view()),
{
    let ghost all = columns.deep_view();
    let ghost cells = Seq::new(all.len(), |c: int| padded(all[c].title, column_width()));
    let mut line = String::new();
    assert(cells.take(0) =~= Seq::<Seq<char>>::empty());
    for c in 0..columns.len()
        invariant
            all == columns.deep_view(),
            cells == Seq::new(all.len(), |c: int| padded(all[c].title, column_width())),
            line@ == joined(cells.take(c as int)),
    {
        let cell = pad(columns[c].title.as_str(), 30);
        proof {
            assert(all[c as int] == columns[c as int]@);
            assert(cells.take(c + 1).drop_last() =~= cells.take(c as int));
            lemma_joined_next(cells.take(c as int), cells.take(c + 1));
        }
        line.append(cell.as_str());
    }
    assert(cells.take(columns.len() as int) =~= cells);
    line
}

/// The line below the titles.
pub fn rule_line_text(columns: &Vec<TableColumn>) -> (line: String)
    ensures
        line@ == rule_line(columns.deep_view()),
{
    let ghost all = columns.deep_view();
    let ghost cells = Seq::new(all.len(), |c: int| rule(column_width()));
    let mut line = String::new();
    assert(cells.take(0) =~= Seq::<Seq<char>>::empty());
    for c in 0..columns.len()
        invariant
            all == columns.deep_view(),
            cells == Seq::new(all.len(), |c: int| rule(column_width())),
            line@ == joined(cells.take(c as int)),
    {
        let cell = rule_text(30);
        proof {
            assert(cells.take(c + 1).drop_last() =~= cells.take(c as int));
            lemma_joined_next(cells.take(c as int), cells.take(c + 1));
        }
        line.append(cell.as_str());
    }
    assert(cells.take(columns.len() as int) =~= cells);
    line
}

/// The line with the entries of the given row.
pub fn row_text(columns: &Vec<TableColumn>, row: usize) -> (line: String)
    ensures
        line@ == row_line(columns.deep_view(), row as int),
{
    let ghost all = columns.deep_view();
    let ghost cells = Seq::new(
        all.len(),
        |c: int| padded(entry_at(all[c], row as int), column_width()),
    );
    let mut line = String::new();
    assert(cells.take(0) =~= Seq::<Seq<char>>::empty());
    for c in 0..columns.len()
        invariant
            all == columns.deep_view(),
            cells == Seq::new(
                all.len(),
                |c: int| padded(entry_at(all[c], row as int), column_width()),
            ),
            line@ == joined(cells.take(c as int)),
    {
        let column = &columns[c];
        proof {
            reveal_strlit("");
            assert(all[c as int] == column@);
            if row < column.entries.len() {
                assert(column.entries.deep_view()[row as int] == column.entries[row as int]@);
            }
        }
        let cell = if row < column.entries.len() {
            pad(column.entries[row].as_str(), 30)
        } else {
            pad("", 30)
        };
        proof {
            assert(cells.take(c + 1).drop_last() =~= cells.take(c as int));
            lemma_joined_next(cells.take(c as int), cells.take(c + 1));
        }
        line.append(cell.as_str());
    }
    assert(cells.take(columns.len() as int) =~= cells);
    line
}

/// The lines of a table with one column for each directory: the titles, a
/// rule below each, and a row for each entry of the longest column. Every
/// cell is filled to thirty characters.
pub fn table_lines(columns: &Vec<TableColumn>) -> (lines: Vec<String>)
    ensures
        lines.deep_view() == table(columns.deep_view()),
{
    let ghost all = columns.deep_view();
    let rows = count_rows(columns);
    let mut lines: Vec<String> = Vec::new();
    lines.push(header_text(columns));
    lines.push(rule_line_text(columns));
    for r in 0..rows
        invariant
            all == columns.deep_view(),
            lines.len() == r + 2,
            lines[0]@ == header_line(all),
            lines[1]@ == rule_line(all),
            forall|k: int| 0 <= k < r ==> (#[trigger] lines[k + 2])@ == row_line(all, k),
    {
        lines.push(row_text(columns, r));
    }
    proof {
        let have = lines.deep_view();
        let want = table(all);
        assert(have.len() == want.len());
        assert forall|k: int| 0 <= k < have.len() implies have[k] == want[k] by {
            if k >= 2 {
                assert(lines[(k - 2) + 2]@ == row_line(all, k - 2));
            }
        }
        assert(have =~= want);
    }
    lines
}

} // verus!
