//! Upstream payloads and the rows that they are shaped into.
use vstd::prelude::*;

use crate::json::{map_members, new_map, no_members, set_member, trees, Json, JsonView};

verus! {

/// The error that the upstream service reports inside a payload.
pub struct GoogleApiError {
    pub message: String,
}

/// The payload of a values request: the cells of the sheet, row by row.
pub struct SheetValuesResponse {
    pub values: Option<Vec<Vec<Json>>>,
    pub error: Option<GoogleApiError>,
}

/// The properties of one sheet of a spreadsheet.
pub struct SpreadsheetSheetProperties {
    pub title: String,
}

/// One sheet of a spreadsheet.
pub struct SpreadsheetSheet {
    pub properties: SpreadsheetSheetProperties,
}

/// The payload of a metadata request: the sheets of the spreadsheet in their order.
pub struct SpreadsheetMetadataResponse {
    pub sheets: Vec<SpreadsheetSheet>,
    pub error: Option<GoogleApiError>,
}

/// The message of an error that a payload may report.
pub open spec fn api_error_text(error: Option<GoogleApiError>) -> Option<Seq<char>> {
    match error {
        Some(error) => Some(error.message@),
        None => None,
    }
}

/// The trees of the cells of a sheet, row by row.
pub open spec fn cell_trees(values: Seq<Vec<Json>>) -> Seq<Seq<JsonView>> {
    values.map_values(|row: Vec<Json>| trees(row@))
}

/// The cells that a payload holds; a payload without values holds no rows.
pub open spec fn payload_cells(values: Option<Vec<Vec<Json>>>) -> Seq<Seq<JsonView>> {
    match values {
        Some(values) => cell_trees(values@),
        None => Seq::empty(),
    }
}

/// The titles of the sheets that a metadata payload lists.
pub open spec fn sheet_titles(sheets: Seq<SpreadsheetSheet>) -> Seq<Seq<char>> {
    sheets.map_values(|sheet: SpreadsheetSheet| sheet.properties.title@)
}

/// The key of the cell at a column: the text of its header, or `undefined` where the column
/// has no header that is a text.
pub open spec fn column_key(headers: Seq<JsonView>, column: int) -> Seq<char> {
    if 0 <= column < headers.len() && headers[column] is Text {
        headers[column]->Text_0
    } else {
        "undefined"@
    }
}

/// The members that the cells of a row become; where two columns have one key, the last one
/// stays.
pub open spec fn row_members(headers: Seq<JsonView>, row: Seq<JsonView>) -> Map<
    Seq<char>,
    JsonView,
>
    decreases row.len(),
{
    if row.len() == 0 {
        no_members()
    } else {
        row_members(headers, row.drop_last()).insert(
            column_key(headers, row.len() - 1),
            row.last(),
        )
    }
}

/// The objects that the rows of a sheet become: the first row gives the keys, each row after it
/// one object.
pub open spec fn shaped_rows(cells: Seq<Seq<JsonView>>) -> Seq<JsonView> {
    if cells.len() == 0 {
        Seq::empty()
    } else {
        Seq::new(
            (cells.len() - 1) as nat,
            |i: int| JsonView::Object(row_members(cells[0], cells[i + 1])),
        )
    }
}

/// The key of a column.
fn key_of_column(headers: &Vec<Json>, column: usize) -> (key: String)
    ensures
        key@ == column_key(trees(headers@), column as int),
{
    if column < headers.len() {
        match &headers[column] {
            Json::Text(text) => text.clone(),
            _ => "undefined".to_owned(),
        }
    } else {
        "undefined".to_owned()
    }
}

/// Shapes one row into an object.
pub fn shape_row(headers: &Vec<Json>, row: Vec<Json>) -> (object: Json)
    ensures
        object@ == JsonView::Object(row_members(trees(headers@), trees(row@))),
{
    let ghost all = row@;
    let mut members = new_map();
    let mut column: usize = 0;
    let width: usize = row.len();
    assert(trees(all).take(0) == Seq::<JsonView>::empty());
    for item in iter: row.into_iter()
        invariant
            iter.seq() == all,
            column == iter.index(),
            all.len() == width,
            map_members(members) == row_members(
                trees(headers@),
                trees(all).take(iter.index() as int),
            ),
    {
        proof {
            let longer = trees(all).take(column + 1);
            assert(longer.drop_last() == trees(all).take(column as int));
            assert(longer.last() == item@);
        }
        set_member(&mut members, key_of_column(headers, column), item);
        column = column + 1;
    }
    assert(trees(all).take(all.len() as int) == trees(all));
    Json::Object(members)
}

/// Shapes the cells of a sheet into rows keyed by the header row.
pub fn values_to_rows(values: Vec<Vec<Json>>) -> (rows: Vec<Json>)
    ensures
        trees(rows@) == shaped_rows(cell_trees(values@)),
{
    let ghost all = values@;
    let mut rows: Vec<Json> = Vec::new();
    let mut headers: Vec<Json> = Vec::new();
    let mut first: bool = true;
    for row in iter: values.into_iter()
        invariant
            iter.seq() == all,
            first == (iter.index() == 0),
            iter.index() == 0 ==> rows@.len() == 0,
            iter.index() > 0 ==> headers == all[0] && trees(rows@) == shaped_rows(
                cell_trees(all),
            ).take(iter.index() - 1),
    {
        if first {
            headers = row;
            first = false;
        } else {
            let ghost before = rows@;
            let object = shape_row(&headers, row);
            rows.push(object);
            assert(trees(rows@) == trees(before).push(object@));
        }
    }
    assert(trees(rows@) == shaped_rows(cell_trees(all)));
    rows
}

/// The keys of a row are those of its columns, and of two cells of one key the last one stays.
pub proof fn rows_are_keyed_by_column(headers: Seq<JsonView>, row: Seq<JsonView>)
    ensures
        forall|key: Seq<char>| #[trigger]
            row_members(headers, row).dom().contains(key) <==> exists|column: int|
                0 <= column < row.len() && #[trigger] column_key(headers, column) == key,
        forall|column: int|
            0 <= column < row.len() && (forall|later: int|
                column < later < row.len() ==> column_key(headers, column) != #[trigger] column_key(
                    headers,
                    later,
                )) ==> row_members(headers, row)[#[trigger] column_key(headers, column)]
                == row[column],
    decreases row.len(),
{
    if row.len() > 0 {
        let shorter = row.drop_last();
        let last = row.len() - 1;
        rows_are_keyed_by_column(headers, shorter);
        assert forall|key: Seq<char>| #[trigger]
            row_members(headers, row).dom().contains(key) implies exists|column: int|
            0 <= column < row.len() && #[trigger] column_key(headers, column) == key by {
            if key == column_key(headers, last) {
                assert(0 <= last < row.len());
            } else {
                assert(row_members(headers, shorter).dom().contains(key));
                let column = choose|column: int|
                    0 <= column < shorter.len() && #[trigger] column_key(headers, column) == key;
                assert(0 <= column < row.len());
            }
        }
        assert forall|column: int|
            0 <= column < row.len() implies #[trigger] row_members(headers, row).dom().contains(
            column_key(headers, column),
        ) by {
            if column < last {
                assert(row_members(headers, shorter).dom().contains(column_key(headers, column)));
            }
        }
        assert forall|column: int|
            0 <= column < row.len() && (forall|later: int|
                column < later < row.len() ==> column_key(headers, column) != #[trigger] column_key(
                    headers,
                    later,
                )) implies row_members(headers, row)[#[trigger] column_key(headers, column)]
            == row[column] by {
            if column < last {
                assert(column_key(headers, column) != column_key(headers, last));
                assert(shorter[column] == row[column]);
            }
        }
    }
}

/// A header row of distinct texts.
pub open spec fn distinct_texts(headers: Seq<JsonView>) -> bool {
    &&& forall|i: int| 0 <= i < headers.len() ==> #[trigger] headers[i] is Text
    &&& forall|i: int, j: int|
        0 <= i < j < headers.len() ==> #[trigger] headers[i] != #[trigger] headers[j]
}

/// Each row after the first becomes one object. Where the header row holds distinct texts and
/// the row is no longer than it, the object has exactly the cells that the row has, each under
/// its header; the missing trailing cells are omitted.
pub proof fn rows_become_objects_of_their_cells(cells: Seq<Seq<JsonView>>, index: int)
    requires
        0 < index < cells.len(),
        distinct_texts(cells[0]),
        cells[index].len() <= cells[0].len(),
    ensures
        shaped_rows(cells).len() == cells.len() - 1,
        shaped_rows(cells)[index - 1] is Object,
        forall|column: int|
            0 <= column < cells[0].len() ==> (shaped_rows(cells)[index
                - 1]->Object_0.dom().contains((#[trigger] cells[0][column])->Text_0) <==> column
                < cells[index].len()),
        forall|column: int|
            0 <= column < cells[index].len() ==> shaped_rows(cells)[index
                - 1]->Object_0[cells[0][column]->Text_0] == #[trigger] cells[index][column],
        forall|key: Seq<char>| #[trigger]
            shaped_rows(cells)[index - 1]->Object_0.dom().contains(key) ==> exists|column: int|
                0 <= column < cells[index].len() && #[trigger] cells[0][column]->Text_0 == key,
{
    let headers = cells[0];
    let row = cells[index];
    let members = row_members(headers, row);
    assert(shaped_rows(cells)[index - 1] == JsonView::Object(members));
    rows_are_keyed_by_column(headers, row);
    assert forall|i: int, j: int|
        0 <= i < headers.len() && 0 <= j < headers.len() && i != j implies #[trigger] column_key(
        headers,
        i,
    ) != #[trigger] column_key(headers, j) by {
        if i < j {
            assert(headers[i] != headers[j]);
        } else {
            assert(headers[j] != headers[i]);
        }
    }
    assert forall|column: int| 0 <= column < headers.len() implies (members.dom().contains(
        (#[trigger] headers[column])->Text_0,
    ) <==> column < row.len()) by {
        assert(column_key(headers, column) == headers[column]->Text_0);
    }
    assert forall|column: int| 0 <= column < row.len() implies members[headers[column]->Text_0]
        == #[trigger] row[column] by {
        assert(column_key(headers, column) == headers[column]->Text_0);
    }
    assert forall|key: Seq<char>| #[trigger] members.dom().contains(key) implies exists|column: int|
        0 <= column < row.len() && #[trigger] headers[column]->Text_0 == key by {
        let column = choose|column: int|
            0 <= column < row.len() && #[trigger] column_key(headers, column) == key;
        assert(headers[column]->Text_0 == key);
    }
}

/// The cells of a payload are those that it holds: as many rows as it has, each with all its
/// cells in their places. A payload without values has no rows.
pub proof fn cells_are_those_of_the_payload(values: Vec<Vec<Json>>)
    ensures
        payload_cells(None).len() == 0,
        payload_cells(Some(values)).len() == values.len(),
        forall|row: int|
            0 <= row < values.len() ==> (#[trigger] payload_cells(Some(values))[row]).len()
                == values[row].len(),
        forall|row: int, column: int|
            0 <= row < values.len() && 0 <= column < values[row].len() ==> (
            #[trigger] payload_cells(Some(values))[row][column]) == values[row][column]@,
        cell_trees(values@) == payload_cells(Some(values)),
{
}

/// The error that a payload reports is read by its message; the titles of a list of sheets are
/// those of each sheet, in order.
pub proof fn errors_and_titles_are_those_of_the_payload(
    error: GoogleApiError,
    sheets: Seq<SpreadsheetSheet>,
)
    ensures
        api_error_text(None) is None,
        api_error_text(Some(error)) == Some(error.message@),
        sheet_titles(sheets).len() == sheets.len(),
        forall|i: int|
            0 <= i < sheets.len() ==> #[trigger] sheet_titles(sheets)[i]
                == sheets[i].properties.title@,
{
}

/// A column is keyed by the text of its header. A column behind the last header, or under a
/// header that is no text, has the key `undefined`.
pub proof fn columns_are_keyed_by_their_header(headers: Seq<JsonView>, column: int, text: Seq<char>)
    requires
        0 <= column,
    ensures
        column >= headers.len() ==> column_key(headers, column) == "undefined"@,
        column < headers.len() && !(headers[column] is Text) ==> column_key(headers, column)
            == "undefined"@,
        column < headers.len() && headers[column] == JsonView::Text(text) ==> column_key(
            headers,
            column,
        ) == text,
{
}

/// Every row behind the first becomes one object, in the order of the rows; without a first row
/// there are none.
pub proof fn every_row_behind_the_first_becomes_an_object(cells: Seq<Seq<JsonView>>)
    ensures
        cells.len() == 0 ==> shaped_rows(cells).len() == 0,
        cells.len() > 0 ==> shaped_rows(cells).len() == cells.len() - 1,
        forall|row: int|
            0 < row < cells.len() ==> shaped_rows(cells)[row - 1] == JsonView::Object(
                row_members(cells[0], #[trigger] cells[row]),
            ),
{
}

} // verus!
