//! The client of the upstream service: sheets by name or number, and their rows.
//!
//! A fetch is driven from outside. It says which action comes next, and takes the answer.
use vstd::prelude::*;

use crate::cache::{
    entry_from, entry_under, fresh_text, reads_give_back_writes, Table, Tables,
};
use crate::error::{bad_gateway_view, bad_request_view, cache_view, ErrorView};
use crate::json::{display, json_display, trees, Json, JsonView};
use crate::percent::{decoded_text, plain_texts_stand_for_themselves};
use crate::route::{decode_sheet_name, sheet_title, title_error};
use crate::rows::{
    api_error_text, cell_trees, distinct_texts, every_row_behind_the_first_becomes_an_object,
    payload_cells, row_members, rows_become_objects_of_their_cells, shaped_rows, sheet_titles,
    GoogleApiError, SheetValuesResponse, SpreadsheetMetadataResponse,
};
use crate::text::{
    decimal_text, digits_are_read_back, parse_number, parsed_number, plus_to_space,
};
use crate::upstream::{
    judge, metadata_target, response_view, values_target, verdict, write_view, FetchTarget,
    Resource, SendFailure, TargetView, Verdict,
};

pub use crate::error::GoogleError;

verus! {

/// For how many seconds the client caches a payload.
pub const CLIENT_CACHE_TTL_SECS: u64 = 300;

/// A payload of the upstream service.
pub trait Payload: Sized {
    /// The message of the error that the payload reports.
    spec fn reported(&self) -> Option<Seq<char>>;

    /// The error that the payload reports.
    fn error(&self) -> (error: Option<GoogleApiError>)
        ensures
            api_error_text(error) == self.reported(),
    ;
}

fn copy_error(error: &Option<GoogleApiError>) -> (copy: Option<GoogleApiError>)
    ensures
        api_error_text(copy) == api_error_text(*error),
{
    match error {
        Some(error) => Some(GoogleApiError { message: error.message.clone() }),
        None => None,
    }
}

impl Payload for SheetValuesResponse {
    open spec fn reported(&self) -> Option<Seq<char>> {
        api_error_text(self.error)
    }

    fn error(&self) -> (error: Option<GoogleApiError>) {
        copy_error(&self.error)
    }
}

impl Payload for SpreadsheetMetadataResponse {
    open spec fn reported(&self) -> Option<Seq<char>> {
        api_error_text(self.error)
    }

    fn error(&self) -> (error: Option<GoogleApiError>) {
        copy_error(&self.error)
    }
}

/// How far a fetch of the client has come.
pub enum ClientFetch<P> {
    /// It looks into the cache.
    Lookup,
    /// It has the cached text decoded.
    DecodingCached { text: String },
    /// It sends the request.
    Sending,
    /// It has the response decoded.
    Decoding { status: u16, body: Vec<u8> },
    /// It has the payload written as a text.
    Encoding { payload: P },
    /// It has the text cached.
    Storing { payload: P, text: String, ttl_seconds: u64 },
    /// It has its result.
    Finished { outcome: Result<P, GoogleError> },
}

/// How far a fetch of the client has come, by the views of what it holds.
pub enum ClientFetchView<P> {
    Lookup,
    DecodingCached { text: Seq<char> },
    Sending,
    Decoding { status: u16, body: Seq<u8> },
    Encoding { payload: P },
    Storing { payload: P, text: Seq<char>, ttl_seconds: u64 },
    Finished { outcome: Result<P, ErrorView> },
}

impl<P> View for ClientFetch<P> {
    type V = ClientFetchView<P>;

    open spec fn view(&self) -> ClientFetchView<P> {
        match *self {
            ClientFetch::Lookup => ClientFetchView::Lookup,
            ClientFetch::DecodingCached { text } => ClientFetchView::DecodingCached {
                text: text@,
            },
            ClientFetch::Sending => ClientFetchView::Sending,
            ClientFetch::Decoding { status, body } => ClientFetchView::Decoding {
                status,
                body: body@,
            },
            ClientFetch::Encoding { payload } => ClientFetchView::Encoding { payload },
            ClientFetch::Storing { payload, text, ttl_seconds } => ClientFetchView::Storing {
                payload,
                text: text@,
                ttl_seconds,
            },
            ClientFetch::Finished { outcome } => ClientFetchView::Finished {
                outcome: payload_outcome(outcome),
            },
        }
    }
}

/// What a read of the cache says: a text, nothing, or the text of a failure.
pub open spec fn text_read_view(read: Result<Option<String>, String>) -> Result<
    Option<Seq<char>>,
    Seq<char>,
> {
    match read {
        Ok(Some(text)) => Ok(Some(text@)),
        Ok(None) => Ok(None),
        Err(reason) => Err(reason@),
    }
}

/// What writing a payload as a text says: the text, or the text of a failure.
pub open spec fn encoded_view(encoded: Result<String, String>) -> Result<Seq<char>, Seq<char>> {
    match encoded {
        Ok(text) => Ok(text@),
        Err(reason) => Err(reason@),
    }
}

/// What decoding says: a payload, or the text of the refusal.
pub open spec fn decoded_view<P>(decoded: Result<P, String>) -> Result<P, Seq<char>> {
    match decoded {
        Ok(payload) => Ok(payload),
        Err(message) => Err(message@),
    }
}

/// After the look into the cache: a hit is decoded, a miss is fetched.
pub open spec fn client_looked_up<P>(
    read: Result<Option<Seq<char>>, Seq<char>>,
) -> ClientFetchView<P> {
    match read {
        Err(reason) => ClientFetchView::Finished { outcome: Err(cache_view(reason)) },
        Ok(Some(text)) => ClientFetchView::DecodingCached { text },
        Ok(None) => ClientFetchView::Sending,
    }
}

/// The error of a cached text that does not decode: for values the one of a broken response,
/// for metadata the one of a broken cache.
pub open spec fn cached_decode_error(resource: Resource, message: Seq<char>) -> ErrorView {
    match resource {
        Resource::Metadata => cache_view(message),
        Resource::Values => bad_gateway_view(message),
    }
}

/// After a cached text is decoded.
pub open spec fn client_cached_decoded<P: Payload>(
    resource: Resource,
    decoded: Result<P, Seq<char>>,
) -> ClientFetchView<P> {
    ClientFetchView::Finished {
        outcome: match decoded {
            Err(message) => Err(cached_decode_error(resource, message)),
            Ok(payload) => match payload.reported() {
                Some(message) => Err(bad_request_view(message)),
                None => Ok(payload),
            },
        },
    }
}

/// After the request is sent.
pub open spec fn client_sent<P>(sent: Result<(u16, Seq<u8>), ErrorView>) -> ClientFetchView<P> {
    match sent {
        Err(error) => ClientFetchView::Finished { outcome: Err(error) },
        Ok((status, body)) => ClientFetchView::Decoding { status, body },
    }
}

/// What a decoded response says of itself: the error that it reports, or the text of the refusal
/// to decode it.
pub open spec fn reported_view<P: Payload>(decoded: Result<P, Seq<char>>) -> Result<
    Option<Seq<char>>,
    Seq<char>,
> {
    match decoded {
        Ok(payload) => Ok(payload.reported()),
        Err(message) => Err(message),
    }
}

/// After the response is decoded: only an accepted one is cached.
pub open spec fn client_decoded<P: Payload>(
    resource: Resource,
    status: u16,
    decoded: Result<P, Seq<char>>,
) -> ClientFetchView<P> {
    match verdict(resource, status, reported_view(decoded)) {
        Verdict::Refused { error } => ClientFetchView::Finished { outcome: Err(error) },
        Verdict::Accepted => ClientFetchView::Encoding { payload: decoded->Ok_0 },
    }
}

/// After the payload is written as a text.
pub open spec fn client_encoded<P>(
    payload: P,
    encoded: Result<Seq<char>, Seq<char>>,
) -> ClientFetchView<P> {
    match encoded {
        Err(reason) => ClientFetchView::Finished { outcome: Err(cache_view(reason)) },
        Ok(text) => ClientFetchView::Storing {
            payload,
            text,
            ttl_seconds: CLIENT_CACHE_TTL_SECS,
        },
    }
}

/// After the text is cached.
pub open spec fn client_stored<P>(
    payload: P,
    written: Result<(), Seq<char>>,
) -> ClientFetchView<P> {
    match written {
        Err(reason) => ClientFetchView::Finished { outcome: Err(cache_view(reason)) },
        Ok(()) => ClientFetchView::Finished { outcome: Ok(payload) },
    }
}

impl<P: Payload> ClientFetch<P> {
    pub fn on_looked_up(self, read: Result<Option<String>, String>) -> (next: Self)
        requires
            self@ is Lookup,
        ensures
            next@ == client_looked_up::<P>(text_read_view(read)),
    {
        match read {
            Err(reason) => ClientFetch::Finished {
                outcome: Err(GoogleError::cache(reason.as_str())),
            },
            Ok(Some(text)) => ClientFetch::DecodingCached { text },
            Ok(None) => ClientFetch::Sending,
        }
    }

    pub fn on_cached_decoded(self, resource: Resource, decoded: Result<P, String>) -> (next: Self)
        requires
            self@ is DecodingCached,
        ensures
            next@ == client_cached_decoded(resource, decoded_view(decoded)),
    {
        match decoded {
            Err(message) => ClientFetch::Finished {
                outcome: Err(
                    match resource {
                        Resource::Metadata => GoogleError::cache(message.as_str()),
                        Resource::Values => GoogleError::json_decode(message),
                    },
                ),
            },
            Ok(payload) => ClientFetch::Finished {
                outcome: match payload.error() {
                    Some(error) => Err(GoogleError::bad_request(error.message)),
                    None => Ok(payload),
                },
            },
        }
    }

    pub fn on_sent(self, sent: Result<(u16, Vec<u8>), SendFailure>) -> (next: Self)
        requires
            self@ is Sending,
        ensures
            next@ == client_sent::<P>(response_view(sent)),
    {
        match sent {
            Err(failure) => ClientFetch::Finished { outcome: Err(failure.into_error()) },
            Ok((status, body)) => ClientFetch::Decoding { status, body },
        }
    }

    pub fn on_decoded(self, resource: Resource, decoded: Result<P, String>) -> (next: Self)
        requires
            self@ is Decoding,
        ensures
            next@ == client_decoded(
                resource,
                self@->Decoding_status,
                decoded_view(decoded),
            ),
    {
        match self {
            ClientFetch::Decoding { status, .. } => match decoded {
                Err(message) => ClientFetch::Finished {
                    outcome: Err(GoogleError::json_decode(message)),
                },
                Ok(payload) => match judge(resource, status, Ok(payload.error())) {
                    Err(error) => ClientFetch::Finished { outcome: Err(error) },
                    Ok(()) => ClientFetch::Encoding { payload },
                },
            },
            other => other,
        }
    }

    pub fn on_encoded(self, encoded: Result<String, String>) -> (next: Self)
        requires
            self@ is Encoding,
        ensures
            next@ == client_encoded(self@->Encoding_payload, encoded_view(encoded)),
    {
        match self {
            ClientFetch::Encoding { payload } => match encoded {
                Err(reason) => ClientFetch::Finished {
                    outcome: Err(GoogleError::cache(reason.as_str())),
                },
                Ok(text) => ClientFetch::Storing {
                    payload,
                    text,
                    ttl_seconds: CLIENT_CACHE_TTL_SECS,
                },
            },
            other => other,
        }
    }

    pub fn on_stored(self, written: Result<(), String>) -> (next: Self)
        requires
            self@ is Storing,
        ensures
            next@ == client_stored(self@->Storing_payload, write_view(written)),
    {
        match self {
            ClientFetch::Storing { payload, .. } => match written {
                Err(reason) => ClientFetch::Finished {
                    outcome: Err(GoogleError::cache(reason.as_str())),
                },
                Ok(()) => ClientFetch::Finished { outcome: Ok(payload) },
            },
            other => other,
        }
    }
}

/// A cell as the client gives it: an array or an object becomes its compact text.
pub open spec fn normalized(cell: JsonView) -> JsonView {
    match cell {
        JsonView::Array(_) => JsonView::Text(json_display(cell)),
        JsonView::Object(_) => JsonView::Text(json_display(cell)),
        _ => cell,
    }
}

/// The cells of a row as the client gives them.
pub open spec fn normalized_row(row: Seq<JsonView>) -> Seq<JsonView> {
    row.map_values(|cell: JsonView| normalized(cell))
}

/// The cells of a sheet as the client gives them: the header row stays as it is.
pub open spec fn normalized_cells(cells: Seq<Seq<JsonView>>) -> Seq<Seq<JsonView>> {
    cells.map(
        |i: int, row: Seq<JsonView>|
            if i == 0 {
                row
            } else {
                normalized_row(row)
            },
    )
}

/// The objects that the rows of a sheet become.
pub open spec fn client_rows(cells: Seq<Seq<JsonView>>) -> Seq<JsonView> {
    shaped_rows(normalized_cells(cells))
}

/// Brings a cell into the form that the client gives.
pub fn normalize_cell(value: Json) -> (cell: Json)
    ensures
        cell@ == normalized(value@),
{
    match value {
        Json::Array(items) => Json::Text(display(Json::Array(items))),
        Json::Object(members) => Json::Text(display(Json::Object(members))),
        other => other,
    }
}

fn normalize_row(row: Vec<Json>) -> (cells: Vec<Json>)
    ensures
        trees(cells@) == normalized_row(trees(row@)),
{
    let ghost all = row@;
    let mut cells: Vec<Json> = Vec::new();
    for item in iter: row.into_iter()
        invariant
            iter.seq() == all,
            trees(cells@) == normalized_row(trees(all)).take(iter.index() as int),
    {
        let ghost before = cells@;
        let cell = normalize_cell(item);
        cells.push(cell);
        assert(trees(cells@) == trees(before).push(cell@));
    }
    assert(trees(cells@) == normalized_row(trees(all)));
    cells
}

/// Shapes the cells of a sheet into rows keyed by the header row.
pub fn values_to_rows(values: Vec<Vec<Json>>) -> (rows: Vec<Json>)
    ensures
        trees(rows@) == client_rows(cell_trees(values@)),
{
    let ghost all = values@;
    let mut cells: Vec<Vec<Json>> = Vec::new();
    for row in iter: values.into_iter()
        invariant
            iter.seq() == all,
            cells@.len() == iter.index(),
            cell_trees(cells@) == normalized_cells(cell_trees(all)).take(iter.index() as int),
    {
        let ghost before = cells@;
        let normal = if cells.len() == 0 {
            row
        } else {
            normalize_row(row)
        };
        cells.push(normal);
        assert(cell_trees(cells@) == cell_trees(before).push(trees(normal@)));
    }
    assert(cell_trees(cells@) == normalized_cells(cell_trees(all)));
    crate::rows::values_to_rows(cells)
}

/// A fetch of the client: what is fetched, and how far it has come.
pub struct ClientWork<P> {
    pub target: FetchTarget,
    pub fetch: ClientFetch<P>,
}

/// The table in which a payload is cached.
pub open spec fn table_for(resource: Resource) -> Table {
    match resource {
        Resource::Metadata => Table::Metadata,
        Resource::Values => Table::Values,
    }
}

/// The table in which a payload is cached.
pub fn table_of(resource: Resource) -> (table: Table)
    ensures
        table == table_for(resource),
{
    match resource {
        Resource::Metadata => Table::Metadata,
        Resource::Values => Table::Values,
    }
}

/// How far the search for a sheet has come.
pub enum Resolution {
    /// The sheet is known by its title, or cannot be named.
    Resolved { outcome: Result<String, GoogleError> },
    /// The sheet is named by its number: the titles of the spreadsheet are fetched.
    Numbered {
        number: usize,
        label: String,
        metadata: ClientWork<SpreadsheetMetadataResponse>,
    },
}

/// How far the search for a sheet has come, by the views of what it holds.
pub enum ResolutionView {
    Resolved { outcome: Result<Seq<char>, ErrorView> },
    Numbered { number: nat, label: Seq<char>, target: TargetView },
}

/// The title of a sheet that may be missing.
pub open spec fn title_outcome(outcome: Result<String, GoogleError>) -> Result<
    Seq<char>,
    ErrorView,
> {
    match outcome {
        Ok(title) => Ok(title@),
        Err(error) => Err(error@),
    }
}

impl View for Resolution {
    type V = ResolutionView;

    open spec fn view(&self) -> ResolutionView {
        match *self {
            Resolution::Resolved { outcome } => ResolutionView::Resolved {
                outcome: title_outcome(outcome),
            },
            Resolution::Numbered { number, label, metadata } => ResolutionView::Numbered {
                number: number as nat,
                label: label@,
                target: metadata.target@,
            },
        }
    }
}

impl Resolution {
    /// Sheets are numbered from one, and the fetch of the titles is at its start.
    pub open spec fn wf(&self) -> bool {
        self matches Resolution::Numbered { number, metadata, .. } ==> number > 0
            && metadata.fetch is Lookup
    }
}

/// How the search for a sheet starts: a number is looked up among the titles, anything else is
/// the title itself.
pub open spec fn resolution_of(
    spreadsheet_id: Seq<char>,
    sheet_param: Seq<char>,
    api_key: Seq<char>,
) -> ResolutionView {
    match sheet_title(sheet_param) {
        None => ResolutionView::Resolved { outcome: Err(title_error()) },
        Some(decoded) => match parsed_number(decoded, usize::MAX as nat) {
            None => ResolutionView::Resolved { outcome: Ok(decoded) },
            Some(number) => if number == 0 {
                ResolutionView::Resolved {
                    outcome: Err(bad_request_view("For this API, sheet numbers start at 1"@)),
                }
            } else {
                ResolutionView::Numbered {
                    number,
                    label: decoded,
                    target: metadata_target(spreadsheet_id, api_key),
                }
            },
        },
    }
}

/// The title of the sheet of a number, counted from one.
pub open spec fn title_of_number(
    number: nat,
    label: Seq<char>,
    titles: Seq<Seq<char>>,
) -> Result<Seq<char>, ErrorView> {
    if 0 < number <= titles.len() {
        Ok(titles[number - 1])
    } else {
        Err(bad_request_view("There is no sheet number "@ + label))
    }
}

impl Resolution {
    /// Takes the metadata that was fetched.
    pub fn on_metadata(self, outcome: Result<SpreadsheetMetadataResponse, GoogleError>) -> (title:
        Result<String, GoogleError>)
        requires
            self matches Resolution::Numbered { number, .. } && number > 0,
        ensures
            title_outcome(title) == match outcome {
                Ok(metadata) => title_of_number(
                    self@->number,
                    self@->label,
                    sheet_titles(metadata.sheets@),
                ),
                Err(error) => Err(error@),
            },
    {
        match self {
            Resolution::Numbered { number, label, .. } => match outcome {
                Err(error) => Err(error),
                Ok(metadata) => {
                    let index: usize = number - 1;
                    if index < metadata.sheets.len() {
                        assert(sheet_titles(metadata.sheets@)[index as int]
                            == metadata.sheets[index as int].properties.title@);
                        Ok(metadata.sheets[index].properties.title.clone())
                    } else {
                        let mut message = "There is no sheet number ".to_owned();
                        message.append(label.as_str());
                        Err(GoogleError::bad_request(message))
                    }
                },
            },
            Resolution::Resolved { outcome } => outcome,
        }
    }
}

/// The client of the upstream service, with the key that it shows.
pub struct GoogleSheetsClient {
    api_key: String,
}

impl GoogleSheetsClient {
    /// The key that the client shows.
    pub closed spec fn api_key(&self) -> Seq<char> {
        self.api_key@
    }

    pub fn new(api_key: String) -> (client: Self)
        ensures
            client.api_key() == api_key@,
    {
        GoogleSheetsClient { api_key }
    }

    /// Starts the search for the sheet that a path segment names.
    pub fn resolve_sheet_name(&self, spreadsheet_id: &str, sheet_param: &str) -> (resolution:
        Resolution)
        ensures
            resolution.wf(),
            resolution@ == resolution_of(spreadsheet_id@, sheet_param@, self.api_key()),
    {
        match decode_sheet_name(sheet_param) {
            Err(error) => Resolution::Resolved { outcome: Err(error) },
            Ok(decoded) => match parse_number(decoded.as_str(), usize::MAX as u64) {
                None => Resolution::Resolved { outcome: Ok(decoded) },
                Some(number) => {
                    if number == 0 {
                        Resolution::Resolved {
                            outcome: Err(
                                GoogleError::bad_request(
                                    "For this API, sheet numbers start at 1".to_owned(),
                                ),
                            ),
                        }
                    } else {
                        Resolution::Numbered {
                            number: number as usize,
                            label: decoded,
                            metadata: self.fetch_spreadsheet_metadata(spreadsheet_id),
                        }
                    }
                },
            },
        }
    }

    /// Starts a fetch of the rows of a sheet.
    pub fn fetch_rows(&self, spreadsheet_id: &str, sheet_name: &str) -> (work: ClientWork<
        SheetValuesResponse,
    >)
        ensures
            work.target@ == values_target(spreadsheet_id@, sheet_name@, self.api_key()),
            work.fetch is Lookup,
    {
        ClientWork {
            target: FetchTarget::values(spreadsheet_id, sheet_name, self.api_key.as_str()),
            fetch: ClientFetch::Lookup,
        }
    }

    /// Starts a fetch of the metadata of a spreadsheet.
    pub fn fetch_spreadsheet_metadata(&self, spreadsheet_id: &str) -> (work: ClientWork<
        SpreadsheetMetadataResponse,
    >)
        ensures
            work.target@ == metadata_target(spreadsheet_id@, self.api_key()),
            work.fetch is Lookup,
    {
        ClientWork {
            target: FetchTarget::metadata(spreadsheet_id, self.api_key.as_str()),
            fetch: ClientFetch::Lookup,
        }
    }
}

/// The result of a fetch, with the error by its view.
pub open spec fn payload_outcome<P>(outcome: Result<P, GoogleError>) -> Result<P, ErrorView> {
    match outcome {
        Ok(payload) => Ok(payload),
        Err(error) => Err(error@),
    }
}

/// The rows that a fetch came to.
pub open spec fn rows_outcome(outcome: Result<SheetValuesResponse, ErrorView>) -> Result<
    Seq<JsonView>,
    ErrorView,
> {
    match outcome {
        Ok(payload) => Ok(client_rows(payload_cells(payload.values))),
        Err(error) => Err(error),
    }
}

/// The rows that a fetch came to.
pub fn rows_of(outcome: Result<SheetValuesResponse, GoogleError>) -> (rows: Result<
    Vec<Json>,
    GoogleError,
>)
    ensures
        rows_outcome(payload_outcome(outcome)) == match rows {
            Ok(rows) => Ok(trees(rows@)),
            Err(error) => Err(error@),
        },
{
    match outcome {
        Err(error) => Err(error),
        Ok(payload) => match payload.values {
            Some(values) => Ok(values_to_rows(values)),
            None => {
                let rows: Vec<Json> = Vec::new();
                assert(trees(rows@) == client_rows(Seq::empty()));
                Ok(rows)
            },
        },
    }
}

/// What a fetch of the client is answered behind its look into the cache: how the cached text
/// decodes, what is sent back and how that decodes, how the payload is written as a text, and
/// what becomes of the write. The answers that a fetch does not ask for do not count.
pub struct ClientAnswers<P> {
    pub cached: Result<P, Seq<char>>,
    pub sent: Result<(u16, Seq<u8>), ErrorView>,
    pub decoded: Result<P, Seq<char>>,
    pub encoded: Result<Seq<char>, Seq<char>>,
    pub written: Result<(), Seq<char>>,
}

/// A fetch of the client on its answers, up to where it has a text cached; or its end where it
/// comes to none.
pub open spec fn client_run_to_store<P: Payload>(
    resource: Resource,
    read: Result<Option<Seq<char>>, Seq<char>>,
    answers: ClientAnswers<P>,
) -> ClientFetchView<P> {
    match client_looked_up::<P>(read) {
        ClientFetchView::DecodingCached { .. } => client_cached_decoded(resource, answers.cached),
        ClientFetchView::Sending => match client_sent::<P>(answers.sent) {
            ClientFetchView::Decoding { status, .. } => match client_decoded(
                resource,
                status,
                answers.decoded,
            ) {
                ClientFetchView::Encoding { payload } => client_encoded(payload, answers.encoded),
                state => state,
            },
            state => state,
        },
        state => state,
    }
}

/// A fetch of the client, step by step, on its answers.
pub open spec fn client_run<P: Payload>(
    resource: Resource,
    read: Result<Option<Seq<char>>, Seq<char>>,
    answers: ClientAnswers<P>,
) -> ClientFetchView<P> {
    match client_run_to_store(resource, read, answers) {
        ClientFetchView::Storing { payload, .. } => client_stored(payload, answers.written),
        state => state,
    }
}

/// A fetch of the client always comes to a result. It succeeds with the cached payload, or else
/// with the payload of a response of status 200 that was cached; neither reports an error.
pub proof fn client_fetches_come_to_a_result<P: Payload>(
    resource: Resource,
    read: Result<Option<Seq<char>>, Seq<char>>,
    answers: ClientAnswers<P>,
)
    ensures
        ({
            let end = client_run(resource, read, answers);
            &&& end is Finished
            &&& end->Finished_outcome is Ok <==> {
                ||| {
                    &&& read matches Ok(Some(_))
                    &&& answers.cached matches Ok(payload) && payload.reported() is None
                }
                ||| {
                    &&& read matches Ok(None)
                    &&& answers.sent matches Ok((status, _)) && status == 200
                    &&& answers.decoded matches Ok(payload) && payload.reported() is None
                    &&& answers.encoded is Ok
                    &&& answers.written is Ok
                }
            }
            &&& end->Finished_outcome matches Ok(payload) ==> match read {
                Ok(Some(_)) => answers.cached == Ok::<P, Seq<char>>(payload),
                _ => answers.decoded == Ok::<P, Seq<char>>(payload),
            }
        }),
{
}

/// What the cache says of a target at `now`, where it works.
pub open spec fn client_read(tables: Tables, target: TargetView, now: u64) -> Result<
    Option<Seq<char>>,
    Seq<char>,
> {
    Ok(fresh_text(entry_under(tables, table_for(target.resource), target.cache_key), now))
}

/// The tables after a fetch of a target that looked into the cache at `read_at` and wrote to it,
/// if it came to that, at `written_at`; a write that fails leaves them as they were.
pub open spec fn client_tables<P: Payload>(
    tables: Tables,
    target: TargetView,
    answers: ClientAnswers<P>,
    read_at: u64,
    written_at: u64,
) -> Tables {
    match client_run_to_store(target.resource, client_read(tables, target, read_at), answers) {
        ClientFetchView::Storing { text, ttl_seconds, .. } => if answers.written is Ok {
            tables.insert(
                (table_for(target.resource), target.cache_key),
                entry_from(text, ttl_seconds, written_at),
            )
        } else {
            tables
        },
        _ => tables,
    }
}

/// The result of a fetch of a target that looks into the cache at `read_at`.
pub open spec fn client_result<P: Payload>(
    tables: Tables,
    target: TargetView,
    answers: ClientAnswers<P>,
    read_at: u64,
) -> Result<P, ErrorView> {
    client_run(
        target.resource,
        client_read(tables, target, read_at),
        answers,
    )->Finished_outcome
}

/// Whether a fetch of a target that looks into the cache at `read_at` sends a request.
pub open spec fn client_sends<P: Payload>(
    tables: Tables,
    target: TargetView,
    read_at: u64,
) -> bool {
    client_looked_up::<P>(client_read(tables, target, read_at)) is Sending
}

/// After a fetch that missed the cache and sent a request, the next fetch of the same target
/// finds the cache as follows. If the first one succeeded, the next one has the stored text
/// decoded and sends no request, until 300 seconds have passed since the write. If it failed,
/// as it does where the response is refused, nothing was stored and the next one sends a
/// request, unless the clock has run back behind the first.
pub proof fn fetched_payloads_are_cached<P: Payload>(
    tables: Tables,
    target: TargetView,
    answers: ClientAnswers<P>,
    read_at: u64,
    written_at: u64,
    next_at: u64,
)
    requires
        client_sends::<P>(tables, target, read_at),
        written_at + CLIENT_CACHE_TTL_SECS <= u64::MAX,
    ensures
        ({
            let first = client_result(tables, target, answers, read_at);
            let after = client_tables(tables, target, answers, read_at, written_at);
            &&& first is Ok ==> {
                &&& answers.decoded == Ok::<P, Seq<char>>(first->Ok_0)
                &&& client_sends::<P>(after, target, next_at) <==> next_at >= written_at
                    + CLIENT_CACHE_TTL_SECS
                &&& next_at < written_at + CLIENT_CACHE_TTL_SECS ==> client_looked_up::<P>(
                    client_read(after, target, next_at),
                ) == (ClientFetchView::<P>::DecodingCached { text: answers.encoded->Ok_0 })
            }
            &&& first is Err ==> {
                &&& after == tables
                &&& read_at <= next_at ==> client_sends::<P>(after, target, next_at)
            }
            &&& (answers.sent matches Ok((status, _)) && verdict(
                target.resource,
                status,
                reported_view(answers.decoded),
            ) is Refused) ==> first is Err
        }),
{
    if let ClientFetchView::Storing { text, ttl_seconds, .. } = client_run_to_store(
        target.resource,
        client_read(tables, target, read_at),
        answers,
    ) {
        reads_give_back_writes(
            tables,
            table_for(target.resource),
            target.cache_key,
            text,
            ttl_seconds,
            written_at,
            next_at,
        );
    }
}

/// Whether the text that was stored of a payload decodes to a payload with the same cells that
/// reports no error either. It need not: `serde_json` does not read every float back as it was
/// written.
pub open spec fn decodes_back(
    payload: Result<SheetValuesResponse, Seq<char>>,
    stored: Result<SheetValuesResponse, Seq<char>>,
) -> bool {
    match (payload, stored) {
        (Ok(payload), Ok(stored)) => payload.reported() is None ==> stored.reported() is None
            && payload_cells(stored.values) == payload_cells(payload.values),
        (Ok(payload), Err(_)) => payload.reported() is Some,
        (Err(_), _) => true,
    }
}

/// Two fetches of the rows of one sheet in a row, the first of which missed the cache and sent a
/// request. If the first gave rows, the second, within 300 seconds of the write, sends no request
/// and gives the rows of what the stored text decodes to; those are the same rows where it
/// decodes to the cells that were fetched. If the response was refused, the first failed, nothing
/// was stored and the second sends a request.
pub proof fn rows_are_served_from_the_cache(
    tables: Tables,
    spreadsheet_id: Seq<char>,
    sheet_name: Seq<char>,
    api_key: Seq<char>,
    first: ClientAnswers<SheetValuesResponse>,
    next: ClientAnswers<SheetValuesResponse>,
    read_at: u64,
    written_at: u64,
    next_at: u64,
)
    requires
        client_sends::<SheetValuesResponse>(
            tables,
            values_target(spreadsheet_id, sheet_name, api_key),
            read_at,
        ),
        read_at <= next_at < written_at + CLIENT_CACHE_TTL_SECS <= u64::MAX,
    ensures
        ({
            let target = values_target(spreadsheet_id, sheet_name, api_key);
            let rows = rows_outcome(client_result(tables, target, first, read_at));
            let after = client_tables(tables, target, first, read_at, written_at);
            let next_result = client_result(after, target, next, next_at);
            &&& rows is Ok ==> {
                &&& !client_sends::<SheetValuesResponse>(after, target, next_at)
                &&& client_cached_decoded(Resource::Values, next.cached) == (
                ClientFetchView::Finished { outcome: next_result })
                &&& decodes_back(first.decoded, next.cached) ==> rows_outcome(next_result) == rows
            }
            &&& (first.sent matches Ok((status, _)) && verdict(
                Resource::Values,
                status,
                reported_view(first.decoded),
            ) is Refused) ==> {
                &&& rows is Err
                &&& after == tables
                &&& client_sends::<SheetValuesResponse>(after, target, next_at)
            }
        }),
{
    fetched_payloads_are_cached(
        tables,
        values_target(spreadsheet_id, sheet_name, api_key),
        first,
        read_at,
        written_at,
        next_at,
    );
}

/// A number in decimal names the sheet at that place, counted from one; zero and a number behind
/// the last sheet are refused with status 400.
pub proof fn numbers_name_sheets(
    spreadsheet_id: Seq<char>,
    number: nat,
    titles: Seq<Seq<char>>,
    api_key: Seq<char>,
)
    requires
        number <= usize::MAX,
    ensures
        match resolution_of(spreadsheet_id, decimal_text(number), api_key) {
            ResolutionView::Resolved { outcome } => number == 0 && (outcome matches Err(error)
                && error.status == 400),
            ResolutionView::Numbered { number: parsed, label, target } => {
                &&& number > 0
                &&& target == metadata_target(spreadsheet_id, api_key)
                &&& number <= titles.len() ==> title_of_number(parsed, label, titles) == Ok::<
                    Seq<char>,
                    ErrorView,
                >(titles[number - 1])
                &&& number > titles.len() ==> (title_of_number(parsed, label, titles) matches Err(
                    error,
                ) && error.status == 400)
            },
        },
{
    let digits = decimal_text(number);
    digits_are_read_back(number, usize::MAX as nat);
    assert(!digits.contains('%') && !digits.contains('+'));
    plain_texts_stand_for_themselves(digits);
}

/// The client gives the rows in the order of the sheet, one object for each row behind the first.
/// Where the first row holds distinct texts, the object of a row that is no longer than it holds
/// each cell of the row under the text above it, and nothing else: an array or an object as its
/// compact text, any other cell itself.
pub proof fn client_rows_are_those_of_the_sheet(cells: Seq<Seq<JsonView>>)
    ensures
        cells.len() == 0 ==> client_rows(cells).len() == 0,
        cells.len() > 0 ==> client_rows(cells).len() == cells.len() - 1,
        forall|row: int|
            0 < row < cells.len() ==> (#[trigger] client_rows(cells)[row - 1]) is Object,
        cells.len() > 0 && (forall|i: int|
            0 <= i < cells[0].len() ==> (#[trigger] cells[0][i]) is Text) && (forall|i: int, j: int|
            0 <= i < j < cells[0].len() ==> #[trigger] cells[0][i] != #[trigger] cells[0][j])
            ==> forall|row: int, column: int|
            0 < row < cells.len() && 0 <= column < cells[row].len() <= cells[0].len()
                ==> client_rows(cells)[row - 1]->Object_0[cells[0][column]->Text_0] == match (
            #[trigger] cells[row][column]) {
                JsonView::Array(_) => JsonView::Text(json_display(cells[row][column])),
                JsonView::Object(_) => JsonView::Text(json_display(cells[row][column])),
                scalar => scalar,
            },
        cells.len() > 0 && (forall|i: int|
            0 <= i < cells[0].len() ==> (#[trigger] cells[0][i]) is Text) && (forall|i: int, j: int|
            0 <= i < j < cells[0].len() ==> #[trigger] cells[0][i] != #[trigger] cells[0][j])
            ==> forall|row: int, key: Seq<char>|
            0 < row < cells.len() && cells[row].len() <= cells[0].len() ==> (
            #[trigger] client_rows(cells)[row - 1]->Object_0.dom().contains(key)
                <==> exists|column: int|
                0 <= column < cells[row].len() && #[trigger] cells[0][column]->Text_0 == key),
{
    let normal = normalized_cells(cells);
    every_row_behind_the_first_becomes_an_object(normal);
    assert forall|row: int| 0 < row < cells.len() implies (#[trigger] client_rows(cells)[row
        - 1]) is Object by {
        assert(normal[row] == normalized_row(cells[row]));
    }
    if cells.len() > 0 && (forall|i: int|
        0 <= i < cells[0].len() ==> (#[trigger] cells[0][i]) is Text) && (forall|i: int, j: int|
        0 <= i < j < cells[0].len() ==> #[trigger] cells[0][i] != #[trigger] cells[0][j]) {
        assert(normal[0] == cells[0]);
        assert(distinct_texts(normal[0]));
        assert forall|row: int, column: int|
            0 < row < cells.len() && 0 <= column < cells[row].len()
                <= cells[0].len() implies client_rows(cells)[row
            - 1]->Object_0[cells[0][column]->Text_0] == match (#[trigger] cells[row][column]) {
            JsonView::Array(_) => JsonView::Text(json_display(cells[row][column])),
            JsonView::Object(_) => JsonView::Text(json_display(cells[row][column])),
            scalar => scalar,
        } by {
            assert(normal[row].len() == cells[row].len());
            rows_become_objects_of_their_cells(normal, row);
            assert(normal[row][column] == normalized(cells[row][column]));
        }
        assert forall|row: int, key: Seq<char>|
            0 < row < cells.len() && cells[row].len() <= cells[0].len() implies (
        #[trigger] client_rows(cells)[row - 1]->Object_0.dom().contains(key) <==> exists|
            column: int,
        |
            0 <= column < cells[row].len() && #[trigger] cells[0][column]->Text_0 == key) by {
            assert(normal[row].len() == cells[row].len());
            rows_become_objects_of_their_cells(normal, row);
            if client_rows(cells)[row - 1]->Object_0.dom().contains(key) {
                let column = choose|column: int|
                    0 <= column < normal[row].len() && #[trigger] normal[0][column]->Text_0 == key;
                assert(cells[0][column]->Text_0 == key);
            }
            if exists|column: int|
                0 <= column < cells[row].len() && #[trigger] cells[0][column]->Text_0 == key {
                let column = choose|column: int|
                    0 <= column < cells[row].len() && #[trigger] cells[0][column]->Text_0 == key;
                assert(normal[0][column]->Text_0 == key);
            }
        }
    }
}

/// Whatever the header row holds, the object of a row of the client has the members of its cells,
/// each in the form that the client gives, under the keys that the header row gives their columns.
pub proof fn client_rows_have_the_members_of_their_cells(
    cells: Seq<Seq<JsonView>>,
    row: int,
    normal: Seq<JsonView>,
)
    requires
        0 < row < cells.len(),
        normal.len() == cells[row].len(),
        forall|column: int|
            0 <= column < normal.len() ==> #[trigger] normal[column] == match cells[row][column] {
                JsonView::Array(_) => JsonView::Text(json_display(cells[row][column])),
                JsonView::Object(_) => JsonView::Text(json_display(cells[row][column])),
                scalar => scalar,
            },
    ensures
        client_rows(cells)[row - 1] == JsonView::Object(row_members(cells[0], normal)),
{
    let all = normalized_cells(cells);
    every_row_behind_the_first_becomes_an_object(all);
    assert(all[0] == cells[0]);
    assert(all[row] == normalized_row(cells[row]));
    assert(normal == all[row]);
}

/// The rows of a fetch are those of the cells of its payload; a payload without values has none,
/// and a failure stays what it is.
pub proof fn fetched_rows_are_those_of_the_payload(payload: SheetValuesResponse, error: ErrorView)
    ensures
        rows_outcome(Err(error)) == Err::<Seq<JsonView>, ErrorView>(error),
        rows_outcome(Ok(payload)) is Ok,
        payload.values is None ==> rows_outcome(Ok(payload))->Ok_0.len() == 0,
        payload.values matches Some(values) ==> rows_outcome(Ok(payload))->Ok_0 == client_rows(
            Seq::new(values.len() as nat, |row: int| trees(values[row]@)),
        ),
{
    if let Some(values) = payload.values {
        assert(payload_cells(payload.values) == Seq::new(
            values.len() as nat,
            |row: int| trees(values[row]@),
        ));
    }
}

/// A cell that is an array or an object becomes its compact text, any other stays as it is.
pub proof fn only_nested_cells_become_texts(cell: JsonView, row: Seq<JsonView>)
    ensures
        cell is Array || cell is Object ==> normalized(cell) == JsonView::Text(json_display(cell)),
        !(cell is Array) && !(cell is Object) ==> normalized(cell) == cell,
        normalized_row(row).len() == row.len(),
        forall|i: int|
            0 <= i < row.len() ==> #[trigger] normalized_row(row)[i] == normalized(row[i]),
{
}

/// A sheet is searched by what its segment decodes to: a number from one on among the titles of the
/// spreadsheet, zero nowhere, and anything else as the title itself.
pub proof fn sheets_are_named_by_title_or_number(
    spreadsheet_id: Seq<char>,
    sheet_param: Seq<char>,
    api_key: Seq<char>,
)
    ensures
        match decoded_text(plus_to_space(sheet_param)) {
            None => resolution_of(spreadsheet_id, sheet_param, api_key) == (
            ResolutionView::Resolved {
                outcome: Err(ErrorView { message: "Invalid sheet path encoding"@, status: 400 }),
            }),
            Some(decoded) => match parsed_number(decoded, usize::MAX as nat) {
                None => resolution_of(spreadsheet_id, sheet_param, api_key) == (
                ResolutionView::Resolved { outcome: Ok(decoded) }),
                Some(number) => resolution_of(spreadsheet_id, sheet_param, api_key) == if number
                    == 0 {
                    ResolutionView::Resolved {
                        outcome: Err(
                            ErrorView {
                                message: "For this API, sheet numbers start at 1"@,
                                status: 400,
                            },
                        ),
                    }
                } else {
                    ResolutionView::Numbered {
                        number,
                        label: decoded,
                        target: metadata_target(spreadsheet_id, api_key),
                    }
                },
            },
        },
{
}

/// The sheet of a number is the one at that place in the row of titles, counted from one; behind
/// the last there is none.
pub proof fn numbers_count_titles_from_one(
    number: nat,
    label: Seq<char>,
    titles: Seq<Seq<char>>,
)
    requires
        number > 0,
    ensures
        number <= titles.len() ==> title_of_number(number, label, titles) == Ok::<
            Seq<char>,
            ErrorView,
        >(titles[number - 1]),
        number > titles.len() ==> title_of_number(number, label, titles) == Err::<
            Seq<char>,
            ErrorView,
        >(ErrorView { message: "There is no sheet number "@ + label, status: 400 }),
{
}

/// A fetch of the client that comes to no payload fails with the first thing that went wrong.
pub proof fn client_fetches_fail_with_the_first_thing_wrong<P: Payload>(
    resource: Resource,
    read: Result<Option<Seq<char>>, Seq<char>>,
    answers: ClientAnswers<P>,
)
    ensures
        ({
            let outcome = client_run(resource, read, answers)->Finished_outcome;
            &&& read matches Err(reason) ==> outcome == Err::<P, ErrorView>(
                ErrorView { message: "Cache error: "@ + reason, status: 500 },
            )
            &&& read matches Ok(Some(_)) ==> match answers.cached {
                Err(message) => outcome == Err::<P, ErrorView>(
                    match resource {
                        Resource::Metadata => ErrorView {
                            message: "Cache error: "@ + message,
                            status: 500,
                        },
                        Resource::Values => ErrorView { message, status: 502 },
                    },
                ),
                Ok(payload) => payload.reported() matches Some(message) ==> outcome == Err::<
                    P,
                    ErrorView,
                >(ErrorView { message, status: 400 }),
            }
            &&& read matches Ok(None) ==> match answers.sent {
                Err(error) => outcome == Err::<P, ErrorView>(error),
                Ok((status, _)) => match verdict(
                    resource,
                    status,
                    match answers.decoded {
                        Ok(payload) => Ok(payload.reported()),
                        Err(message) => Err(message),
                    },
                ) {
                    Verdict::Refused { error } => outcome == Err::<P, ErrorView>(error),
                    Verdict::Accepted => {
                        &&& answers.encoded matches Err(reason) ==> outcome == Err::<P, ErrorView>(
                            ErrorView { message: "Cache error: "@ + reason, status: 500 },
                        )
                        &&& answers.encoded is Ok ==> (answers.written matches Err(reason)
                            ==> outcome == Err::<P, ErrorView>(
                            ErrorView { message: "Cache error: "@ + reason, status: 500 },
                        ))
                    },
                },
            }
        }),
{
}

/// What is cached of a payload is the text that it was written as, for 300 seconds; what is cached
/// is decoded as it is.
pub proof fn texts_are_cached_as_they_are<P>(
    payload: P,
    text: Seq<char>,
    status: u16,
    body: Seq<u8>,
)
    ensures
        client_encoded(payload, Ok(text)) == (ClientFetchView::Storing {
            payload,
            text,
            ttl_seconds: 300,
        }),
        client_looked_up::<P>(Ok(Some(text))) == (ClientFetchView::<P>::DecodingCached { text }),
        client_looked_up::<P>(Ok(None)) == ClientFetchView::<P>::Sending,
        client_sent::<P>(Ok((status, body))) == (ClientFetchView::<P>::Decoding { status, body }),
        client_stored(payload, Ok(())) == (ClientFetchView::Finished { outcome: Ok(payload) }),
        table_for(Resource::Metadata) == Table::Metadata,
        table_for(Resource::Values) == Table::Values,
{
}

/// The answers to a fetch of the client are read as they are.
pub proof fn client_answers_are_read_as_they_are<P>(payload: P, text: String, error: GoogleError)
    ensures
        text_read_view(Ok(Some(text))) == Ok::<Option<Seq<char>>, Seq<char>>(Some(text@)),
        text_read_view(Ok(None)) == Ok::<Option<Seq<char>>, Seq<char>>(None),
        text_read_view(Err(text)) == Err::<Option<Seq<char>>, Seq<char>>(text@),
        encoded_view(Ok(text)) == Ok::<Seq<char>, Seq<char>>(text@),
        encoded_view(Err(text)) == Err::<Seq<char>, Seq<char>>(text@),
        decoded_view(Ok(payload)) == Ok::<P, Seq<char>>(payload),
        decoded_view::<P>(Err(text)) == Err::<P, Seq<char>>(text@),
        payload_outcome(Ok(payload)) == Ok::<P, ErrorView>(payload),
        payload_outcome::<P>(Err(error)) == Err::<P, ErrorView>(error@),
        title_outcome(Ok(text)) == Ok::<Seq<char>, ErrorView>(text@),
        title_outcome(Err(error)) == Err::<Seq<char>, ErrorView>(error@),
{
}

/// A payload reports the error that it holds, by its message.
pub proof fn payloads_report_the_error_they_hold(
    values: SheetValuesResponse,
    metadata: SpreadsheetMetadataResponse,
)
    ensures
        values.error is None ==> values.reported() is None,
        values.error matches Some(error) ==> values.reported() == Some(error.message@),
        metadata.error is None ==> metadata.reported() is None,
        metadata.error matches Some(error) ==> metadata.reported() == Some(error.message@),
{
}

/// The states of a fetch and of a search show what they hold.
pub proof fn client_states_show_what_they_hold<P>(
    payload: P,
    text: String,
    status: u16,
    body: Vec<u8>,
    ttl_seconds: u64,
    outcome: Result<P, GoogleError>,
    number: usize,
    title: Result<String, GoogleError>,
    metadata: ClientWork<SpreadsheetMetadataResponse>,
)
    ensures
        ClientFetch::<P>::Lookup@ == ClientFetchView::<P>::Lookup,
        ClientFetch::<P>::Sending@ == ClientFetchView::<P>::Sending,
        (ClientFetch::<P>::DecodingCached { text })@ == (ClientFetchView::<P>::DecodingCached {
            text: text@,
        }),
        (ClientFetch::<P>::Decoding { status, body })@ == (ClientFetchView::<P>::Decoding {
            status,
            body: body@,
        }),
        (ClientFetch::Encoding { payload })@ == (ClientFetchView::Encoding { payload }),
        (ClientFetch::Storing { payload, text, ttl_seconds })@ == (ClientFetchView::Storing {
            payload,
            text: text@,
            ttl_seconds,
        }),
        (ClientFetch::Finished { outcome })@ == (ClientFetchView::Finished {
            outcome: match outcome {
                Ok(payload) => Ok(payload),
                Err(error) => Err(error@),
            },
        }),
        (Resolution::Resolved { outcome: title })@ == (ResolutionView::Resolved {
            outcome: match title {
                Ok(title) => Ok(title@),
                Err(error) => Err(error@),
            },
        }),
        (Resolution::Numbered { number, label: text, metadata })@ == (ResolutionView::Numbered {
            number: number as nat,
            label: text@,
            target: metadata.target@,
        }),
{
}

/// A search by number starts with a number from one on, and its fetch of the titles with a look
/// into the cache.
pub proof fn searches_by_number_start_at_the_cache(resolution: Resolution)
    requires
        resolution.wf(),
        resolution is Numbered,
    ensures
        resolution->number > 0,
        resolution->metadata.fetch is Lookup,
{
}

} // verus!
