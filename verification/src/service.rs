//! One request to the service, from its route to its reply.
//!
//! A request is driven from outside. It says which action comes next, and takes the answer.
use vstd::prelude::*;
use vstd::utf8::encode_utf8;

use crate::error::{
    bad_gateway_view, bad_request_view, cache_view, outcome_view, ErrorView, GoogleError,
};
use crate::json::{
    array_of, decode, encode, json_decoding, json_encoding, map_members, new_map, no_members,
    set_member, trees, Json, JsonView,
};
use crate::reply::{
    cache_control_text, error_body_text, error_reply, error_response, json_headers, json_reply,
    json_response, redirect_reply, redirect_response, refresh_response, refreshed_body, up_reply,
    up_response, HttpReply, ReplyView,
};
use crate::route::{
    get_request, is_segment, route, route_of, title_segment, titles_ask_for_sheets, RequestLine,
    Route, RouteView,
};
use crate::rows::{
    api_error_text, cells_are_those_of_the_payload, column_key, distinct_texts,
    every_row_behind_the_first_becomes_an_object, payload_cells, rows_are_keyed_by_column,
    rows_become_objects_of_their_cells, shaped_rows, sheet_titles, values_to_rows,
    SheetValuesResponse, SpreadsheetMetadataResponse, SpreadsheetSheet,
};
use crate::text::texts;
use crate::upstream::{metadata_target, values_target, FetchTarget, TargetView};

verus! {

/// What a decoded metadata payload says: the error that it reports and the titles that it
/// lists, or the text of the refusal to decode it.
pub open spec fn metadata_view(decoded: Result<SpreadsheetMetadataResponse, String>) -> Result<
    (Option<Seq<char>>, Seq<Seq<char>>),
    Seq<char>,
> {
    match decoded {
        Ok(payload) => Ok((api_error_text(payload.error), sheet_titles(payload.sheets@))),
        Err(message) => Err(message@),
    }
}

/// The titles of a metadata payload. One that does not decode fails with status 502, one that
/// reports an error with status 400.
pub open spec fn metadata_titles(
    decoded: Result<(Option<Seq<char>>, Seq<Seq<char>>), Seq<char>>,
) -> Result<Seq<Seq<char>>, ErrorView> {
    match decoded {
        Err(message) => Err(bad_gateway_view(message)),
        Ok((Some(message), _)) => Err(bad_request_view(message)),
        Ok((None, titles)) => Ok(titles),
    }
}

/// What a decoded values payload says: the error that it reports and the cells that it holds,
/// or the text of the refusal to decode it.
pub open spec fn values_view(decoded: Result<SheetValuesResponse, String>) -> Result<
    (Option<Seq<char>>, Seq<Seq<JsonView>>),
    Seq<char>,
> {
    match decoded {
        Ok(payload) => Ok((api_error_text(payload.error), payload_cells(payload.values))),
        Err(message) => Err(message@),
    }
}

/// The array of the rows of a values payload. One that does not decode fails with status 502,
/// one that reports an error with status 400.
pub open spec fn values_tree(
    decoded: Result<(Option<Seq<char>>, Seq<Seq<JsonView>>), Seq<char>>,
) -> Result<JsonView, ErrorView> {
    match decoded {
        Err(message) => Err(bad_gateway_view(message)),
        Ok((Some(message), _)) => Err(bad_request_view(message)),
        Ok((None, cells)) => Ok(JsonView::Array(shaped_rows(cells))),
    }
}

/// A values payload as it came. One that is no JSON fails with status 502.
pub open spec fn raw_tree(body: Seq<u8>) -> Result<JsonView, ErrorView> {
    match json_decoding(body) {
        Ok(tree) => Ok(tree),
        Err(message) => Err(bad_gateway_view(message)),
    }
}

/// The bytes of a tree that may be missing.
pub open spec fn outcome_body(tree: Result<JsonView, ErrorView>) -> Result<Seq<u8>, ErrorView> {
    match tree {
        Ok(tree) => Ok(json_encoding(tree)),
        Err(error) => Err(error),
    }
}

/// A value that may be missing, by its tree.
pub open spec fn tree_outcome(json: Result<Json, GoogleError>) -> Result<JsonView, ErrorView> {
    match json {
        Ok(json) => Ok(json@),
        Err(error) => Err(error@),
    }
}

/// Takes the sheets of a metadata payload that reports no error.
pub fn parse_metadata(decoded: Result<SpreadsheetMetadataResponse, String>) -> (parsed: Result<
    SpreadsheetMetadataResponse,
    GoogleError,
>)
    ensures
        match parsed {
            Ok(payload) => payload.error is None && decoded is Ok && payload.sheets
                == decoded->Ok_0.sheets && metadata_titles(metadata_view(decoded)) == Ok::<
                Seq<Seq<char>>,
                ErrorView,
            >(sheet_titles(payload.sheets@)),
            Err(error) => metadata_titles(metadata_view(decoded)) == Err::<
                Seq<Seq<char>>,
                ErrorView,
            >(error@),
        },
{
    match decoded {
        Err(message) => Err(GoogleError::json_decode(message)),
        Ok(payload) => match payload.error {
            Some(error) => Err(GoogleError::bad_request(error.message)),
            None => Ok(SpreadsheetMetadataResponse { sheets: payload.sheets, error: None }),
        },
    }
}

/// Takes the rows of a values payload.
pub fn shape_values(decoded: Result<SheetValuesResponse, String>) -> (rows: Result<
    Json,
    GoogleError,
>)
    ensures
        tree_outcome(rows) == values_tree(values_view(decoded)),
{
    match decoded {
        Err(message) => Err(GoogleError::json_decode(message)),
        Ok(payload) => match payload.error {
            Some(error) => Err(GoogleError::bad_request(error.message)),
            None => match payload.values {
                Some(values) => Ok(array_of(values_to_rows(values))),
                None => {
                    let rows: Vec<Json> = Vec::new();
                    assert(trees(rows@) == shaped_rows(Seq::empty()));
                    Ok(array_of(rows))
                },
            },
        },
    }
}

/// Takes a values payload as it came.
pub fn raw_values(body: &Vec<u8>) -> (json: Result<Json, GoogleError>)
    ensures
        tree_outcome(json) == raw_tree(body@),
{
    match decode(body.as_slice()) {
        Ok(json) => Ok(json),
        Err(message) => Err(GoogleError::json_decode(message)),
    }
}

/// Writes a tree that may be missing.
pub fn encode_outcome(json: Result<Json, GoogleError>) -> (outcome: Result<Vec<u8>, GoogleError>)
    ensures
        outcome_view(outcome) == outcome_body(tree_outcome(json)),
{
    match json {
        Ok(json) => match encode(json) {
            Ok(body) => Ok(body),
            Err(message) => Err(GoogleError::json_encode(message)),
        },
        Err(error) => Err(error),
    }
}

/// The titles of the sheets of a spreadsheet.
fn titles_of(sheets: Vec<SpreadsheetSheet>) -> (titles: Vec<String>)
    ensures
        texts(titles@) == sheet_titles(sheets@),
{
    let ghost all = sheets@;
    let mut titles: Vec<String> = Vec::new();
    for sheet in iter: sheets.into_iter()
        invariant
            iter.seq() == all,
            texts(titles@) == sheet_titles(all).take(iter.index() as int),
    {
        let ghost before = titles@;
        titles.push(sheet.properties.title);
        assert(texts(titles@) == texts(before).push(sheet.properties.title@));
    }
    assert(texts(titles@) == sheet_titles(all));
    titles
}

/// What the service answers with: the key that it shows upstream, and for how many seconds its
/// replies may be kept.
pub struct Service {
    pub api_key: String,
    pub sheet_max_age_secs: u64,
    pub document_max_age_secs: u64,
    pub error_max_age_secs: u64,
}

/// What the service answers with, by its texts.
pub struct ServiceView {
    pub api_key: Seq<char>,
    pub sheet_max_age: u64,
    pub document_max_age: u64,
    pub error_max_age: u64,
}

impl View for Service {
    type V = ServiceView;

    open spec fn view(&self) -> ServiceView {
        ServiceView {
            api_key: self.api_key@,
            sheet_max_age: self.sheet_max_age_secs,
            document_max_age: self.document_max_age_secs,
            error_max_age: self.error_max_age_secs,
        }
    }
}

/// A document that is gathered sheet by sheet.
pub struct DocumentWork {
    pub raw: bool,
    pub id: String,
    /// The titles of all its sheets.
    pub titles: Vec<String>,
    /// How many of its sheets are gathered.
    pub done: usize,
    /// The sheets that are gathered, by title.
    pub members: serde_json::Map<String, serde_json::Value>,
}

/// A document that is gathered, by its trees.
pub struct DocumentView {
    pub raw: bool,
    pub id: Seq<char>,
    pub titles: Seq<Seq<char>>,
    pub done: nat,
    pub members: Map<Seq<char>, JsonView>,
}

impl View for DocumentWork {
    type V = DocumentView;

    open spec fn view(&self) -> DocumentView {
        DocumentView {
            raw: self.raw,
            id: self.id@,
            titles: texts(self.titles@),
            done: self.done as nat,
            members: map_members(self.members),
        }
    }
}

impl DocumentWork {
    /// A sheet is still missing.
    pub open spec fn wf(&self) -> bool {
        self.done < self.titles.len()
    }
}

/// What a payload is fetched for.
pub enum Purpose {
    /// The titles of the sheets of a document.
    Titles { raw: bool, id: String },
    /// One sheet that was asked for.
    Sheet { raw: bool },
    /// The next sheet of a document.
    Part { document: DocumentWork },
}

/// What a payload is fetched for, by the views of what it holds.
pub enum PurposeView {
    Titles { raw: bool, id: Seq<char> },
    Sheet { raw: bool },
    Part { document: DocumentView },
}

impl View for Purpose {
    type V = PurposeView;

    open spec fn view(&self) -> PurposeView {
        match *self {
            Purpose::Titles { raw, id } => PurposeView::Titles { raw, id: id@ },
            Purpose::Sheet { raw } => PurposeView::Sheet { raw },
            Purpose::Part { document } => PurposeView::Part { document: document@ },
        }
    }
}

impl Purpose {
    /// A sheet is only fetched for a document where one is missing.
    pub open spec fn wf(&self) -> bool {
        match *self {
            Purpose::Part { document } => document.wf(),
            _ => true,
        }
    }
}

/// How far a request has come.
pub enum RequestState {
    /// It has a payload fetched.
    Fetching { purpose: Purpose, target: FetchTarget },
    /// It has a payload decoded: metadata where it is fetched for titles, else values.
    Decoding { purpose: Purpose, body: Vec<u8> },
    /// It has a cached payload removed.
    Removing { target: FetchTarget },
    /// It is answered.
    Answered { reply: HttpReply },
}

/// How far a request has come, by the views of what it holds.
pub enum RequestStateView {
    Fetching { purpose: PurposeView, target: TargetView },
    Decoding { purpose: PurposeView, body: Seq<u8> },
    Removing { target: TargetView },
    Answered { reply: ReplyView },
}

impl View for RequestState {
    type V = RequestStateView;

    open spec fn view(&self) -> RequestStateView {
        match *self {
            RequestState::Fetching { purpose, target } => RequestStateView::Fetching {
                purpose: purpose@,
                target: target@,
            },
            RequestState::Decoding { purpose, body } => RequestStateView::Decoding {
                purpose: purpose@,
                body: body@,
            },
            RequestState::Removing { target } => RequestStateView::Removing { target: target@ },
            RequestState::Answered { reply } => RequestStateView::Answered { reply: reply@ },
        }
    }
}

impl RequestState {
    /// What every state of a request keeps.
    pub open spec fn wf(&self) -> bool {
        match *self {
            RequestState::Fetching { purpose, .. } => purpose.wf(),
            RequestState::Decoding { purpose, .. } => purpose.wf(),
            _ => true,
        }
    }
}

/// A request that failed.
pub open spec fn failed(service: ServiceView, error: ErrorView) -> RequestStateView {
    RequestStateView::Answered { reply: error_reply(error, service.error_max_age) }
}

/// A request that came to a body, or failed.
pub open spec fn answered(
    service: ServiceView,
    outcome: Result<Seq<u8>, ErrorView>,
    max_age: u64,
) -> RequestStateView {
    match outcome {
        Ok(body) => RequestStateView::Answered { reply: json_reply(200, Some(max_age), body) },
        Err(error) => failed(service, error),
    }
}

/// How a request starts.
pub open spec fn started(service: ServiceView, route: RouteView) -> RequestStateView {
    match route {
        RouteView::Redirect => RequestStateView::Answered { reply: redirect_reply() },
        RouteView::Up => RequestStateView::Answered { reply: up_reply() },
        RouteView::Document { raw, id } => RequestStateView::Fetching {
            purpose: PurposeView::Titles { raw, id },
            target: metadata_target(id, service.api_key),
        },
        RouteView::Sheet { raw, id, title } => RequestStateView::Fetching {
            purpose: PurposeView::Sheet { raw },
            target: values_target(id, title, service.api_key),
        },
        RouteView::Refresh { id, title } => RequestStateView::Removing {
            target: values_target(id, title, service.api_key),
        },
        RouteView::Rejected { error } => failed(service, error),
    }
}

/// How a document goes on: the next sheet is fetched; once there is none, the document is
/// written.
pub open spec fn advanced(service: ServiceView, document: DocumentView) -> RequestStateView {
    if document.done < document.titles.len() {
        RequestStateView::Fetching {
            purpose: PurposeView::Part { document },
            target: values_target(
                document.id,
                document.titles[document.done as int],
                service.api_key,
            ),
        }
    } else {
        answered(
            service,
            Ok(json_encoding(JsonView::Object(document.members))),
            service.document_max_age,
        )
    }
}

/// After the next sheet of a document is there, or is missing for good.
pub open spec fn part_done(
    service: ServiceView,
    document: DocumentView,
    tree: Result<JsonView, ErrorView>,
) -> RequestStateView {
    match tree {
        Err(error) => failed(service, error),
        Ok(tree) => advanced(
            service,
            DocumentView {
                done: document.done + 1,
                members: document.members.insert(document.titles[document.done as int], tree),
                ..document
            },
        ),
    }
}

/// After a payload is fetched: a raw payload is used as it came, another one is decoded.
pub open spec fn fetched(
    service: ServiceView,
    purpose: PurposeView,
    outcome: Result<Seq<u8>, ErrorView>,
) -> RequestStateView {
    match outcome {
        Err(error) => failed(service, error),
        Ok(body) => match purpose {
            PurposeView::Sheet { raw: true } => answered(
                service,
                Ok(body),
                service.sheet_max_age,
            ),
            PurposeView::Part { document } => if document.raw {
                part_done(service, document, raw_tree(body))
            } else {
                RequestStateView::Decoding { purpose, body }
            },
            _ => RequestStateView::Decoding { purpose, body },
        },
    }
}

/// After the titles of a document are decoded.
pub open spec fn titles_decoded(
    service: ServiceView,
    raw: bool,
    id: Seq<char>,
    titles: Result<Seq<Seq<char>>, ErrorView>,
) -> RequestStateView {
    match titles {
        Err(error) => failed(service, error),
        Ok(titles) => advanced(
            service,
            DocumentView { raw, id, titles, done: 0, members: no_members() },
        ),
    }
}

/// After the rows of a sheet are there, or are missing for good.
pub open spec fn values_decoded(
    service: ServiceView,
    purpose: PurposeView,
    tree: Result<JsonView, ErrorView>,
) -> RequestStateView {
    match purpose {
        PurposeView::Part { document } => part_done(service, document, tree),
        _ => answered(service, outcome_body(tree), service.sheet_max_age),
    }
}

/// After a cached payload is removed.
pub open spec fn removed(
    service: ServiceView,
    outcome: Result<bool, Seq<char>>,
) -> RequestStateView {
    match outcome {
        Ok(removed) => RequestStateView::Answered {
            reply: json_reply(200, None, refreshed_body(removed)),
        },
        Err(reason) => failed(service, cache_view(reason)),
    }
}

/// What a removal says: whether an entry was removed, or the text of a failure.
pub open spec fn removal_view(outcome: Result<bool, String>) -> Result<bool, Seq<char>> {
    match outcome {
        Ok(removed) => Ok(removed),
        Err(reason) => Err(reason@),
    }
}

impl Service {
    fn fail(&self, error: GoogleError) -> (state: RequestState)
        ensures
            state.wf(),
            state@ == failed(self@, error@),
    {
        RequestState::Answered { reply: error_response(&error, self.error_max_age_secs) }
    }

    fn answer(&self, outcome: Result<Vec<u8>, GoogleError>, max_age: u64) -> (state: RequestState)
        ensures
            state.wf(),
            state@ == answered(self@, outcome_view(outcome), max_age),
    {
        match outcome {
            Ok(body) => RequestState::Answered { reply: json_response(200, Some(max_age), body) },
            Err(error) => self.fail(error),
        }
    }

    /// Starts a request.
    pub fn route_request(&self, request: &RequestLine) -> (state: RequestState)
        ensures
            state.wf(),
            state@ == started(self@, route_of(request@)),
    {
        match route(request) {
            Route::Redirect => RequestState::Answered { reply: redirect_response() },
            Route::Up => RequestState::Answered { reply: up_response() },
            Route::Document { raw, id } => {
                let target = FetchTarget::metadata(id.as_str(), self.api_key.as_str());
                RequestState::Fetching { purpose: Purpose::Titles { raw, id }, target }
            },
            Route::Sheet { raw, id, title } => RequestState::Fetching {
                purpose: Purpose::Sheet { raw },
                target: FetchTarget::values(
                    id.as_str(),
                    title.as_str(),
                    self.api_key.as_str(),
                ),
            },
            Route::Refresh { id, title } => RequestState::Removing {
                target: FetchTarget::values(
                    id.as_str(),
                    title.as_str(),
                    self.api_key.as_str(),
                ),
            },
            Route::Rejected { error } => self.fail(error),
        }
    }

    fn advance(&self, document: DocumentWork) -> (state: RequestState)
        requires
            document.done <= document.titles.len(),
        ensures
            state.wf(),
            state@ == advanced(self@, document@),
    {
        if document.done < document.titles.len() {
            let target = FetchTarget::values(
                document.id.as_str(),
                document.titles[document.done].as_str(),
                self.api_key.as_str(),
            );
            RequestState::Fetching { purpose: Purpose::Part { document }, target }
        } else {
            let outcome = encode_outcome(Ok(Json::Object(document.members)));
            self.answer(outcome, self.document_max_age_secs)
        }
    }

    fn add_part(&self, document: DocumentWork, tree: Result<Json, GoogleError>) -> (state:
        RequestState)
        requires
            document.wf(),
        ensures
            state.wf(),
            state@ == part_done(self@, document@, tree_outcome(tree)),
    {
        match tree {
            Err(error) => self.fail(error),
            Ok(json) => {
                let DocumentWork { raw, id, titles, done, members } = document;
                let mut members = members;
                set_member(&mut members, titles[done].clone(), json);
                self.advance(DocumentWork { raw, id, titles, done: done + 1, members })
            },
        }
    }

    /// Takes the payload that was fetched.
    pub fn on_fetched(&self, state: RequestState, outcome: Result<Vec<u8>, GoogleError>) -> (next:
        RequestState)
        requires
            state.wf(),
            state is Fetching,
        ensures
            next.wf(),
            next@ == fetched(self@, state@->Fetching_purpose, outcome_view(outcome)),
    {
        match state {
            RequestState::Fetching { purpose, .. } => match outcome {
                Err(error) => self.fail(error),
                Ok(body) => match purpose {
                    Purpose::Sheet { raw: true } => self.answer(
                        Ok(body),
                        self.sheet_max_age_secs,
                    ),
                    Purpose::Part { document } => {
                        if document.raw {
                            self.add_part(document, raw_values(&body))
                        } else {
                            RequestState::Decoding { purpose: Purpose::Part { document }, body }
                        }
                    },
                    purpose => RequestState::Decoding { purpose, body },
                },
            },
            other => other,
        }
    }

    /// Takes the decoded metadata of a document.
    pub fn on_metadata(
        &self,
        state: RequestState,
        decoded: Result<SpreadsheetMetadataResponse, String>,
    ) -> (next: RequestState)
        requires
            state matches RequestState::Decoding { purpose, .. } && purpose is Titles,
        ensures
            next.wf(),
            next@ == titles_decoded(
                self@,
                state->Decoding_purpose->Titles_raw,
                state->Decoding_purpose->Titles_id@,
                metadata_titles(metadata_view(decoded)),
            ),
    {
        match state {
            RequestState::Decoding { purpose: Purpose::Titles { raw, id }, .. } => {
                match parse_metadata(decoded) {
                    Err(error) => self.fail(error),
                    Ok(metadata) => self.advance(
                        DocumentWork {
                            raw,
                            id,
                            titles: titles_of(metadata.sheets),
                            done: 0,
                            members: new_map(),
                        },
                    ),
                }
            },
            other => other,
        }
    }

    /// Takes the decoded values of a sheet.
    pub fn on_values(&self, state: RequestState, decoded: Result<SheetValuesResponse, String>) -> (
    next: RequestState)
        requires
            state.wf(),
            state matches RequestState::Decoding { purpose, .. } && !(purpose is Titles),
        ensures
            next.wf(),
            next@ == values_decoded(
                self@,
                state@->Decoding_purpose,
                values_tree(values_view(decoded)),
            ),
    {
        match state {
            RequestState::Decoding { purpose: Purpose::Part { document }, .. } => self.add_part(
                document,
                shape_values(decoded),
            ),
            _ => self.answer(encode_outcome(shape_values(decoded)), self.sheet_max_age_secs),
        }
    }

    /// Takes the word on a removal: whether an entry was removed, or the text of a failure.
    pub fn on_removed(&self, state: RequestState, outcome: Result<bool, String>) -> (next:
        RequestState)
        requires
            state is Removing,
        ensures
            next.wf(),
            next@ == removed(self@, removal_view(outcome)),
    {
        match outcome {
            Ok(removed) => RequestState::Answered { reply: refresh_response(removed) },
            Err(reason) => self.fail(GoogleError::cache(reason.as_str())),
        }
    }
}

/// The sheets of a document by title; of two sheets of one title the last one stays.
pub open spec fn gathered(titles: Seq<Seq<char>>, sheets: Seq<JsonView>) -> Map<
    Seq<char>,
    JsonView,
>
    decreases titles.len(),
{
    if titles.len() == 0 {
        no_members()
    } else {
        gathered(titles.drop_last(), sheets.drop_last()).insert(titles.last(), sheets.last())
    }
}

/// A document, step by step, on the sheets that it is given in turn.
pub open spec fn document_run(
    service: ServiceView,
    state: RequestStateView,
    sheets: Seq<Result<JsonView, ErrorView>>,
) -> RequestStateView
    decreases sheets.len(),
{
    if sheets.len() == 0 {
        state
    } else {
        match state {
            RequestStateView::Fetching {
                purpose: PurposeView::Part { document },
                ..
            } => document_run(
                service,
                part_done(service, document, sheets[0]),
                sheets.skip(1),
            ),
            _ => state,
        }
    }
}

/// A document takes one answer for each of its sheets, whether the sheet is raw or shaped.
pub proof fn parts_take_one_answer_each(
    service: ServiceView,
    document: DocumentView,
    body: Seq<u8>,
    error: ErrorView,
    tree: Result<JsonView, ErrorView>,
)
    ensures
        ({
            let purpose = PurposeView::Part { document };
            &&& fetched(service, purpose, Err(error)) == part_done(service, document, Err(error))
            &&& document.raw ==> fetched(service, purpose, Ok(body)) == part_done(
                service,
                document,
                raw_tree(body),
            )
            &&& !document.raw ==> fetched(service, purpose, Ok(body)) == (
            RequestStateView::Decoding { purpose, body }) && values_decoded(service, purpose, tree)
                == part_done(service, document, tree)
        }),
{
}

/// The sheets of a document, each of them there.
pub open spec fn present(sheets: Seq<JsonView>) -> Seq<Result<JsonView, ErrorView>> {
    sheets.map_values(|sheet: JsonView| Ok::<JsonView, ErrorView>(sheet))
}

/// A document of which the first sheets are gathered.
spec fn document_at(
    raw: bool,
    id: Seq<char>,
    titles: Seq<Seq<char>>,
    sheets: Seq<JsonView>,
) -> DocumentView {
    DocumentView {
        raw,
        id,
        titles,
        done: sheets.len(),
        members: gathered(titles.take(sheets.len() as int), sheets),
    }
}

proof fn lemma_document_run(
    service: ServiceView,
    raw: bool,
    id: Seq<char>,
    titles: Seq<Seq<char>>,
    known: Seq<JsonView>,
    sheets: Seq<JsonView>,
    rest: Seq<Result<JsonView, ErrorView>>,
)
    requires
        known.len() + sheets.len() <= titles.len(),
    ensures
        document_run(
            service,
            advanced(service, document_at(raw, id, titles, known)),
            present(sheets) + rest,
        ) == document_run(
            service,
            advanced(service, document_at(raw, id, titles, known + sheets)),
            rest,
        ),
    decreases sheets.len(),
{
    let all = present(sheets) + rest;
    if sheets.len() == 0 {
        assert(all == rest);
        assert(known + sheets == known);
    } else {
        let longer = known.push(sheets[0]);
        let taken = titles.take(longer.len() as int);
        assert(taken.drop_last() == titles.take(known.len() as int));
        assert(longer.drop_last() == known);
        assert(all[0] == Ok::<JsonView, ErrorView>(sheets[0]));
        assert(all.skip(1) == present(sheets.skip(1)) + rest);
        assert(longer + sheets.skip(1) == known + sheets);
        lemma_document_run(service, raw, id, titles, longer, sheets.skip(1), rest);
    }
}

/// A document of which every sheet is there is answered with status 200 and the object of its
/// sheets by title.
pub proof fn documents_hold_every_sheet(
    service: ServiceView,
    raw: bool,
    id: Seq<char>,
    titles: Seq<Seq<char>>,
    sheets: Seq<JsonView>,
)
    requires
        sheets.len() == titles.len(),
    ensures
        document_run(service, titles_decoded(service, raw, id, Ok(titles)), present(sheets))
            == (RequestStateView::Answered {
            reply: json_reply(
                200,
                Some(service.document_max_age),
                json_encoding(JsonView::Object(gathered(titles, sheets))),
            ),
        }),
{
    let none = Seq::<JsonView>::empty();
    lemma_document_run(service, raw, id, titles, none, sheets, Seq::empty());
    assert(present(sheets) + Seq::<Result<JsonView, ErrorView>>::empty() == present(sheets));
    assert(none + sheets == sheets);
    assert(titles.take(0) == Seq::<Seq<char>>::empty());
    assert(titles.take(titles.len() as int) == titles);
}

/// A document is answered with the error of the first of its sheets that fails.
pub proof fn documents_fail_with_their_first_sheet(
    service: ServiceView,
    raw: bool,
    id: Seq<char>,
    titles: Seq<Seq<char>>,
    sheets: Seq<JsonView>,
    error: ErrorView,
    rest: Seq<Result<JsonView, ErrorView>>,
)
    requires
        sheets.len() < titles.len(),
    ensures
        document_run(
            service,
            titles_decoded(service, raw, id, Ok(titles)),
            present(sheets) + seq![Err::<JsonView, ErrorView>(error)] + rest,
        ) == failed(service, error),
{
    let none = Seq::<JsonView>::empty();
    let behind = seq![Err::<JsonView, ErrorView>(error)] + rest;
    lemma_document_run(service, raw, id, titles, none, sheets, behind);
    assert(present(sheets) + seq![Err::<JsonView, ErrorView>(error)] + rest == present(sheets)
        + behind);
    assert(none + sheets == sheets);
    assert(titles.take(0) == Seq::<Seq<char>>::empty());
    assert(behind[0] == Err::<JsonView, ErrorView>(error));
    let last = document_run(service, failed(service, error), behind.skip(1));
    assert(last == failed(service, error));
}

/// Whether no later sheet has the title of a sheet.
pub open spec fn is_last_of_title(titles: Seq<Seq<char>>, index: int) -> bool {
    &&& 0 <= index < titles.len()
    &&& forall|later: int|
        index < later < titles.len() ==> #[trigger] titles[later] != titles[index]
}

/// Whether sheets of one title are equal, as those are that were read from one cached payload.
pub open spec fn sheets_of_one_title_agree(titles: Seq<Seq<char>>, sheets: Seq<JsonView>) -> bool {
    forall|i: int, j: int|
        0 <= i < j < titles.len() && #[trigger] titles[i] == #[trigger] titles[j] ==> sheets[i]
            == sheets[j]
}

/// A document has the titles of its sheets as its keys, and nothing else. Under each it holds the
/// last sheet of that title.
pub proof fn documents_are_keyed_by_title(titles: Seq<Seq<char>>, sheets: Seq<JsonView>)
    requires
        sheets.len() == titles.len(),
    ensures
        gathered(titles, sheets).dom() == titles.to_set(),
        forall|i: int| #[trigger]
            is_last_of_title(titles, i) ==> gathered(titles, sheets)[titles[i]] == sheets[i],
    decreases titles.len(),
{
    if titles.len() == 0 {
        assert(titles.to_set() == Set::<Seq<char>>::empty());
    } else {
        let fewer = titles.drop_last();
        let last = titles.len() - 1;
        documents_are_keyed_by_title(fewer, sheets.drop_last());
        assert(titles.to_set() == fewer.to_set().insert(titles.last())) by {
            assert forall|title: Seq<char>|
                titles.to_set().contains(title) == fewer.to_set().insert(titles.last()).contains(
                    title,
                ) by {
                if titles.contains(title) && title != titles.last() {
                    let i = titles.index_of(title);
                    assert(fewer[i] == title);
                }
                if fewer.contains(title) {
                    let i = fewer.index_of(title);
                    assert(titles[i] == title);
                }
                assert(titles[last] == titles.last());
            }
        }
        assert forall|i: int| #[trigger] is_last_of_title(titles, i) implies gathered(
            titles,
            sheets,
        )[titles[i]] == sheets[i] by {
            if i < last {
                assert(titles[last] != titles[i]);
                assert(is_last_of_title(fewer, i)) by {
                    assert forall|later: int| i < later < fewer.len() implies #[trigger]
                        fewer[later] != fewer[i] by {
                        assert(titles[later] != titles[i]);
                    }
                }
            }
        }
    }
}

/// Where sheets of one title are equal, a document holds every sheet under its title.
pub proof fn documents_hold_sheets_under_their_titles(
    titles: Seq<Seq<char>>,
    sheets: Seq<JsonView>,
    index: int,
)
    requires
        sheets.len() == titles.len(),
        sheets_of_one_title_agree(titles, sheets),
        0 <= index < titles.len(),
    ensures
        gathered(titles, sheets)[titles[index]] == sheets[index],
    decreases titles.len() - index,
{
    if is_last_of_title(titles, index) {
        documents_are_keyed_by_title(titles, sheets);
    } else {
        let later = choose|later: int|
            index < later < titles.len() && #[trigger] titles[later] == titles[index];
        assert(sheets[index] == sheets[later]);
        documents_hold_sheets_under_their_titles(titles, sheets, later);
    }
}

/// A raw sheet is answered with status 200 and the payload byte for byte, a shaped one that
/// decodes and reports no error with status 200 and the array of its rows. An id `raw` has no
/// shaped sheets: its paths are those of raw documents.
pub proof fn sheets_are_answered_raw_or_shaped(
    service: ServiceView,
    id: Seq<char>,
    title: Seq<char>,
    uri: Seq<char>,
    body: Seq<u8>,
    cells: Seq<Seq<JsonView>>,
)
    requires
        is_segment(id),
        title.len() > 0,
    ensures
        ({
            let target = values_target(id, title, service.api_key);
            let raw = get_request("/raw/"@ + id + "/"@ + title_segment(title), uri);
            let raw_start = started(service, route_of(raw));
            let shaped = get_request("/"@ + id + "/"@ + title_segment(title), uri);
            let shaped_start = started(service, route_of(shaped));
            let reply = RequestStateView::Answered {
                reply: json_reply(200, Some(service.sheet_max_age), body),
            };
            &&& raw_start matches RequestStateView::Fetching { purpose, target: fetched_target }
            &&& fetched_target == target
            &&& fetched(service, purpose, Ok(body)) == reply
            &&& id != "raw"@ ==> {
                &&& shaped_start matches RequestStateView::Fetching {
                    purpose: shaped_purpose,
                    target: shaped_target,
                }
                &&& shaped_target == target
                &&& fetched(service, shaped_purpose, Ok(body)) == (RequestStateView::Decoding {
                    purpose: shaped_purpose,
                    body,
                })
                &&& values_decoded(service, shaped_purpose, values_tree(Ok((None, cells))))
                    == (RequestStateView::Answered {
                    reply: json_reply(
                        200,
                        Some(service.sheet_max_age),
                        json_encoding(JsonView::Array(shaped_rows(cells))),
                    ),
                })
            }
        }),
{
    titles_ask_for_sheets(id, title, uri);
}

/// A refresh removes what the reads of the sheet look up: the sheet alone, raw or shaped, and
/// as a part of its document.
pub proof fn refreshing_removes_what_reads_look_up(
    service: ServiceView,
    id: Seq<char>,
    title: Seq<char>,
    raw: bool,
    document: DocumentView,
)
    ensures
        started(service, RouteView::Refresh { id, title }) matches RequestStateView::Removing {
            target,
        } && {
            &&& started(
                service,
                RouteView::Sheet { raw, id, title },
            ) matches RequestStateView::Fetching { target: read, .. } && read == target
            &&& document.id == id && document.done < document.titles.len()
                && document.titles[document.done as int] == title ==> (advanced(
                service,
                document,
            ) matches RequestStateView::Fetching { target: read, .. } && read == target)
        },
{
}

/// Every failure is answered with its own status and with the error shape, and may be kept only
/// as long as errors may.
pub proof fn failures_are_answered_alike(
    service: ServiceView,
    purpose: PurposeView,
    error: ErrorView,
)
    ensures
        started(service, RouteView::Rejected { error }) == failed(service, error),
        fetched(service, purpose, Err(error)) == failed(service, error),
        values_decoded(service, purpose, Err(error)) == failed(service, error),
        failed(service, error) matches RequestStateView::Answered { reply } && {
            &&& reply.status == error.status
            &&& reply.body == error_body_text(error.message)
            &&& reply.headers == json_headers().push(
                ("cache-control"@, cache_control_text(service.error_max_age)),
            )
        },
{
}

/// A decoded values payload without an error gives one object for each of its rows behind the
/// first, in their order. Where the first row holds distinct texts, the object of a row that is
/// no longer than it holds each cell of the row under the text above it, and nothing else.
pub proof fn payloads_are_shaped_row_by_row(payload: SheetValuesResponse, values: Vec<Vec<Json>>)
    requires
        payload.error is None,
        payload.values == Some(values),
    ensures
        ({
            let tree = values_tree(values_view(Ok(payload)));
            &&& tree is Ok
            &&& tree->Ok_0 is Array
            &&& tree->Ok_0->Array_0.len() == if values.len() == 0 {
                0
            } else {
                values.len() - 1
            }
            &&& forall|row: int|
                0 < row < values.len() ==> (#[trigger] tree->Ok_0->Array_0[row - 1]) is Object
            &&& values.len() > 0 && (forall|i: int|
                0 <= i < values[0].len() ==> (#[trigger] values[0][i])@ is Text) && (forall|
                i: int,
                j: int,
            |
                0 <= i < j < values[0].len() ==> (#[trigger] values[0][i])@ != (
                #[trigger] values[0][j])@) ==> {
                &&& forall|row: int, column: int|
                    0 < row < values.len() && 0 <= column < values[row].len()
                        <= values[0].len() ==> tree->Ok_0->Array_0[row
                        - 1]->Object_0[values[0][column]@->Text_0] == (
                    #[trigger] values[row][column])@
                &&& forall|row: int, key: Seq<char>|
                    0 < row < values.len() && values[row].len() <= values[0].len() ==> (
                    #[trigger] tree->Ok_0->Array_0[row - 1]->Object_0.dom().contains(key)
                        <==> exists|column: int|
                        0 <= column < values[row].len() && (#[trigger] values[0][column])@->Text_0
                            == key)
            }
        }),
{
    let cells = payload_cells(Some(values));
    let rows = shaped_rows(cells);
    cells_are_those_of_the_payload(values);
    every_row_behind_the_first_becomes_an_object(cells);
    assert forall|row: int| 0 < row < values.len() implies (#[trigger] rows[row - 1]) is Object by {
        assert(cells[row] == trees(values[row]@));
    }
    if values.len() > 0 && (forall|i: int|
        0 <= i < values[0].len() ==> (#[trigger] values[0][i])@ is Text) && (forall|i: int, j: int|
        0 <= i < j < values[0].len() ==> (#[trigger] values[0][i])@ != (
        #[trigger] values[0][j])@) {
        assert(distinct_texts(cells[0])) by {
            assert forall|i: int| 0 <= i < cells[0].len() implies (
            #[trigger] cells[0][i]) is Text by {
                assert(cells[0][i] == values[0][i]@);
            }
            assert forall|i: int, j: int| 0 <= i < j < cells[0].len() implies #[trigger] cells[0][i]
                != #[trigger] cells[0][j] by {
                assert(cells[0][i] == values[0][i]@);
                assert(cells[0][j] == values[0][j]@);
            }
        }
        assert forall|row: int, column: int|
            0 < row < values.len() && 0 <= column < values[row].len()
                <= values[0].len() implies rows[row - 1]->Object_0[values[0][column]@->Text_0] == (
        #[trigger] values[row][column])@ by {
            rows_become_objects_of_their_cells(cells, row);
            assert(cells[row][column] == values[row][column]@);
            assert(cells[0][column] == values[0][column]@);
        }
        assert forall|row: int, key: Seq<char>|
            0 < row < values.len() && values[row].len() <= values[0].len() implies (
        #[trigger] rows[row - 1]->Object_0.dom().contains(key) <==> exists|column: int|
            0 <= column < values[row].len() && (#[trigger] values[0][column])@->Text_0 == key) by {
            rows_become_objects_of_their_cells(cells, row);
            if rows[row - 1]->Object_0.dom().contains(key) {
                let column = choose|column: int|
                    0 <= column < cells[row].len() && #[trigger] cells[0][column]->Text_0 == key;
                assert(values[0][column]@->Text_0 == key);
            }
            if exists|column: int|
                0 <= column < values[row].len() && (#[trigger] values[0][column])@->Text_0 == key {
                let column = choose|column: int|
                    0 <= column < values[row].len() && (#[trigger] values[0][column])@->Text_0
                        == key;
                assert(cells[0][column]->Text_0 == key);
            }
        }
    }
}

/// The object of a row has, for each of its columns, the key that the header row gives the column,
/// and no other key. Of two columns of one key the last one stays.
pub proof fn payload_rows_hold_their_cells(
    payload: SheetValuesResponse,
    values: Vec<Vec<Json>>,
    row: int,
    column: int,
    key: Seq<char>,
)
    requires
        payload.error is None,
        payload.values == Some(values),
        0 < row < values.len(),
        0 <= column < values[row].len(),
        key == if column < values[0].len() && values[0][column]@ is Text {
            values[0][column]@->Text_0
        } else {
            "undefined"@
        },
    ensures
        ({
            let object = values_tree(values_view(Ok(payload)))->Ok_0->Array_0[row - 1]->Object_0;
            &&& object.dom().contains(key)
            &&& (forall|later: int|
                column < later < values[row].len() ==> #[trigger] column_key(
                    trees(values[0]@),
                    later,
                ) != key) ==> object[key] == values[row][column]@
        }),
{
    let headers = trees(values[0]@);
    let cells = trees(values[row]@);
    assert(payload_cells(Some(values))[row] == cells);
    assert(payload_cells(Some(values))[0] == headers);
    if column < values[0].len() {
        assert(headers[column] == values[0][column]@);
    }
    assert(column_key(headers, column) == key);
    rows_are_keyed_by_column(headers, cells);
    assert(cells[column] == values[row][column]@);
}

/// A values payload without values gives no rows. One that reports an error fails with its message
/// and status 400, one that does not decode with the refusal and status 502. A raw payload fails
/// with status 502 where it is no JSON.
pub proof fn payloads_fail_by_what_is_wrong(
    empty: SheetValuesResponse,
    broken: SheetValuesResponse,
    refusal: String,
    body: Seq<u8>,
)
    requires
        empty.error is None && empty.values is None,
        broken.error is Some,
    ensures
        values_tree(values_view(Ok(empty))) == Ok::<JsonView, ErrorView>(
            JsonView::Array(Seq::empty()),
        ),
        values_tree(values_view(Ok(broken))) == Err::<JsonView, ErrorView>(
            ErrorView { message: broken.error->0.message@, status: 400 },
        ),
        values_tree(values_view(Err(refusal))) == Err::<JsonView, ErrorView>(
            ErrorView { message: refusal@, status: 502 },
        ),
        match json_decoding(body) {
            Ok(tree) => raw_tree(body) == Ok::<JsonView, ErrorView>(tree),
            Err(message) => raw_tree(body) == Err::<JsonView, ErrorView>(
                ErrorView { message, status: 502 },
            ),
        },
{
    assert(shaped_rows(payload_cells(None)) == Seq::<JsonView>::empty());
}

/// A metadata payload without an error gives the title of every sheet that it lists, in order. One
/// that reports an error fails with its message and status 400, one that does not decode with the
/// refusal and status 502.
pub proof fn metadata_gives_every_title(
    payload: SpreadsheetMetadataResponse,
    refusal: String,
)
    ensures
        payload.error is None ==> {
            let titles = metadata_titles(metadata_view(Ok(payload)));
            &&& titles is Ok
            &&& titles->Ok_0.len() == payload.sheets.len()
            &&& forall|i: int|
                0 <= i < payload.sheets.len() ==> #[trigger] titles->Ok_0[i]
                    == payload.sheets[i].properties.title@
        },
        payload.error is Some ==> metadata_titles(metadata_view(Ok(payload))) == Err::<
            Seq<Seq<char>>,
            ErrorView,
        >(ErrorView { message: payload.error->0.message@, status: 400 }),
        metadata_titles(metadata_view(Err(refusal))) == Err::<Seq<Seq<char>>, ErrorView>(
            ErrorView { message: refusal@, status: 502 },
        ),
{
}

/// A document has its sheets fetched one after the other: once the first ones are there, the next
/// sheet that its metadata lists is fetched, by its own title.
pub proof fn documents_fetch_every_sheet_in_turn(
    service: ServiceView,
    raw: bool,
    id: Seq<char>,
    payload: SpreadsheetMetadataResponse,
    sheets: Seq<JsonView>,
)
    requires
        payload.error is None,
        sheets.len() < payload.sheets.len(),
    ensures
        document_run(
            service,
            titles_decoded(service, raw, id, metadata_titles(metadata_view(Ok(payload)))),
            present(sheets),
        ) matches RequestStateView::Fetching { purpose, target } && {
            &&& purpose is Part
            &&& purpose->Part_document.raw == raw
            &&& purpose->Part_document.done == sheets.len()
            &&& target == values_target(
                id,
                payload.sheets[sheets.len() as int].properties.title@,
                service.api_key,
            )
        },
{
    let titles = sheet_titles(payload.sheets@);
    let none = Seq::<JsonView>::empty();
    lemma_document_run(service, raw, id, titles, none, sheets, Seq::empty());
    assert(present(sheets) + Seq::<Result<JsonView, ErrorView>>::empty() == present(sheets));
    assert(none + sheets == sheets);
    assert(titles.take(0) == Seq::<Seq<char>>::empty());
}

/// A document of which every sheet is there is answered with status 200 and an object that has the
/// titles that its metadata lists as its keys, each with the last sheet of that title.
pub proof fn documents_hold_every_listed_sheet(
    service: ServiceView,
    raw: bool,
    id: Seq<char>,
    payload: SpreadsheetMetadataResponse,
    sheets: Seq<JsonView>,
)
    requires
        payload.error is None,
        sheets.len() == payload.sheets.len(),
    ensures
        exists|members: Map<Seq<char>, JsonView>|
            {
                &&& document_run(
                    service,
                    titles_decoded(service, raw, id, metadata_titles(metadata_view(Ok(payload)))),
                    present(sheets),
                ) == (RequestStateView::Answered {
                    reply: #[trigger] json_reply(
                        200,
                        Some(service.document_max_age),
                        json_encoding(JsonView::Object(members)),
                    ),
                })
                &&& forall|title: Seq<char>| #[trigger]
                    members.dom().contains(title) <==> exists|i: int|
                        0 <= i < payload.sheets.len() && (
                        #[trigger] payload.sheets[i]).properties.title@ == title
                &&& forall|i: int|
                    0 <= i < payload.sheets.len() && (forall|later: int|
                        i < later < payload.sheets.len() ==> (
                        #[trigger] payload.sheets[later]).properties.title@
                            != payload.sheets[i].properties.title@) ==> members[(
                    #[trigger] payload.sheets[i]).properties.title@] == sheets[i]
            },
{
    let titles = sheet_titles(payload.sheets@);
    let members = gathered(titles, sheets);
    documents_hold_every_sheet(service, raw, id, titles, sheets);
    documents_are_keyed_by_title(titles, sheets);
    assert forall|title: Seq<char>| #[trigger] members.dom().contains(title) <==> exists|i: int|
        0 <= i < payload.sheets.len() && (#[trigger] payload.sheets[i]).properties.title@
            == title by {
        assert(members.dom().contains(title) == titles.to_set().contains(title));
        if titles.contains(title) {
            let i = titles.index_of(title);
            assert(payload.sheets[i].properties.title@ == title);
        }
        if exists|i: int|
            0 <= i < payload.sheets.len() && (#[trigger] payload.sheets[i]).properties.title@
                == title {
            let i = choose|i: int|
                0 <= i < payload.sheets.len() && (#[trigger] payload.sheets[i]).properties.title@
                    == title;
            assert(titles[i] == title);
        }
    }
    assert forall|i: int|
        0 <= i < payload.sheets.len() && (forall|later: int|
            i < later < payload.sheets.len() ==> (
            #[trigger] payload.sheets[later]).properties.title@ != payload.sheets[i].properties.title@) implies members[(
    #[trigger] payload.sheets[i]).properties.title@] == sheets[i] by {
        assert(is_last_of_title(titles, i)) by {
            assert forall|later: int| i < later < titles.len() implies #[trigger] titles[later]
                != titles[i] by {
                assert(payload.sheets[later].properties.title@ == titles[later]);
            }
        }
    }
    let reply = json_reply(
        200,
        Some(service.document_max_age),
        json_encoding(JsonView::Object(members)),
    );
}

/// A request starts by what its route asks for: a document with its metadata, a sheet with its own
/// values, a refresh with the removal of those values.
pub proof fn requests_start_by_their_route(
    service: ServiceView,
    raw: bool,
    id: Seq<char>,
    title: Seq<char>,
    error: ErrorView,
)
    ensures
        started(service, RouteView::Redirect) == (RequestStateView::Answered {
            reply: redirect_reply(),
        }),
        started(service, RouteView::Up) == (RequestStateView::Answered { reply: up_reply() }),
        started(service, RouteView::Document { raw, id }) == (RequestStateView::Fetching {
            purpose: PurposeView::Titles { raw, id },
            target: metadata_target(id, service.api_key),
        }),
        started(service, RouteView::Sheet { raw, id, title }) == (RequestStateView::Fetching {
            purpose: PurposeView::Sheet { raw },
            target: values_target(id, title, service.api_key),
        }),
        started(service, RouteView::Refresh { id, title }) == (RequestStateView::Removing {
            target: values_target(id, title, service.api_key),
        }),
        started(service, RouteView::Rejected { error }) == (RequestStateView::Answered {
            reply: error_reply(error, service.error_max_age),
        }),
{
}

/// What is fetched is used as it was asked for: metadata and shaped values are decoded, a raw
/// sheet is the answer itself. A failure at any step is the answer.
pub proof fn payloads_are_used_as_asked(
    service: ServiceView,
    raw: bool,
    id: Seq<char>,
    body: Seq<u8>,
    tree: JsonView,
    error: ErrorView,
)
    ensures
        fetched(service, PurposeView::Titles { raw, id }, Ok(body)) == (
        RequestStateView::Decoding { purpose: PurposeView::Titles { raw, id }, body }),
        fetched(service, PurposeView::Sheet { raw: false }, Ok(body)) == (
        RequestStateView::Decoding { purpose: PurposeView::Sheet { raw: false }, body }),
        fetched(service, PurposeView::Sheet { raw: true }, Ok(body)) == (
        RequestStateView::Answered {
            reply: json_reply(200, Some(service.sheet_max_age), body),
        }),
        values_decoded(service, PurposeView::Sheet { raw }, Ok(tree)) == (
        RequestStateView::Answered {
            reply: json_reply(200, Some(service.sheet_max_age), json_encoding(tree)),
        }),
        fetched(service, PurposeView::Sheet { raw }, Err(error)) == (RequestStateView::Answered {
            reply: error_reply(error, service.error_max_age),
        }),
        fetched(service, PurposeView::Titles { raw, id }, Err(error)) == (
        RequestStateView::Answered { reply: error_reply(error, service.error_max_age) }),
        titles_decoded(service, raw, id, Err(error)) == (RequestStateView::Answered {
            reply: error_reply(error, service.error_max_age),
        }),
        values_decoded(service, PurposeView::Sheet { raw }, Err(error)) == (
        RequestStateView::Answered { reply: error_reply(error, service.error_max_age) }),
{
}

/// A refresh is answered with whether an entry was removed, and nothing on how long that may be
/// kept; a broken cache is an error of the service.
pub proof fn refreshes_tell_of_the_removal(
    service: ServiceView,
    was_removed: bool,
    reason: String,
)
    ensures
        removed(service, removal_view(Ok(was_removed))) == (RequestStateView::Answered {
            reply: json_reply(
                200,
                None,
                encode_utf8(
                    if was_removed {
                        "{\"refreshed\":true}"@
                    } else {
                        "{\"refreshed\":false}"@
                    },
                ),
            ),
        }),
        removed(service, removal_view(Err(reason))) == (RequestStateView::Answered {
            reply: error_reply(
                ErrorView { message: "Cache error: "@ + reason@, status: 500 },
                service.error_max_age,
            ),
        }),
{
}

/// A service, a document and a request show what they hold.
pub proof fn requests_show_what_they_hold(
    service: Service,
    document: DocumentWork,
    raw: bool,
    id: String,
    purpose: Purpose,
    target: FetchTarget,
    body: Vec<u8>,
    reply: HttpReply,
)
    ensures
        service@.api_key == service.api_key@,
        service@.sheet_max_age == service.sheet_max_age_secs,
        service@.document_max_age == service.document_max_age_secs,
        service@.error_max_age == service.error_max_age_secs,
        document@.raw == document.raw,
        document@.id == document.id@,
        document@.done == document.done,
        document@.members == map_members(document.members),
        document@.titles.len() == document.titles.len(),
        forall|i: int|
            0 <= i < document.titles.len() ==> #[trigger] document@.titles[i]
                == document.titles[i]@,
        (Purpose::Titles { raw, id })@ == (PurposeView::Titles { raw, id: id@ }),
        (Purpose::Sheet { raw })@ == (PurposeView::Sheet { raw }),
        (Purpose::Part { document })@ == (PurposeView::Part { document: document@ }),
        (RequestState::Fetching { purpose, target })@ == (RequestStateView::Fetching {
            purpose: purpose@,
            target: target@,
        }),
        (RequestState::Decoding { purpose, body })@ == (RequestStateView::Decoding {
            purpose: purpose@,
            body: body@,
        }),
        (RequestState::Removing { target })@ == (RequestStateView::Removing { target: target@ }),
        (RequestState::Answered { reply })@ == (RequestStateView::Answered { reply: reply@ }),
{
}

/// The tree of a value, and the bytes that it is written as, are those of the value; an error
/// stays what it is.
pub proof fn outcomes_keep_values_and_errors(json: Json, error: GoogleError, tree: JsonView)
    ensures
        tree_outcome(Ok(json)) == Ok::<JsonView, ErrorView>(json@),
        tree_outcome(Err(error)) == Err::<JsonView, ErrorView>(error@),
        outcome_body(Ok(tree)) == Ok::<Seq<u8>, ErrorView>(json_encoding(tree)),
        outcome_body(Err(error@)) == Err::<Seq<u8>, ErrorView>(error@),
{
}

/// A request that has the next sheet of a document fetched or decoded has a sheet left to gather.
pub proof fn documents_have_a_sheet_left(
    document: DocumentWork,
    target: FetchTarget,
    body: Vec<u8>,
)
    ensures
        (RequestState::Fetching { purpose: Purpose::Part { document }, target }).wf()
            ==> document.done < document.titles.len(),
        (RequestState::Decoding { purpose: Purpose::Part { document }, body }).wf()
            ==> document.done < document.titles.len(),
{
}

} // verus!
