//! Which request asks for what.
use vstd::prelude::*;
use vstd::utf8::{encode_utf8, encode_utf8_decode_utf8};

use crate::error::{bad_request_view, ErrorView, GoogleError};
use crate::percent::{
    decode_title, decoded_text, encoding_is_undone, is_unreserved, percent_encoded,
    percent_encoded_byte,
};
use crate::text::{
    is_blank, path_segments, plus_to_space, replace_plus, slashes, split, splitting_undoes_joining,
    texts, trimmed, trimming_drops_slashes,
};

verus! {

/// What is read of a request: its method, the path and the query of its URI, and the URI as a
/// whole.
pub struct RequestLine {
    pub method: String,
    pub path: String,
    pub query: Option<String>,
    pub uri: String,
}

/// What is read of a request, by its texts.
pub struct RequestView {
    pub method: Seq<char>,
    pub path: Seq<char>,
    pub has_query: bool,
    pub uri: Seq<char>,
}

impl View for RequestLine {
    type V = RequestView;

    open spec fn view(&self) -> RequestView {
        RequestView {
            method: self.method@,
            path: self.path@,
            has_query: self.query is Some,
            uri: self.uri@,
        }
    }
}

/// What a request asks for.
pub enum Route {
    /// The documentation.
    Redirect,
    /// Whether the service is up.
    Up,
    /// All sheets of a spreadsheet, as the upstream service gives them where `raw` is set.
    Document { raw: bool, id: String },
    /// One sheet of a spreadsheet.
    Sheet { raw: bool, id: String, title: String },
    /// That one sheet is read afresh the next time.
    Refresh { id: String, title: String },
    /// Nothing that is served.
    Rejected { error: GoogleError },
}

/// What a request asks for, by its texts.
pub enum RouteView {
    Redirect,
    Up,
    Document { raw: bool, id: Seq<char> },
    Sheet { raw: bool, id: Seq<char>, title: Seq<char> },
    Refresh { id: Seq<char>, title: Seq<char> },
    Rejected { error: ErrorView },
}

impl View for Route {
    type V = RouteView;

    open spec fn view(&self) -> RouteView {
        match *self {
            Route::Redirect => RouteView::Redirect,
            Route::Up => RouteView::Up,
            Route::Document { raw, id } => RouteView::Document { raw, id: id@ },
            Route::Sheet { raw, id, title } => RouteView::Sheet { raw, id: id@, title: title@ },
            Route::Refresh { id, title } => RouteView::Refresh { id: id@, title: title@ },
            Route::Rejected { error } => RouteView::Rejected { error: error@ },
        }
    }
}

/// The title that a path segment writes: its percent-decoding, once every `+` is a space.
pub open spec fn sheet_title(segment: Seq<char>) -> Option<Seq<char>> {
    decoded_text(plus_to_space(segment))
}

/// The error of a path segment that writes no title.
pub open spec fn title_error() -> ErrorView {
    bad_request_view("Invalid sheet path encoding"@)
}

/// The error of a request that is not served.
pub open spec fn format_error() -> ErrorView {
    ErrorView {
        message:
            "URL format is /spreadsheet_id[/sheet_name] or /raw/spreadsheet_id[/sheet_name]"@,
        status: 404,
    }
}

/// The error of a request with a query.
pub open spec fn query_error(uri: Seq<char>) -> ErrorView {
    bad_request_view("Query parameters are not supported. Your request was: "@ + uri)
}

/// What the segments of a spreadsheet path ask for: an id for the whole document, an id and a
/// title for one sheet.
pub open spec fn data_route(raw: bool, segments: Seq<Seq<char>>) -> RouteView {
    if segments.len() == 1 && segments[0].len() > 0 {
        RouteView::Document { raw, id: segments[0] }
    } else if segments.len() == 2 && segments[0].len() > 0 && segments[1].len() > 0 {
        match sheet_title(segments[1]) {
            Some(title) => RouteView::Sheet { raw, id: segments[0], title },
            None => RouteView::Rejected { error: title_error() },
        }
    } else {
        RouteView::Rejected { error: format_error() }
    }
}

/// What `refresh` with an id and a title asks for.
pub open spec fn refresh_route(id: Seq<char>, segment: Seq<char>) -> RouteView {
    if id.len() > 0 && segment.len() > 0 {
        match sheet_title(segment) {
            Some(title) => RouteView::Refresh { id, title },
            None => RouteView::Rejected { error: title_error() },
        }
    } else {
        RouteView::Rejected { error: format_error() }
    }
}

/// What the segments of a path ask for.
pub open spec fn path_route(segments: Seq<Seq<char>>) -> RouteView {
    if segments.len() == 1 && segments[0].len() == 0 {
        RouteView::Redirect
    } else if segments.len() == 1 && segments[0] == "up"@ {
        RouteView::Up
    } else if segments.len() == 3 && segments[0] == "refresh"@ {
        refresh_route(segments[1], segments[2])
    } else if segments.len() > 1 && segments[0] == "raw"@ {
        data_route(true, segments.skip(1))
    } else {
        data_route(false, segments)
    }
}

/// What a request asks for: only `GET` is served, and nothing with a query; the slashes at the
/// two ends of the path do not count.
pub open spec fn route_of(request: RequestView) -> RouteView {
    if request.method != "GET"@ {
        RouteView::Rejected { error: format_error() }
    } else if request.has_query {
        RouteView::Rejected { error: query_error(request.uri) }
    } else {
        path_route(split(trimmed(request.path), '/'))
    }
}

/// Reads the title that a path segment writes.
pub fn decode_sheet_name(sheet_param: &str) -> (decoded: Result<String, GoogleError>)
    ensures
        match decoded {
            Ok(title) => sheet_title(sheet_param@) == Some(title@),
            Err(error) => sheet_title(sheet_param@) is None && error@ == title_error(),
        },
{
    let normalized = replace_plus(sheet_param);
    match decode_title(normalized.as_str()) {
        Some(title) => Ok(title),
        None => Err(GoogleError::bad_request("Invalid sheet path encoding".to_owned())),
    }
}

fn reject_format() -> (route: Route)
    ensures
        route@ == (RouteView::Rejected { error: format_error() }),
{
    let text = "URL format is /spreadsheet_id[/sheet_name] or /raw/spreadsheet_id[/sheet_name]";
    Route::Rejected {
        error: GoogleError {
            message: text.to_owned(),
            status: 404,
        },
    }
}

/// Reads the segments of a spreadsheet path from `from` on.
fn route_data(raw: bool, segments: &Vec<String>, from: usize) -> (route: Route)
    requires
        from <= segments.len(),
    ensures
        route@ == data_route(raw, texts(segments@).skip(from as int)),
{
    let ghost rest = texts(segments@).skip(from as int);
    if segments.len() - from == 1 {
        assert(rest[0] == segments[from as int]@);
        if is_blank(&segments[from]) {
            reject_format()
        } else {
            Route::Document { raw, id: segments[from].clone() }
        }
    } else if segments.len() - from == 2 {
        assert(rest[0] == segments[from as int]@);
        assert(rest[1] == segments[from + 1]@);
        if is_blank(&segments[from]) || is_blank(&segments[from + 1]) {
            reject_format()
        } else {
            match decode_sheet_name(segments[from + 1].as_str()) {
                Ok(title) => Route::Sheet { raw, id: segments[from].clone(), title },
                Err(error) => Route::Rejected { error },
            }
        }
    } else {
        reject_format()
    }
}

/// Reads what a refresh is for.
fn route_refresh(id: &String, segment: &String) -> (route: Route)
    ensures
        route@ == refresh_route(id@, segment@),
{
    if is_blank(id) || is_blank(segment) {
        reject_format()
    } else {
        match decode_sheet_name(segment.as_str()) {
            Ok(title) => Route::Refresh { id: id.clone(), title },
            Err(error) => Route::Rejected { error },
        }
    }
}

/// Reads what a request asks for.
pub fn route(request: &RequestLine) -> (route: Route)
    ensures
        route@ == route_of(request@),
{
    if request.method != "GET".to_owned() {
        return reject_format();
    }
    if request.query.is_some() {
        let mut message = "Query parameters are not supported. Your request was: ".to_owned();
        message.append(request.uri.as_str());
        return Route::Rejected { error: GoogleError::bad_request(message) };
    }
    let segments = path_segments(request.path.as_str());
    let ghost parts = texts(segments@);
    assert(forall|i: int| 0 <= i < segments.len() ==> parts[i] == #[trigger] segments[i]@);
    assert(parts.skip(0) == parts);
    if segments.len() == 1 && is_blank(&segments[0]) {
        Route::Redirect
    } else if segments.len() == 1 && segments[0] == "up".to_owned() {
        Route::Up
    } else if segments.len() == 3 && segments[0] == "refresh".to_owned() {
        route_refresh(&segments[1], &segments[2])
    } else if segments.len() > 1 && segments[0] == "raw".to_owned() {
        route_data(true, &segments, 1)
    } else {
        route_data(false, &segments, 0)
    }
}

/// A request for a path, without a query.
pub open spec fn get_request(path: Seq<char>, uri: Seq<char>) -> RequestView {
    RequestView { method: "GET"@, path, has_query: false, uri }
}

/// A path segment: some characters, none of them a slash.
pub open spec fn is_segment(text: Seq<char>) -> bool {
    text.len() > 0 && !text.contains('/')
}

/// The path segment that writes a title.
pub open spec fn title_segment(title: Seq<char>) -> Seq<char> {
    percent_encoded(encode_utf8(title))
}

/// Slashes before and behind a path do not change what is asked for.
pub proof fn slashes_at_the_ends_are_ignored(
    request: RequestView,
    leading: nat,
    trailing: nat,
)
    ensures
        route_of(
            RequestView {
                path: slashes(leading) + request.path + slashes(trailing),
                ..request
            },
        ) == route_of(request),
{
    trimming_drops_slashes(request.path, leading, trailing);
}

/// A `GET` request with any query is rejected with status 400, whatever its path.
pub proof fn queries_are_rejected(request: RequestView)
    requires
        request.method == "GET"@,
        request.has_query,
    ensures
        route_of(request) == (RouteView::Rejected {
            error: ErrorView {
                message: "Query parameters are not supported. Your request was: "@ + request.uri,
                status: 400,
            },
        }),
{
}

/// Only `GET` requests are served.
pub proof fn other_methods_are_rejected(request: RequestView)
    requires
        request.method != "GET"@,
    ensures
        route_of(request) == (RouteView::Rejected {
            error: ErrorView {
                message:
                    "URL format is /spreadsheet_id[/sheet_name] or /raw/spreadsheet_id[/sheet_name]"@,
                status: 404,
            },
        }),
{
}

proof fn lemma_encoded_segment(bytes: Seq<u8>)
    ensures
        !percent_encoded(bytes).contains('/'),
        bytes.len() > 0 ==> percent_encoded(bytes).len() > 0,
    decreases bytes.len(),
{
    if bytes.len() > 0 {
        lemma_encoded_segment(bytes.skip(1));
        let head = percent_encoded_byte(bytes[0]);
        let tail = percent_encoded(bytes.skip(1));
        assert(!is_unreserved('/' as u8));
        assert forall|i: int| 0 <= i < percent_encoded(bytes).len() implies percent_encoded(
            bytes,
        )[i] != '/' by {
            if i >= head.len() {
                assert(percent_encoded(bytes)[i] == tail[i - head.len()]);
                assert(tail.contains(tail[i - head.len()]));
            }
        }
    }
}

/// The segment of a title is read back as the title.
proof fn lemma_title_segment(title: Seq<char>)
    requires
        title.len() > 0,
    ensures
        is_segment(title_segment(title)),
        sheet_title(title_segment(title)) == Some(title),
{
    encoding_is_undone(title);
    lemma_encoded_segment(encode_utf8(title));
    if encode_utf8(title).len() == 0 {
        assert(encode_utf8(title) == encode_utf8(Seq::<char>::empty()));
        encode_utf8_decode_utf8(title);
        encode_utf8_decode_utf8(Seq::<char>::empty());
    }
}

/// A path of segments behind slashes has those segments.
proof fn lemma_segments(path: Seq<char>, segment: Seq<char>)
    requires
        path.len() == 0 || (path.first() != '/' && path.last() != '/'),
        is_segment(segment),
    ensures
        trimmed("/"@ + segment) == segment,
        split(segment, '/') == seq![segment],
        path.len() > 0 ==> trimmed("/"@ + path + "/"@ + segment) == path + "/"@ + segment,
        path.len() > 0 ==> split(path + "/"@ + segment, '/') == split(path, '/').push(segment),
{
    reveal_strlit("/");
    reveal_with_fuel(trimmed, 2);
    splitting_undoes_joining(path, '/', segment);
    assert(segment.contains(segment.first()));
    assert(segment.contains(segment.last()));
    assert(("/"@ + segment).drop_first() == segment);
    let joined = path + "/"@ + segment;
    assert(joined == path.push('/') + segment);
    assert(("/"@ + path + "/"@ + segment).drop_first() == joined);
    if path.len() > 0 {
        assert(joined.first() == path.first());
        assert(joined.last() == segment.last());
    }
}

/// An id alone asks for the whole document.
pub proof fn ids_ask_for_documents(id: Seq<char>, uri: Seq<char>)
    requires
        is_segment(id),
    ensures
        id != "up"@ ==> route_of(get_request("/"@ + id, uri)) == (RouteView::Document {
            raw: false,
            id,
        }),
        route_of(get_request("/raw/"@ + id, uri)) == (RouteView::Document { raw: true, id }),
{
    reveal_strlit("/");
    reveal_strlit("raw");
    reveal_strlit("/raw/");
    lemma_segments(Seq::empty(), id);
    lemma_segments("raw"@, id);
    lemma_segments(Seq::empty(), "raw"@);
    assert("/raw/"@ + id == "/"@ + "raw"@ + "/"@ + id);
    assert(seq!["raw"@, id].skip(1) == seq![id]);
    assert(seq!["raw"@].push(id) == seq!["raw"@, id]);
}

/// An id and the encoding of a title ask for the sheet of that title.
pub proof fn titles_ask_for_sheets(id: Seq<char>, title: Seq<char>, uri: Seq<char>)
    requires
        is_segment(id),
        title.len() > 0,
    ensures
        id != "raw"@ ==> route_of(get_request("/"@ + id + "/"@ + title_segment(title), uri)) == (
        RouteView::Sheet { raw: false, id, title }),
        route_of(get_request("/raw/"@ + id + "/"@ + title_segment(title), uri)) == (
        RouteView::Sheet { raw: true, id, title }),
        route_of(get_request("/refresh/"@ + id + "/"@ + title_segment(title), uri)) == (
        RouteView::Refresh { id, title }),
{
    reveal_strlit("/");
    reveal_strlit("raw");
    reveal_strlit("/raw/");
    reveal_strlit("refresh");
    reveal_strlit("/refresh/");
    let segment = title_segment(title);
    lemma_title_segment(title);
    assert(id.contains(id.first()));
    assert(id.contains(id.last()));
    lemma_segments(id, segment);
    lemma_segments(Seq::empty(), id);
    assert(seq![id].push(segment) == seq![id, segment]);
    lemma_prefixed_segments("raw"@, id, segment);
    assert("/raw/"@ + id + "/"@ + segment == "/"@ + ("raw"@ + "/"@ + id) + "/"@ + segment);
    assert(seq!["raw"@, id, segment].skip(1) == seq![id, segment]);
    lemma_prefixed_segments("refresh"@, id, segment);
    assert("/refresh/"@ + id + "/"@ + segment == "/"@ + ("refresh"@ + "/"@ + id) + "/"@ + segment);
}

proof fn lemma_prefixed_segments(word: Seq<char>, id: Seq<char>, segment: Seq<char>)
    requires
        is_segment(word),
        is_segment(id),
        is_segment(segment),
    ensures
        split(trimmed("/"@ + (word + "/"@ + id) + "/"@ + segment), '/') == seq![word, id, segment],
{
    assert(word.contains(word.first()));
    assert(word.contains(word.last()));
    assert(id.contains(id.last()));
    let path = word + "/"@ + id;
    lemma_segments(word, id);
    lemma_segments(Seq::empty(), word);
    assert(path.first() == word.first());
    assert(path.last() == id.last());
    lemma_segments(path, segment);
    assert(seq![word].push(id).push(segment) == seq![word, id, segment]);
}

/// A path asks by its segments. One that is empty asks for the documentation, `up` for whether the
/// service is up, an id for a document, an id and a title for a sheet, `raw` before them for the
/// upstream payloads, and `refresh` before an id and a title for a refresh. A title is read by
/// decoding its segment, once every `+` is a space.
pub proof fn paths_ask_by_their_segments(request: RequestView)
    requires
        request.method == "GET"@,
        !request.has_query,
    ensures
        ({
            let parts = split(trimmed(request.path), '/');
            &&& parts.len() == 1 && parts[0].len() == 0 ==> route_of(request)
                == RouteView::Redirect
            &&& parts.len() == 1 && parts[0] == "up"@ ==> route_of(request) == RouteView::Up
            &&& parts.len() == 1 && parts[0].len() > 0 && parts[0] != "up"@ ==> route_of(request)
                == (RouteView::Document { raw: false, id: parts[0] })
            &&& parts.len() == 2 && parts[0] == "raw"@ && parts[1].len() > 0 ==> route_of(request)
                == (RouteView::Document { raw: true, id: parts[1] })
            &&& parts.len() == 2 && parts[0] != "raw"@ && parts[0].len() > 0 && parts[1].len() > 0
                ==> route_of(request) == match decoded_text(plus_to_space(parts[1])) {
                Some(title) => RouteView::Sheet { raw: false, id: parts[0], title },
                None => RouteView::Rejected {
                    error: ErrorView { message: "Invalid sheet path encoding"@, status: 400 },
                },
            }
            &&& parts.len() == 3 && parts[0] == "raw"@ && parts[1].len() > 0 && parts[2].len() > 0
                ==> route_of(request) == match decoded_text(plus_to_space(parts[2])) {
                Some(title) => RouteView::Sheet { raw: true, id: parts[1], title },
                None => RouteView::Rejected {
                    error: ErrorView { message: "Invalid sheet path encoding"@, status: 400 },
                },
            }
            &&& parts.len() == 3 && parts[0] == "refresh"@ && parts[1].len() > 0 && parts[2].len()
                > 0 ==> route_of(request) == match decoded_text(plus_to_space(parts[2])) {
                Some(title) => RouteView::Refresh { id: parts[1], title },
                None => RouteView::Rejected {
                    error: ErrorView { message: "Invalid sheet path encoding"@, status: 400 },
                },
            }
        }),
{
    reveal_strlit("up");
    reveal_strlit("raw");
    reveal_strlit("refresh");
    let parts = split(trimmed(request.path), '/');
    if parts.len() > 1 {
        assert(parts.skip(1)[0] == parts[1]);
    }
    if parts.len() > 2 {
        assert(parts.skip(1)[1] == parts[2]);
    }
    assert("raw"@[0] != "refresh"@[0] || "raw"@.len() != "refresh"@.len());
}

/// Every other path is rejected with status 404: one with an empty segment, with too many of them,
/// or with three that start neither with `raw` nor with `refresh`.
pub proof fn other_paths_are_rejected(request: RequestView)
    requires
        request.method == "GET"@,
        !request.has_query,
        ({
            let parts = split(trimmed(request.path), '/');
            ||| parts.len() > 3
            ||| parts.len() == 3 && parts[0] != "raw"@ && parts[0] != "refresh"@
            ||| parts.len() == 3 && (parts[1].len() == 0 || parts[2].len() == 0)
            ||| parts.len() == 2 && (parts[0].len() == 0 || parts[1].len() == 0)
        }),
    ensures
        route_of(request) == (RouteView::Rejected {
            error: ErrorView {
                message:
                    "URL format is /spreadsheet_id[/sheet_name] or /raw/spreadsheet_id[/sheet_name]"@,
                status: 404,
            },
        }),
{
    reveal_strlit("raw");
    reveal_strlit("refresh");
    let parts = split(trimmed(request.path), '/');
    assert(parts.skip(1)[0] == parts[1]);
    if parts.len() > 2 {
        assert(parts.skip(1)[1] == parts[2]);
    }
}

/// A request and a route show what they hold.
pub proof fn routes_show_what_they_hold(
    request: RequestLine,
    raw: bool,
    id: String,
    title: String,
    error: GoogleError,
)
    ensures
        request@.method == request.method@,
        request@.path == request.path@,
        request@.has_query == (request.query is Some),
        request@.uri == request.uri@,
        Route::Redirect@ == RouteView::Redirect,
        Route::Up@ == RouteView::Up,
        (Route::Document { raw, id })@ == (RouteView::Document { raw, id: id@ }),
        (Route::Sheet { raw, id, title })@ == (RouteView::Sheet { raw, id: id@, title: title@ }),
        (Route::Refresh { id, title })@ == (RouteView::Refresh { id: id@, title: title@ }),
        (Route::Rejected { error })@ == (RouteView::Rejected { error: error@ }),
{
}

/// A segment writes the title that it decodes to, once every `+` is a space; one that decodes to
/// no text is an error of status 400.
pub proof fn segments_write_titles(segment: Seq<char>)
    ensures
        sheet_title(segment) == decoded_text(plus_to_space(segment)),
        title_error() == (ErrorView { message: "Invalid sheet path encoding"@, status: 400 }),
{
}

} // verus!
