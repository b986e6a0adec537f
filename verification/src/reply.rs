//! The HTTP replies of the service.
use vstd::prelude::*;
use vstd::utf8::encode_utf8;

use crate::error::{ErrorView, GoogleError};
use crate::json::{encode_text, json_string};
use crate::text::{decimal, decimal_text};

verus! {

/// Where the service is documented.
pub open spec fn readme_url() -> Seq<char> {
    "https://github.com/devazuka/gsheet#readme"@
}

/// A reply: its status, its headers with lower-case names, and its body.
pub struct HttpReply {
    pub status: u16,
    pub headers: Vec<(String, String)>,
    pub body: Vec<u8>,
}

/// A reply by the texts of its headers.
pub struct ReplyView {
    pub status: u16,
    pub headers: Seq<(Seq<char>, Seq<char>)>,
    pub body: Seq<u8>,
}

/// The texts of a list of headers.
pub open spec fn header_views(headers: Seq<(String, String)>) -> Seq<(Seq<char>, Seq<char>)> {
    headers.map_values(|header: (String, String)| (header.0@, header.1@))
}

impl View for HttpReply {
    type V = ReplyView;

    open spec fn view(&self) -> ReplyView {
        ReplyView {
            status: self.status,
            headers: header_views(self.headers@),
            body: self.body@,
        }
    }
}

/// The headers of every JSON reply.
pub open spec fn json_headers() -> Seq<(Seq<char>, Seq<char>)> {
    seq![
        ("content-type"@, "application/json"@),
        ("access-control-allow-origin"@, "*"@),
        (
            "access-control-allow-headers"@,
            "Origin, X-Requested-With, Content-Type, Accept"@,
        ),
    ]
}

/// How long a reply may be kept.
pub open spec fn cache_control_text(max_age: u64) -> Seq<char> {
    "public, max-age="@ + decimal_text(max_age as nat) + ", s-maxage="@ + decimal_text(
        max_age as nat,
    )
}

/// A JSON reply, with a word on how long it may be kept where one is given.
pub open spec fn json_reply(status: u16, max_age: Option<u64>, body: Seq<u8>) -> ReplyView {
    ReplyView {
        status,
        headers: match max_age {
            Some(max_age) => json_headers().push(("cache-control"@, cache_control_text(max_age))),
            None => json_headers(),
        },
        body,
    }
}

/// The body of an error reply: the message, and where the service is documented.
pub open spec fn error_body_text(message: Seq<char>) -> Seq<u8> {
    encode_utf8("{\"error\":"@) + json_string(message) + encode_utf8(",\"documentation\":"@)
        + json_string(readme_url()) + encode_utf8("}"@)
}

/// The reply to a request that failed.
pub open spec fn error_reply(error: ErrorView, max_age: u64) -> ReplyView {
    json_reply(error.status, Some(max_age), error_body_text(error.message))
}

/// The reply that sends a visitor to the documentation.
pub open spec fn redirect_reply() -> ReplyView {
    ReplyView {
        status: 302,
        headers: seq![("location"@, readme_url())],
        body: Seq::empty(),
    }
}

/// The reply of a service that is up.
pub open spec fn up_reply() -> ReplyView {
    ReplyView { status: 200, headers: Seq::empty(), body: encode_utf8("ok"@) }
}

/// The body of the reply to a refresh.
pub open spec fn refreshed_body(removed: bool) -> Seq<u8> {
    if removed {
        encode_utf8("{\"refreshed\":true}"@)
    } else {
        encode_utf8("{\"refreshed\":false}"@)
    }
}

fn cache_control(max_age: u64) -> (text: String)
    ensures
        text@ == cache_control_text(max_age),
{
    let age = decimal(max_age);
    let mut text = "public, max-age=".to_owned();
    text.append(age.as_str());
    text.append(", s-maxage=");
    text.append(age.as_str());
    text
}

/// A JSON reply.
pub fn json_response(status: u16, max_age: Option<u64>, body: Vec<u8>) -> (reply: HttpReply)
    ensures
        reply@ == json_reply(status, max_age, body@),
{
    let mut headers: Vec<(String, String)> = Vec::new();
    headers.push(("content-type".to_owned(), "application/json".to_owned()));
    headers.push(("access-control-allow-origin".to_owned(), "*".to_owned()));
    headers.push(
        (
            "access-control-allow-headers".to_owned(),
            "Origin, X-Requested-With, Content-Type, Accept".to_owned(),
        ),
    );
    assert(header_views(headers@) == json_headers());
    if let Some(max_age) = max_age {
        let ghost before = headers@;
        headers.push(("cache-control".to_owned(), cache_control(max_age)));
        assert(header_views(headers@) == header_views(before).push(
            ("cache-control"@, cache_control_text(max_age)),
        ));
    }
    HttpReply { status, headers, body }
}

/// The reply to a request that failed.
pub fn error_response(error: &GoogleError, max_age: u64) -> (reply: HttpReply)
    ensures
        reply@ == error_reply(error@, max_age),
{
    let mut body: Vec<u8> = Vec::new();
    body.extend_from_slice("{\"error\":".as_bytes());
    let message = encode_text(error.message.as_str());
    body.extend_from_slice(message.as_slice());
    body.extend_from_slice(",\"documentation\":".as_bytes());
    let documentation = encode_text("https://github.com/devazuka/gsheet#readme");
    body.extend_from_slice(documentation.as_slice());
    body.extend_from_slice("}".as_bytes());
    assert(body@ == error_body_text(error.message@));
    json_response(error.status, Some(max_age), body)
}

/// The reply that sends a visitor to the documentation.
pub fn redirect_response() -> (reply: HttpReply)
    ensures
        reply@ == redirect_reply(),
{
    let mut headers: Vec<(String, String)> = Vec::new();
    headers.push(
        ("location".to_owned(), "https://github.com/devazuka/gsheet#readme".to_owned()),
    );
    let reply = HttpReply { status: 302, headers, body: Vec::new() };
    assert(reply@.headers == redirect_reply().headers);
    reply
}

/// The reply of a service that is up.
pub fn up_response() -> (reply: HttpReply)
    ensures
        reply@ == up_reply(),
{
    let mut body: Vec<u8> = Vec::new();
    body.extend_from_slice("ok".as_bytes());
    let reply = HttpReply { status: 200, headers: Vec::new(), body };
    assert(body@ == encode_utf8("ok"@));
    assert(reply@.headers == up_reply().headers);
    reply
}

/// The reply to a refresh: whether an entry was removed.
pub fn refresh_response(removed: bool) -> (reply: HttpReply)
    ensures
        reply@ == json_reply(200, None, refreshed_body(removed)),
{
    let mut body: Vec<u8> = Vec::new();
    if removed {
        body.extend_from_slice("{\"refreshed\":true}".as_bytes());
    } else {
        body.extend_from_slice("{\"refreshed\":false}".as_bytes());
    }
    assert(body@ == refreshed_body(removed));
    json_response(200, None, body)
}

/// A reply shows what it holds: its status, its headers by name and value in order, and its whole
/// body.
pub proof fn replies_show_what_they_hold(reply: HttpReply)
    ensures
        reply@.status == reply.status,
        reply@.body == reply.body@,
        reply@.headers.len() == reply.headers.len(),
        forall|i: int|
            0 <= i < reply.headers.len() ==> (#[trigger] reply@.headers[i]).0
                == reply.headers[i].0@ && reply@.headers[i].1 == reply.headers[i].1@,
{
}

/// A JSON reply has the status and the body that it is given, allows every origin, and says how
/// many seconds it may be kept, in decimal, where that is given.
pub proof fn json_replies_are_complete(status: u16, max_age: u64, body: Seq<u8>)
    ensures
        ({
            let reply = json_reply(status, Some(max_age), body);
            let silent = json_reply(status, None, body);
            let age = decimal_text(max_age as nat);
            &&& reply.status == status && silent.status == status
            &&& reply.body == body && silent.body == body
            &&& silent.headers == reply.headers.drop_last()
            &&& reply.headers == seq![
                ("content-type"@, "application/json"@),
                ("access-control-allow-origin"@, "*"@),
                (
                    "access-control-allow-headers"@,
                    "Origin, X-Requested-With, Content-Type, Accept"@,
                ),
                ("cache-control"@, "public, max-age="@ + age + ", s-maxage="@ + age),
            ]
        }),
{
    let reply = json_reply(status, Some(max_age), body);
    assert(reply.headers.drop_last() == json_headers());
}

/// The reply to a failure has its status, and a body that names the message and where the service
/// is documented.
pub proof fn error_replies_name_the_message(error: ErrorView, max_age: u64)
    ensures
        ({
            let reply = error_reply(error, max_age);
            &&& reply == json_reply(error.status, Some(max_age), reply.body)
            &&& reply.body == encode_utf8("{\"error\":"@) + json_string(error.message)
                + encode_utf8(",\"documentation\":"@) + json_string(
                "https://github.com/devazuka/gsheet#readme"@,
            ) + encode_utf8("}"@)
        }),
{
}

/// The replies that depend on nothing but a removal are what they should be.
pub proof fn fixed_replies_are_as_documented(removed: bool)
    ensures
        redirect_reply().status == 302,
        redirect_reply().headers == seq![
            ("location"@, "https://github.com/devazuka/gsheet#readme"@),
        ],
        redirect_reply().body.len() == 0,
        up_reply().status == 200,
        up_reply().headers.len() == 0,
        up_reply().body == encode_utf8("ok"@),
        refreshed_body(true) == encode_utf8("{\"refreshed\":true}"@),
        refreshed_body(false) == encode_utf8("{\"refreshed\":false}"@),
{
}

} // verus!
