use vstd::prelude::*;
use vstd::utf8::encode_utf8;
use crate::http::file_server::asset_path;
use crate::http::html::Html;
use crate::http::response::body_text;
use crate::http::response::create_html_response;
use crate::http::response::create_response;
use crate::http::response::lossy;
use crate::http::response::response_head;
use crate::text::chars::chars_of;
use crate::text::chars::slice_of;
use crate::text::chars::spells;
use crate::text::chars::text_of;
use crate::text::split::cut_words;
use crate::text::split::find_from;
use crate::text::split::position_of;
use crate::text::split::views;
use crate::text::split::words;

verus! {

/// How many bytes of a request are read.
pub const REQUEST_BYTES: usize = 1024;

/// What a request asks for.
#[derive(Debug, PartialEq, Eq)]
pub enum Route {
    /// It is not a request: it has no method and path.
    BadRequest,
    /// Its method is not GET.
    MethodNotAllowed,
    /// The page of events.
    Index,
    /// The instant of the last commit.
    LastUpdate,
    /// The file that this path stands for.
    Asset(String),
}

/// What a `Route` holds, as plain text.
pub enum RouteView {
    BadRequest,
    MethodNotAllowed,
    Index,
    LastUpdate,
    Asset(Seq<char>),
}

impl View for Route {
    type V = RouteView;

    open spec fn view(&self) -> RouteView {
        match self {
            Route::BadRequest => RouteView::BadRequest,
            Route::MethodNotAllowed => RouteView::MethodNotAllowed,
            Route::Index => RouteView::Index,
            Route::LastUpdate => RouteView::LastUpdate,
            Route::Asset(path) => RouteView::Asset(path@),
        }
    }
}

/// The first line of `text`: what stands before its first newline, less
/// one carriage return that ends it there. All of `text` where it has no
/// newline.
pub open spec fn first_line(text: Seq<char>) -> Seq<char> {
    let end = position_of(text, '\n');
    if end < text.len() && end > 0 && text[end - 1] == '\r' {
        text.take(end - 1)
    } else {
        text.take(end)
    }
}

/// What the request line `line` asks for. Its first word is the method and
/// its second the path; a line of fewer words is no request.
pub open spec fn routed(line: Seq<char>) -> RouteView {
    let parts = words(line);
    if parts.len() < 2 {
        RouteView::BadRequest
    } else if parts[0] != "GET"@ {
        RouteView::MethodNotAllowed
    } else if parts[1] == "/"@ {
        RouteView::Index
    } else if parts[1] == "/api/last-update"@ {
        RouteView::LastUpdate
    } else {
        RouteView::Asset(parts[1])
    }
}

/// A whole response with the text `body`, of the length of `body` in bytes.
pub open spec fn text_response(
    status_code: nat,
    status_text: Seq<char>,
    content_type: Seq<char>,
    body: Seq<char>,
) -> Seq<char> {
    response_head(status_code, status_text, content_type, encode_utf8(body).len()) + body
}

/// The answer to the request for the instant of the last commit, as JSON.
pub open spec fn last_update_json(timestamp: Seq<char>) -> Seq<char> {
    "{\"last_update\":\""@ + timestamp + "\"}"@
}

/// The first line of `text`.
pub fn first_line_of(text: &str) -> (line: String)
    ensures
        line@ == first_line(text@),
{
    let chars = chars_of(text);
    let end: usize = find_from(&chars, 0, '\n');
    assert(chars@.skip(0) == chars@);
    if end < chars.len() && end > 0 && chars[end - 1] == '\r' {
        text_of(&slice_of(&chars, 0, end - 1))
    } else {
        text_of(&slice_of(&chars, 0, end))
    }
}

/// The request line of the request that starts with `buffer`: the first
/// line of its text.
pub fn request_line(buffer: &[u8]) -> (line: String)
    ensures
        line@ == first_line(body_text(buffer@)),
{
    first_line_of(lossy(buffer).as_str())
}

/// What the request line `request_line` asks for.
pub fn route_request(request_line: &str) -> (route: Route)
    ensures
        route@ == routed(request_line@),
{
    let parts = cut_words(&chars_of(request_line));
    if parts.len() < 2 {
        return Route::BadRequest;
    }
    assert(views(parts@)[0] == parts@[0]@ && views(parts@)[1] == parts@[1]@);
    if !spells(&parts[0], "GET") {
        return Route::MethodNotAllowed;
    }
    if spells(&parts[1], "/") {
        return Route::Index;
    }
    if spells(&parts[1], "/api/last-update") {
        return Route::LastUpdate;
    }
    Route::Asset(text_of(&parts[1]))
}

/// A response of plain text.
fn plain_response(status_code: u16, status_text: &str, body: &str) -> (response: String)
    ensures
        response@ == text_response(status_code as nat, status_text@, "text/plain"@, body@),
{
    broadcast use vstd::utf8::group_utf8_lib;

    create_response(status_code, status_text, "text/plain", body.as_bytes())
}

/// The response to what is no request.
pub fn bad_request_response() -> (response: String)
    ensures
        response@ == text_response(400, "Bad Request"@, "text/plain"@, "Bad Request"@),
{
    plain_response(400, "Bad Request", "Bad Request")
}

/// The response to a request whose method is not GET.
pub fn method_not_allowed_response() -> (response: String)
    ensures
        response@ == text_response(
            405,
            "Method Not Allowed"@,
            "text/plain"@,
            "Method Not Allowed"@,
        ),
{
    plain_response(405, "Method Not Allowed", "Method Not Allowed")
}

/// The response to a request for a file that is not there.
pub fn not_found_response() -> (response: String)
    ensures
        response@ == text_response(404, "Not found"@, "text/plain"@, "Not Found"@),
{
    plain_response(404, "Not found", "Not Found")
}

/// The response to a request for the instant of the last commit, which is
/// `timestamp`.
pub fn last_update_response(timestamp: &str) -> (response: String)
    ensures
        response@ == text_response(
            200,
            "OK"@,
            "application/json"@,
            last_update_json(timestamp@),
        ),
{
    broadcast use vstd::utf8::group_utf8_lib;

    let mut json: Vec<char> = Vec::new();
    crate::text::chars::extend_text(&mut json, "{\"last_update\":\"");
    crate::text::chars::extend_text(&mut json, timestamp);
    crate::text::chars::extend_text(&mut json, "\"}");
    let body = text_of(&json);
    create_response(200, "OK", "application/json", body.as_str().as_bytes())
}

/// The response to a request for a file: the file where it was read, and
/// the word that it is not there where it was not.
pub fn asset_response(found: Option<Html>) -> (response: String)
    ensures
        match found {
            Some(html) => response@ == text_response(
                200,
                "Ok"@,
                html.content_type@,
                html.content@,
            ),
            None => response@ == text_response(404, "Not found"@, "text/plain"@, "Not Found"@),
        },
{
    match found {
        Some(html) => create_html_response(200, "Ok", html),
        None => not_found_response(),
    }
}

/// The file to read for `route`, where it asks for one.
pub fn route_file(route: &Route) -> (file: Option<String>)
    ensures
        match route@ {
            RouteView::Asset(path) => file matches Some(name) && name@
                == crate::http::file_server::asset_file(path),
            _ => file is None,
        },
{
    match route {
        Route::Asset(path) => Some(asset_path(path.as_str())),
        _ => None,
    }
}

} // verus!
