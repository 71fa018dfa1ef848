use vstd::prelude::*;
use vstd::utf8::decode_utf8;
use vstd::utf8::encode_utf8;
use vstd::utf8::valid_utf8;
use crate::http::html::Html;
use crate::text::chars::byte_len;
use crate::text::chars::extend_text;
use crate::text::chars::text_of;
use crate::text::number::decimal;
use crate::text::number::push_decimal;

verus! {

/// The text that `String::from_utf8_lossy` makes of bytes that are not valid
/// UTF-8: the parts that are valid, with U+FFFD in place of each part that
/// is not.
pub uninterp spec fn lossy_text(bytes: Seq<u8>) -> Seq<char>;

/// The text of a body: what the bytes encode where they are valid UTF-8,
/// and the lossy reading of them where they are not.
pub open spec fn body_text(bytes: Seq<u8>) -> Seq<char> {
    if valid_utf8(bytes) {
        decode_utf8(bytes)
    } else {
        lossy_text(bytes)
    }
}

/// The status line and the headers of a response, up to and with the blank
/// line that ends them.
pub open spec fn response_head(
    status_code: nat,
    status_text: Seq<char>,
    content_type: Seq<char>,
    content_length: nat,
) -> Seq<char> {
    "HTTP/1.1 "@ + decimal(status_code) + " "@ + status_text + "\r\nContent-Type: "@ + content_type
        + "\r\nContent-Length: "@ + decimal(content_length) + "\r\n\r\n"@
}

/// `String::from_utf8_lossy`: valid UTF-8 is decoded as it is; of other
/// bytes the result is named, not stated.
#[verifier::external_body]
pub(crate) fn lossy(bytes: &[u8]) -> (text: String)
    ensures
        valid_utf8(bytes@) ==> text@ == decode_utf8(bytes@),
        !valid_utf8(bytes@) ==> text@ == lossy_text(bytes@),
{
    String::from_utf8_lossy(bytes).into_owned()
}

/// A whole response: status line, the two headers with the length
/// `content_length`, a blank line and `body`.
pub fn compose_response(
    status_code: u16,
    status_text: &str,
    content_type: &str,
    content_length: usize,
    body: &str,
) -> (response: String)
    ensures
        response@ == response_head(
            status_code as nat,
            status_text@,
            content_type@,
            content_length as nat,
        ) + body@,
{
    let mut out: Vec<char> = Vec::new();
    extend_text(&mut out, "HTTP/1.1 ");
    push_decimal(&mut out, status_code as u64);
    extend_text(&mut out, " ");
    extend_text(&mut out, status_text);
    extend_text(&mut out, "\r\nContent-Type: ");
    extend_text(&mut out, content_type);
    extend_text(&mut out, "\r\nContent-Length: ");
    push_decimal(&mut out, content_length as u64);
    extend_text(&mut out, "\r\n\r\n");
    extend_text(&mut out, body);
    text_of(&out)
}

/// A whole response: status line, the two headers, a blank line and the
/// body as text. The length announced is that of `body` in bytes.
pub fn create_response(status_code: u16, status_text: &str, content_type: &str, body: &[u8]) -> (response:
    String)
    ensures
        response@ == response_head(
            status_code as nat,
            status_text@,
            content_type@,
            body@.len(),
        ) + body_text(body@),
{
    let text = lossy(body);
    compose_response(status_code, status_text, content_type, body.len(), text.as_str())
}

/// A whole response for `html`: its content type in the header, the length
/// of its content in bytes, and the content as the body.
pub fn create_html_response(status_code: u16, status_text: &str, html: Html) -> (response: String)
    ensures
        response@ == response_head(
            status_code as nat,
            status_text@,
            html.content_type@,
            encode_utf8(html.content@).len(),
        ) + html.content@,
{
    compose_response(
        status_code,
        status_text,
        html.content_type.as_str(),
        byte_len(html.content.as_str()),
        html.content.as_str(),
    )
}

} // verus!
