//! Building HTTP/1.1 request text for a target: the request line, the fixed
//! headers, and for bodied verbs the content headers and the body itself.

use vstd::prelude::*;
use crate::numbers::{dec_digits, u64_to_decimal};
use crate::url::{Target, TargetModel};

verus! {

/// The request text for a bodyless verb:
/// `{METHOD} /{path} HTTP/1.1\r\nHost: {host}\r\nConnection: close\r\n\r\n`.
pub open spec fn head_model(method: Seq<char>, m: TargetModel) -> Seq<char> {
    method + " /"@ + m.path + " HTTP/1.1\r\nHost: "@ + m.host + "\r\nConnection: close\r\n\r\n"@
}

/// The request text for a bodied verb, whose content length in bytes is
/// `content_len`:
/// `{METHOD} /{path} HTTP/1.1\r\nHost: {host}\r\nConnection: close\r\n`
/// `Content-Type: application/json\r\nContent-Length: {len}\r\n\r\n{body}`.
pub open spec fn body_model(
    method: Seq<char>,
    m: TargetModel,
    body: Seq<char>,
    content_len: nat,
) -> Seq<char> {
    method + " /"@ + m.path + " HTTP/1.1\r\nHost: "@ + m.host
        + "\r\nConnection: close\r\nContent-Type: application/json\r\nContent-Length: "@
        + dec_digits(content_len) + "\r\n\r\n"@ + body
}

/// Build the request text for a verb without a body.
pub fn req_without_body(method: &str, target: &Target) -> (r: String)
    ensures
        r@ == head_model(method@, target@),
{
    let mut s = method.to_owned();
    s.append(" /");
    s.append(target.path.as_str());
    s.append(" HTTP/1.1\r\nHost: ");
    s.append(target.host.as_str());
    s.append("\r\nConnection: close\r\n\r\n");
    proof {
        assert(s@ =~= head_model(method@, target@));
    }
    s
}

/// Build the request text for a verb that carries `body`, with its byte
/// length as the content length.
pub fn req_with_body(method: &str, target: &Target, body: &str) -> (r: String)
    ensures
        r@ == body_model(method@, target@, body@, body.len() as nat),
{
    let mut s = method.to_owned();
    s.append(" /");
    s.append(target.path.as_str());
    s.append(" HTTP/1.1\r\nHost: ");
    s.append(target.host.as_str());
    s.append("\r\nConnection: close\r\nContent-Type: application/json\r\nContent-Length: ");
    let digits = u64_to_decimal(body.len() as u64);
    s.append(digits.as_str());
    s.append("\r\n\r\n");
    s.append(body);
    proof {
        assert(s@ =~= body_model(method@, target@, body@, body.len() as nat));
    }
    s
}

/// The GET request text for a target.
pub fn get(target: &Target) -> (r: String)
    ensures
        r@ == head_model("GET"@, target@),
{
    req_without_body("GET", target)
}

/// The DELETE request text for a target.
pub fn delete(target: &Target) -> (r: String)
    ensures
        r@ == head_model("DELETE"@, target@),
{
    req_without_body("DELETE", target)
}

/// The POST request text for a target and body.
pub fn post(target: &Target, body: &str) -> (r: String)
    ensures
        r@ == body_model("POST"@, target@, body@, body.len() as nat),
{
    req_with_body("POST", target, body)
}

/// The PUT request text for a target and body.
pub fn put(target: &Target, body: &str) -> (r: String)
    ensures
        r@ == body_model("PUT"@, target@, body@, body.len() as nat),
{
    req_with_body("PUT", target, body)
}

} // verus!
