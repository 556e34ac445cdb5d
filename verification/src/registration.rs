//! Registering with the Phaneron server: the HTTP request that announces this
//! client under a fresh random id, and the WebSocket URL that the answer gives.
use vstd::prelude::*;

use crate::phaneron_ws_message::{RegisterRequest, RegisterResponse};

verus! {

/// A lower-case hexadecimal digit.
pub open spec fn is_lower_hex_digit(c: char) -> bool {
    ('0' <= c && c <= '9') || ('a' <= c && c <= 'f')
}

/// The text of a random (version 4) UUID in hyphenated lower-case form,
/// such as `67e55044-10b1-426f-9247-bb680147c5f4`: five groups of
/// hexadecimal digits separated by hyphens, with version digit `4` and a
/// variant digit among `8`, `9`, `a`, `b`.
pub open spec fn is_v4_uuid_text(s: Seq<char>) -> bool {
    &&& s.len() == 36
    &&& forall|i: int|
        0 <= i < 36 ==> (if i == 8 || i == 13 || i == 18 || i == 23 {
            #[trigger] s[i] == '-'
        } else {
            is_lower_hex_digit(s[i])
        })
    &&& s[14] == '4'
    &&& (s[19] == '8' || s[19] == '9' || s[19] == 'a' || s[19] == 'b')
}

/// A fresh random user id: calls `uuid::Uuid::new_v4` and renders it with
/// the `Display` impl of `uuid::Uuid`, which writes the hyphenated
/// lower-case form.  The claim is the shape of that text; which id comes out
/// is chance.
#[verifier::external_body]
fn random_user_id() -> (id: String)
    ensures
        is_v4_uuid_text(id@),
{
    uuid::Uuid::new_v4().to_string()
}

/// The registration request of a new client, under a fresh random id.
pub fn new_register_request() -> (request: RegisterRequest)
    ensures
        is_v4_uuid_text(request.user_id@),
{
    RegisterRequest { user_id: random_user_id() }
}

/// Where the registration request is posted.
pub fn register_endpoint() -> (url: String)
    ensures
        url@ == "http://127.0.0.1:8080/register"@,
{
    String::from_str("http://127.0.0.1:8080/register")
}

/// The headers of the registration request, as (name, value) pairs in the
/// order they are set.
pub fn register_headers() -> (headers: Vec<(String, String)>)
    ensures
        headers@.len() == 4,
        headers@[0].0@ == "user-agent"@,
        headers@[0].1@ == "PhaneronTestApp/1.0.0"@,
        headers@[1].0@ == "accept"@,
        headers@[1].1@ == "*/*"@,
        headers@[2].0@ == "host"@,
        headers@[2].1@ == "localhost:8080"@,
        headers@[3].0@ == "connection"@,
        headers@[3].1@ == "keep-alive"@,
{
    let mut headers: Vec<(String, String)> = Vec::new();
    headers.push((String::from_str("user-agent"), String::from_str("PhaneronTestApp/1.0.0")));
    headers.push((String::from_str("accept"), String::from_str("*/*")));
    headers.push((String::from_str("host"), String::from_str("localhost:8080")));
    headers.push((String::from_str("connection"), String::from_str("keep-alive")));
    headers
}

/// The error type of `url::Url::parse`; its value is carried, never read.
#[verifier::external_type_specification]
#[verifier::external_body]
pub struct ExUrlParseError(url::ParseError);

/// What `url::Url::parse` makes of `input`: the serialization of the parsed
/// URL (`url::Url::as_str`), or `None` where it refuses the input.
pub uninterp spec fn url_parse(input: Seq<char>) -> Option<Seq<char>>;

/// Calls `url::Url::parse` on `input` and hands back the parsed URL's
/// serialization (its conversion into `String`), or the parser's error.  The
/// claim is that both are `url_parse(input)`.
#[verifier::external_body]
fn parse_url(input: &str) -> (r: Result<String, url::ParseError>)
    ensures
        match r {
            Ok(s) => url_parse(input@) == Some(s@),
            Err(_) => url_parse(input@) is None,
        },
{
    url::Url::parse(input).map(String::from)
}

/// Why no WebSocket URL could be had from a registration answer.
#[derive(Debug)]
pub enum SocketUrlError {
    /// The answer's URL does not parse.
    InvalidUrl(url::ParseError),
}

/// The WebSocket URL of a registration answer, in the normal form of a
/// parsed URL, or the reason it does not parse.
pub fn socket_url(response: &RegisterResponse) -> (r: Result<String, SocketUrlError>)
    ensures
        match r {
            Ok(s) => url_parse(response.url@) == Some(s@),
            Err(_) => url_parse(response.url@) is None,
        },
{
    match parse_url(response.url.as_str()) {
        Ok(s) => Ok(s),
        Err(e) => Err(SocketUrlError::InvalidUrl(e)),
    }
}

} // verus!
