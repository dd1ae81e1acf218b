//! From a request path to the feed URL it asks for, and from the outcome of
//! the enrichment to the reply.
//!
//! The path of a request is the Base64 form of the feed's URL, after any
//! number of leading slashes.

use crate::error::AppError;
use base64::engine::general_purpose::STANDARD;
use base64::Engine;
use url::Url;
use vstd::prelude::*;
use vstd::slice::slice_subrange;
use vstd::string::StringExecFns;
use vstd::utf8::*;

verus! {

/// The byte `/`.
pub const SLASH: u8 = 47;

/// Status of a reply that carries the enriched feed.
pub const STATUS_OK: u16 = 200;

/// Status of a reply to a path that names no feed.
pub const STATUS_BAD_REQUEST: u16 = 400;

/// Status of a reply to a feed that could not be fetched or parsed.
pub const STATUS_INTERNAL_SERVER_ERROR: u16 = 500;

/// What `base64`'s `STANDARD` engine decodes `input` to, or `None` where it
/// rejects the input.
pub uninterp spec fn base64_decoded(input: Seq<u8>) -> Option<Seq<u8>>;

/// What `url::Url::parse` makes of `text`: the serialization of the URL
/// parsed, or the message of the parse error.
pub uninterp spec fn url_parsed(text: Seq<char>) -> Result<Seq<char>, Seq<char>>;

/// Why a request path names no feed.
#[derive(Debug, Clone, Copy, PartialEq, Eq, Structural)]
pub enum PathError {
    /// The path is not Base64.
    Base64,
    /// The decoded bytes are not UTF-8.
    Utf8,
    /// The decoded text is not a URL.
    Url,
}

/// What is sent back: a status code and a body.
pub struct Reply {
    pub status: u16,
    pub body: String,
}

/// The path without its leading slashes.
pub open spec fn without_leading_slashes(path: Seq<u8>) -> Seq<u8>
    decreases path.len(),
{
    if path.len() > 0 && path[0] == SLASH {
        without_leading_slashes(path.drop_first())
    } else {
        path
    }
}

/// The URL that decoded bytes hold, as far as the URL parser is not needed to
/// tell: the bytes must be there and be UTF-8, and their text must parse.
pub open spec fn url_of(decoded: Option<Seq<u8>>) -> Result<Seq<char>, PathError> {
    match decoded {
        None => Err(PathError::Base64),
        Some(raw) => if !valid_utf8(raw) {
            Err(PathError::Utf8)
        } else {
            match url_parsed(decode_utf8(raw)) {
                Ok(url) => Ok(url),
                Err(_) => Err(PathError::Url),
            }
        },
    }
}

/// The feed URL that a request path asks for.
pub open spec fn requested_url(path: Seq<char>) -> Result<Seq<char>, PathError> {
    url_of(base64_decoded(without_leading_slashes(encode_utf8(path))))
}

/// The words that explain a rejected path.
pub open spec fn rejection_text(error: PathError) -> Seq<char> {
    match error {
        PathError::Base64 => "Failed to decode Base64 path"@,
        PathError::Utf8 => "Invalid UTF-8 sequence in Base64 decoded URL"@,
        PathError::Url => "Invalid URL in Base64 decoded path"@,
    }
}

/// The words that introduce the failure of an enrichment.
pub open spec fn failure_intro() -> Seq<char> {
    "Could not qualify RSS: "@
}

/// Calls `decode` of `base64::engine::general_purpose::STANDARD`.
///
/// Trusted: the outcome is the one named by [`base64_decoded`].
#[verifier::external_body]
fn base64_decode(input: &[u8]) -> (decoded: Option<Vec<u8>>)
    ensures
        match decoded {
            Some(raw) => base64_decoded(input@) == Some(raw@),
            None => base64_decoded(input@) is None,
        },
{
    STANDARD.decode(input).ok()
}

/// Calls `std::str::from_utf8`.
///
/// Trusted: bytes that are valid UTF-8 come back as the text they encode, any
/// others as `None`.
#[verifier::external_body]
fn utf8_text(bytes: &[u8]) -> (text: Option<&str>)
    ensures
        match text {
            Some(text) => valid_utf8(bytes@) && text@ == decode_utf8(bytes@),
            None => !valid_utf8(bytes@),
        },
{
    std::str::from_utf8(bytes).ok()
}

/// Calls `url::Url::parse` and turns the URL into its serialization, or the
/// error into its message.
///
/// Trusted: the outcome is the one named by [`url_parsed`].
#[verifier::external_body]
fn parse_url(text: &str) -> (parsed: Result<String, String>)
    ensures
        match parsed {
            Ok(url) => url_parsed(text@) == Ok::<Seq<char>, Seq<char>>(url@),
            Err(message) => url_parsed(text@) == Err::<Seq<char>, Seq<char>>(message@),
        },
{
    match Url::parse(text) {
        Ok(url) => Ok(String::from(url)),
        Err(error) => Err(error.to_string()),
    }
}

/// The part of a request path after its leading slashes.
pub fn path_payload(path: &[u8]) -> (payload: &[u8])
    ensures
        payload@ == without_leading_slashes(path@),
{
    let mut start: usize = 0;
    proof {
        assert(path@.skip(0) =~= path@);
    }
    while start < path.len() && path[start] == SLASH
        invariant
            start <= path.len(),
            without_leading_slashes(path@) == without_leading_slashes(path@.skip(start as int)),
        decreases path.len() - start,
    {
        proof {
            assert(path@.skip(start as int).drop_first() =~= path@.skip(start as int + 1));
        }
        start += 1;
    }
    proof {
        assert(path@.subrange(start as int, path@.len() as int) =~= path@.skip(start as int));
    }
    slice_subrange(path, start, path.len())
}

/// Whether `text` is a URL: its serialization if it is, and the failure that
/// reports the parser's message if it is not.
pub fn check_url(text: &str) -> (checked: Result<String, AppError>)
    ensures
        match checked {
            Ok(url) => url_parsed(text@) == Ok::<Seq<char>, Seq<char>>(url@),
            Err(error) => error matches AppError::UrlParseError(message) && url_parsed(text@)
                == Err::<Seq<char>, Seq<char>>(message@),
        },
{
    match parse_url(text) {
        Ok(url) => Ok(url),
        Err(message) => Err(AppError::UrlParseError(message)),
    }
}

/// The URL in the bytes that the path decoded to; `None` stands for a path
/// that was not Base64.
pub fn url_of_decoded(decoded: Option<Vec<u8>>) -> (url: Result<String, PathError>)
    ensures
        match url {
            Ok(url) => url_of(text_bytes(decoded)) == Ok::<Seq<char>, PathError>(url@),
            Err(error) => url_of(text_bytes(decoded)) == Err::<Seq<char>, PathError>(error),
        },
{
    match decoded {
        None => Err(PathError::Base64),
        Some(raw) => match utf8_text(raw.as_slice()) {
            None => Err(PathError::Utf8),
            Some(text) => match parse_url(text) {
                Ok(url) => Ok(url),
                Err(_) => Err(PathError::Url),
            },
        },
    }
}

/// The bytes of an optional vector.
pub open spec fn text_bytes(decoded: Option<Vec<u8>>) -> Option<Seq<u8>> {
    match decoded {
        Some(raw) => Some(raw@),
        None => None,
    }
}

/// The feed URL that the request path asks for, or why it asks for none.
pub fn decode_request_path(path: &str) -> (url: Result<String, PathError>)
    ensures
        match url {
            Ok(url) => requested_url(path@) == Ok::<Seq<char>, PathError>(url@),
            Err(error) => requested_url(path@) == Err::<Seq<char>, PathError>(error),
        },
{
    let payload = path_payload(path.as_bytes());
    url_of_decoded(base64_decode(payload))
}

/// The reply to a path that names no feed.
pub fn rejection(error: PathError) -> (reply: Reply)
    ensures
        reply.status == STATUS_BAD_REQUEST,
        reply.body@ == rejection_text(error),
{
    let body = match error {
        PathError::Base64 => String::from_str("Failed to decode Base64 path"),
        PathError::Utf8 => String::from_str("Invalid UTF-8 sequence in Base64 decoded URL"),
        PathError::Url => String::from_str("Invalid URL in Base64 decoded path"),
    };
    Reply { status: STATUS_BAD_REQUEST, body }
}

/// The reply to a request whose feed was asked for: the enriched feed, or the
/// report of the failure that stopped the whole request.
pub fn qualified_reply(outcome: Result<String, AppError>) -> (reply: Reply)
    ensures
        match outcome {
            Ok(feed) => reply.status == STATUS_OK && reply.body == feed,
            Err(error) => reply.status == STATUS_INTERNAL_SERVER_ERROR && reply.body@
                == failure_intro() + error.prefix() + error.cause(),
        },
{
    match outcome {
        Ok(feed) => Reply { status: STATUS_OK, body: feed },
        Err(error) => {
            let message = error.message();
            Reply {
                status: STATUS_INTERNAL_SERVER_ERROR,
                body: String::from_str("Could not qualify RSS: ").concat(message.as_str()),
            }
        },
    }
}

} // verus!
