//! Calls into other crates.
//!
//! Each function here wraps one computation that another crate performs.
//! Its body is not verified: the contract above it is taken on trust. It
//! says that the result is a function of the arguments, under a name that
//! the contracts of the relay can speak of, and the length of a digest;
//! of the current time it says only what holds of every rendering.

use base64::engine::general_purpose::STANDARD;
use base64::Engine;
use chrono::Utc;
use hmac::{Hmac, Mac};
use mail_parser::MessageParser;
use sha2::{Digest, Sha256};
use crate::text::{has_suffix, option_view};
use url::Url;
use vstd::prelude::*;
use vstd::utf8::is_ascii_chars;

verus! {

/// The SHA-256 digest of `data`.
pub uninterp spec fn sha256(data: Seq<u8>) -> Seq<u8>;

/// The HMAC-SHA256 tag of `message` under `key`.
pub uninterp spec fn hmac_sha256(key: Seq<u8>, message: Seq<u8>) -> Seq<u8>;

/// The standard base64 encoding of `data`, with padding.
pub uninterp spec fn base64_encoded(data: Seq<u8>) -> Seq<char>;

/// The bytes that `text` encodes in standard base64, or `None` if it is not
/// a valid encoding.
pub uninterp spec fn base64_decoded(text: Seq<char>) -> Option<Seq<u8>>;

/// Whether `text` parses as a URL.
pub uninterp spec fn url_parsed(text: Seq<char>) -> bool;

/// The host of the URL `text`, if it parses and has one.
pub uninterp spec fn url_host(text: Seq<char>) -> Option<Seq<char>>;

/// `text` as a JSON string literal, quotes included.
pub uninterp spec fn json_string(text: Seq<char>) -> Seq<char>;

/// Whether `raw` parses as an RFC 5322 message.
pub uninterp spec fn mail_parsed(raw: Seq<u8>) -> bool;

/// The subject of the message `raw`, if it has one.
pub uninterp spec fn mail_subject(raw: Seq<u8>) -> Option<Seq<char>>;

/// The `index`-th body of the message `raw` as HTML, if there is one.
pub uninterp spec fn mail_body_html(raw: Seq<u8>, index: nat) -> Option<Seq<char>>;

/// The `index`-th body of the message `raw` as plain text, if there is one.
pub uninterp spec fn mail_body_text(raw: Seq<u8>, index: nat) -> Option<Seq<char>>;

/// Whether `c` is alphabetic or numeric in Unicode.
pub uninterp spec fn unicode_alphanumeric(c: char) -> bool;

/// The largest input that `base64_encode` takes: its encoding still has a
/// length that fits in `usize`.
pub open spec fn base64_input_limit() -> nat {
    (usize::MAX / 2) as nat
}

/// What a message parser found in a raw message.
#[derive(Debug)]
pub struct ParsedEmail {
    pub subject: Option<String>,
    pub html: Option<String>,
    pub text: Option<String>,
}

/// The mathematical content of a [`ParsedEmail`].
pub struct ParsedEmailView {
    pub subject: Option<Seq<char>>,
    pub html: Option<Seq<char>>,
    pub text: Option<Seq<char>>,
}

impl ParsedEmail {
    /// The mathematical content of the parsed message.
    pub open spec fn view(&self) -> ParsedEmailView {
        ParsedEmailView {
            subject: option_view(self.subject),
            html: option_view(self.html),
            text: option_view(self.text),
        }
    }
}

/// What a URL parser found of the host of a URL.
#[derive(Debug)]
pub enum UrlHost {
    /// The text is not a URL.
    Invalid,
    /// The URL has no host.
    Missing,
    /// The host of the URL.
    Host(String),
}

/// `sha2::Sha256`: `new`, `update`, `finalize`. The result is the SHA-256
/// digest of `data`, which has 32 bytes.
#[verifier::external_body]
pub(crate) fn sha256_digest(data: &[u8]) -> (r: Vec<u8>)
    ensures
        r@ == sha256(data@),
        r@.len() == 32,
{
    let mut hasher = Sha256::new();
    hasher.update(data);
    hasher.finalize().to_vec()
}

/// `hmac::Hmac::<Sha256>`: `new_from_slice`, then `update` and `finalize`.
/// `new_from_slice` returns `Ok` for a key of any length, so there is
/// always a tag. The result is the tag of `message` under `key`, which has
/// 32 bytes.
#[verifier::external_body]
pub(crate) fn hmac_sha256_tag(key: &[u8], message: &[u8]) -> (r: Vec<u8>)
    ensures
        r@ == hmac_sha256(key@, message@),
        r@.len() == 32,
{
    let mut mac = Hmac::<Sha256>::new_from_slice(key).expect("HMAC takes a key of any length");
    mac.update(message);
    mac.finalize().into_bytes().to_vec()
}

/// `base64::Engine::encode` of the `STANDARD` engine. The result is the
/// encoding of `data`. The call panics where the length of the encoding
/// overflows `usize`; the limit on the input rules that out.
#[verifier::external_body]
pub(crate) fn base64_encode(data: &[u8]) -> (r: String)
    requires
        data@.len() <= base64_input_limit(),
    ensures
        r@ == base64_encoded(data@),
{
    STANDARD.encode(data)
}

/// `base64::Engine::decode` of the `STANDARD` engine. The result is the
/// decoded bytes, or `None` where the call returns an error.
#[verifier::external_body]
pub(crate) fn base64_decode(text: &str) -> (r: Option<Vec<u8>>)
    ensures
        match r {
            Some(bytes) => base64_decoded(text@) == Some(bytes@),
            None => base64_decoded(text@) is None,
        },
{
    match STANDARD.decode(text) {
        Ok(bytes) => Some(bytes),
        Err(_) => None,
    }
}

/// `url::Url::parse`, then `Url::host_str`. The result tells whether the
/// text parsed and, if so, the host that was found.
#[verifier::external_body]
pub(crate) fn parse_url_host(text: &str) -> (r: UrlHost)
    ensures
        match r {
            UrlHost::Invalid => !url_parsed(text@),
            UrlHost::Missing => url_parsed(text@) && url_host(text@) is None,
            UrlHost::Host(h) => url_parsed(text@) && url_host(text@) == Some(h@),
        },
{
    match Url::parse(text) {
        Ok(url) => match url.host_str() {
            Some(h) => UrlHost::Host(h.to_string()),
            None => UrlHost::Missing,
        },
        Err(_) => UrlHost::Invalid,
    }
}

/// `serde_json::to_string` on a string slice. Writing a string into a
/// vector of bytes cannot fail, so the call returns `Ok`. The result is the
/// JSON string literal for `text`.
#[verifier::external_body]
pub(crate) fn json_quote(text: &str) -> (r: String)
    ensures
        r@ == json_string(text@),
{
    serde_json::to_string(text).expect("a string always has a JSON literal")
}

/// `mail_parser::MessageParser::parse` with the default parser, then
/// `Message::subject`, `Message::body_html` and `Message::body_text`. The
/// result is `None` where the parser returns no message, else what the
/// three calls returned for the body at `index`.
#[verifier::external_body]
pub(crate) fn parse_mail(raw: &[u8], index: usize) -> (r: Option<ParsedEmail>)
    ensures
        match r {
            Some(p) => {
                &&& mail_parsed(raw@)
                &&& p@.subject == mail_subject(raw@)
                &&& p@.html == mail_body_html(raw@, index as nat)
                &&& p@.text == mail_body_text(raw@, index as nat)
            },
            None => !mail_parsed(raw@),
        },
{
    match MessageParser::default().parse(raw) {
        Some(m) => Some(
            ParsedEmail {
                subject: m.subject().map(|s| s.to_string()),
                html: m.body_html(index).map(|s| s.into_owned()),
                text: m.body_text(index).map(|s| s.into_owned()),
            },
        ),
        None => None,
    }
}

/// The one pattern that `format_now` takes: an RFC 1123 date in GMT.
pub const RFC1123_GMT: &'static str = "%a, %d %b %Y %H:%M:%S GMT";

/// What holds of every date rendered with `RFC1123_GMT`: it is made of
/// ASCII characters, ends in ` GMT`, and has 29 characters or, for a year
/// past 9999, more.
pub open spec fn is_gmt_date(text: Seq<char>) -> bool {
    &&& text.len() >= 29
    &&& is_ascii_chars(text)
    &&& has_suffix(text, " GMT"@)
}

/// `chrono::Utc::now`, then `DateTime::format` and `to_string`. The result
/// is the current time and so differs from call to call. Whatever the
/// time, the pattern renders three letters, a comma, two digits, three
/// letters, a year of four digits or more, and the time of day, each
/// separated by a space, and then ` GMT`. Rendering panics on a malformed
/// pattern, so only the one above is taken. `Utc::now` panics where the
/// clock of the machine reads a time before 1970.
#[verifier::external_body]
pub(crate) fn format_now(pattern: &str) -> (r: String)
    requires
        pattern@ == RFC1123_GMT@,
    ensures
        is_gmt_date(r@),
{
    Utc::now().format(pattern).to_string()
}

/// `char::is_alphanumeric`.
pub assume_specification[ char::is_alphanumeric ](c: char) -> (r: bool)
    ensures
        r == unicode_alphanumeric(c),
;

} // verus!
