//! The outbound side: from a raw message to a signed request for the email
//! delivery API, and from the API's answer to a result.
//!
//! Nothing here performs I/O. [`AcsMailer::prepare`] computes the request
//! that is to be posted; [`AcsMailer::complete`] classifies what came back.

use crate::error::{AcsError, ConfigError, EmailError, NetworkError, SmtpRelayError};
use crate::primitives::{
    base64_decode, base64_decoded, base64_encode, base64_encoded, format_now, hmac_sha256,
    hmac_sha256_tag, is_gmt_date, json_quote, json_string, mail_body_html, mail_body_text,
    mail_parsed, mail_subject, parse_mail, parse_url_host, sha256, sha256_digest, url_host,
    url_parsed, ParsedEmail, ParsedEmailView, UrlHost, RFC1123_GMT,
};
use crate::session::{step, Event, Phase, Response, Session};
use crate::text::{
    contains_str, find_between, find_char, option_view, str_chars, str_eq, trim, trim_both,
    trim_str, views_of, CharClass,
};
use vstd::prelude::*;
use vstd::utf8::encode_utf8;

verus! {

/// Path and query of the send operation of the delivery API.
pub const API_PATH: &'static str = "/emails:send?api-version=2023-03-31";

/// The HTTP method of the send operation.
pub const API_METHOD: &'static str = "POST";

/// The content type of the request body.
pub const CONTENT_TYPE: &'static str = "application/json";

/// The subject of a message that has none.
pub const DEFAULT_SUBJECT: &'static str = "No Subject";

/// The HTML body that a parser makes up for a message without content.
pub const EMPTY_HTML: &'static str = "<html><body></body></html>";

/// Which body of a message is relayed: the first.
pub const BODY_INDEX: usize = 0;

/// One recipient in the payload.
#[derive(Debug)]
pub struct AcsEmailAddress<'a> {
    pub address: &'a str,
}

/// The recipients in the payload.
#[derive(Debug)]
pub struct AcsRecipients<'a> {
    pub to: Vec<AcsEmailAddress<'a>>,
}

/// Subject and bodies in the payload. A body that is absent is left out of
/// the JSON object.
#[derive(Debug)]
pub struct AcsEmailContent {
    pub subject: String,
    pub plain_text: Option<String>,
    pub html: Option<String>,
}

/// The payload of one send operation.
#[derive(Debug)]
pub struct AcsEmailRequest<'a> {
    pub sender_address: &'a str,
    pub content: AcsEmailContent,
    pub recipients: AcsRecipients<'a>,
}

/// The mathematical content of an [`AcsEmailRequest`].
pub struct EmailRequestView {
    pub sender_address: Seq<char>,
    pub subject: Seq<char>,
    pub plain_text: Option<Seq<char>>,
    pub html: Option<Seq<char>>,
    pub to: Seq<Seq<char>>,
}

impl<'a> AcsRecipients<'a> {
    /// The addresses, in order.
    pub open spec fn view(&self) -> Seq<Seq<char>> {
        self.to@.map_values(|a: AcsEmailAddress<'a>| a.address@)
    }
}

impl<'a> AcsEmailRequest<'a> {
    /// The mathematical content of the payload.
    pub open spec fn view(&self) -> EmailRequestView {
        EmailRequestView {
            sender_address: self.sender_address@,
            subject: self.content.subject@,
            plain_text: option_view(self.content.plain_text),
            html: option_view(self.content.html),
            to: self.recipients@,
        }
    }
}

/// The plain-text body that is relayed: the parsed one, trimmed, unless
/// that is empty.
pub open spec fn usable_text(text: Option<Seq<char>>) -> Option<Seq<char>> {
    match text {
        Some(t) => if trim(t).len() == 0 {
            None
        } else {
            Some(trim(t))
        },
        None => None,
    }
}

/// The HTML body that is relayed: the parsed one, trimmed, unless that is
/// empty or the made-up body of a message without content.
pub open spec fn usable_html(html: Option<Seq<char>>) -> Option<Seq<char>> {
    match html {
        Some(h) => if trim(h).len() == 0 || trim(h) == EMPTY_HTML@ {
            None
        } else {
            Some(trim(h))
        },
        None => None,
    }
}

/// Whether a parsed message has a body that can be relayed.
pub open spec fn has_content(parsed: ParsedEmailView) -> bool {
    usable_html(parsed.html) is Some || usable_text(parsed.text) is Some
}

/// The payload for a parsed message, or `None` if there is no recipient or
/// no body to relay.
pub open spec fn request_for(
    parsed: ParsedEmailView,
    recipients: Seq<Seq<char>>,
    sender_address: Seq<char>,
) -> Option<EmailRequestView> {
    if recipients.len() == 0 || !has_content(parsed) {
        None
    } else {
        Some(
            EmailRequestView {
                sender_address,
                subject: match parsed.subject {
                    Some(s) => s,
                    None => DEFAULT_SUBJECT@,
                },
                plain_text: usable_text(parsed.text),
                html: usable_html(parsed.html),
                to: recipients,
            },
        )
    }
}

/// Trims an optional body and drops it if nothing is left.
fn trimmed_body(body: &Option<String>) -> (r: Option<&str>)
    ensures
        match r {
            Some(t) => option_view(*body) matches Some(b) && t@ == trim(b) && t@.len() > 0,
            None => option_view(*body) matches Some(b) ==> trim(b).len() == 0,
        },
{
    match body {
        Some(b) => {
            let t = trim_str(b.as_str(), CharClass::Whitespace);
            if str_chars(t).len() == 0 {
                None
            } else {
                Some(t)
            }
        },
        None => None,
    }
}

/// Builds the payload for a parsed message.
///
/// Fails with the missing-content error if there is no recipient, or if
/// the message has neither a plain-text nor an HTML body to relay.
pub fn build_acs_request<'a>(
    parsed_email: &'a ParsedEmail,
    recipients: &'a [String],
    sender_address: &'a str,
) -> (r: Result<AcsEmailRequest<'a>, SmtpRelayError>)
    ensures
        match r {
            Ok(request) => request_for(parsed_email@, views_of(recipients@), sender_address@)
                == Some(request@),
            Err(e) => request_for(parsed_email@, views_of(recipients@), sender_address@) is None
                && e == SmtpRelayError::Email(EmailError::MissingContent),
        },
{
    if recipients.len() == 0 {
        return Err(SmtpRelayError::Email(EmailError::MissingContent));
    }
    let subject = match &parsed_email.subject {
        Some(s) => s.clone(),
        None => String::from_str(DEFAULT_SUBJECT),
    };
    let html = match trimmed_body(&parsed_email.html) {
        Some(t) => if str_eq(t, EMPTY_HTML) {
            None
        } else {
            Some(String::from_str(t))
        },
        None => None,
    };
    let plain_text = match trimmed_body(&parsed_email.text) {
        Some(t) => Some(String::from_str(t)),
        None => None,
    };
    if html.is_none() && plain_text.is_none() {
        return Err(SmtpRelayError::Email(EmailError::MissingContent));
    }
    let mut to: Vec<AcsEmailAddress<'a>> = Vec::new();
    let mut i: usize = 0;
    while i < recipients.len()
        invariant
            i <= recipients.len(),
            to@.len() == i,
            forall|j: int| 0 <= j < i ==> to@[j].address@ == recipients@[j]@,
        decreases recipients.len() - i,
    {
        to.push(AcsEmailAddress { address: recipients[i].as_str() });
        i += 1;
    }
    let request = AcsEmailRequest {
        sender_address,
        content: AcsEmailContent { subject, plain_text, html },
        recipients: AcsRecipients { to },
    };
    assert(request@.to =~= views_of(recipients@));
    Ok(request)
}


/// An optional member of a JSON object, with the comma and key before its
/// value: nothing for an absent value.
pub open spec fn framed_member(key: Seq<char>, value: Option<Seq<char>>) -> Seq<char> {
    match value {
        Some(v) => key + v,
        None => Seq::empty(),
    }
}

/// One recipient as a JSON object, for an address that is a JSON literal.
pub open spec fn framed_address(address: Seq<char>) -> Seq<char> {
    "{\"address\":"@ + address + "}"@
}

/// The recipients as the elements of a JSON array, in order, for addresses
/// that are JSON literals.
pub open spec fn framed_addresses(to: Seq<Seq<char>>) -> Seq<char>
    decreases to.len(),
{
    if to.len() == 0 {
        Seq::empty()
    } else if to.len() == 1 {
        framed_address(to[0])
    } else {
        framed_addresses(to.drop_last()) + ","@ + framed_address(to.last())
    }
}

/// Subject and bodies as a JSON object, for strings that are JSON literals.
pub open spec fn framed_content(literals: EmailRequestView) -> Seq<char> {
    "{\"subject\":"@ + literals.subject + framed_member(",\"plainText\":"@, literals.plain_text)
        + framed_member(",\"html\":"@, literals.html) + "}"@
}

/// The payload as compact JSON, for strings that are JSON literals
/// already: `senderAddress`, then `content` with `subject` and the bodies
/// that are present, then `recipients` with the addresses in order.
pub open spec fn framed_payload(literals: EmailRequestView) -> Seq<char> {
    "{\"senderAddress\":"@ + literals.sender_address + ",\"content\":"@ + framed_content(literals)
        + ",\"recipients\":{\"to\":["@ + framed_addresses(literals.to) + "]}}"@
}

/// An optional string as a JSON string literal.
pub open spec fn quoted_option(text: Option<Seq<char>>) -> Option<Seq<char>> {
    match text {
        Some(t) => Some(json_string(t)),
        None => None,
    }
}

/// The payload with each of its strings as a JSON string literal.
pub open spec fn quoted_request(request: EmailRequestView) -> EmailRequestView {
    EmailRequestView {
        sender_address: json_string(request.sender_address),
        subject: json_string(request.subject),
        plain_text: quoted_option(request.plain_text),
        html: quoted_option(request.html),
        to: request.to.map_values(|a: Seq<char>| json_string(a)),
    }
}

/// The payload as compact JSON.
pub open spec fn payload_text(request: EmailRequestView) -> Seq<char> {
    framed_payload(quoted_request(request))
}

/// Appends an optional member of a JSON object to `out`.
fn append_member(out: &mut String, key: &str, value: &Option<String>)
    ensures
        final(out)@ == old(out)@ + framed_member(key@, option_view(*value)),
{
    match value {
        Some(v) => {
            let mut member = String::from_str(key);
            member.append(v.as_str());
            out.append(member.as_str());
        },
        None => {
            assert(out@ + Seq::<char>::empty() =~= out@);
        },
    }
}

/// Writes the payload as compact JSON from strings that are JSON literals
/// already.
pub fn frame_payload(
    sender_address: &str,
    subject: &str,
    plain_text: &Option<String>,
    html: &Option<String>,
    to: &[String],
) -> (r: String)
    ensures
        r@ == framed_payload(
            EmailRequestView {
                sender_address: sender_address@,
                subject: subject@,
                plain_text: option_view(*plain_text),
                html: option_view(*html),
                to: views_of(to@),
            },
        ),
{
    let mut content = String::from_str("{\"subject\":");
    content.append(subject);
    append_member(&mut content, ",\"plainText\":", plain_text);
    append_member(&mut content, ",\"html\":", html);
    content.append("}");
    let mut list = String::new();
    let mut i: usize = 0;
    while i < to.len()
        invariant
            i <= to.len(),
            list@ == framed_addresses(views_of(to@).take(i as int)),
        decreases to.len() - i,
    {
        let mut entry = String::from_str("{\"address\":");
        entry.append(to[i].as_str());
        entry.append("}");
        proof {
            let next = views_of(to@).take(i as int + 1);
            assert(next.drop_last() =~= views_of(to@).take(i as int));
            assert(next.last() == to@[i as int]@);
        }
        if i == 0 {
            list = entry;
        } else {
            list.append(",");
            list.append(entry.as_str());
        }
        i += 1;
    }
    assert(views_of(to@).take(i as int) =~= views_of(to@));
    let mut out = String::from_str("{\"senderAddress\":");
    out.append(sender_address);
    out.append(",\"content\":");
    out.append(content.as_str());
    out.append(",\"recipients\":{\"to\":[");
    out.append(list.as_str());
    out.append("]}}");
    out
}

/// Turns an optional string into a JSON string literal.
fn quote_option(text: &Option<String>) -> (r: Option<String>)
    ensures
        option_view(r) == quoted_option(option_view(*text)),
{
    match text {
        Some(t) => Some(json_quote(t.as_str())),
        None => None,
    }
}

impl<'a> AcsEmailRequest<'a> {
    /// Serialises the payload as compact JSON: every string becomes a JSON
    /// string literal, and the literals are framed as `frame_payload` does.
    pub fn to_json(&self) -> (r: String)
        ensures
            r@ == payload_text(self@),
    {
        let sender_address = json_quote(self.sender_address);
        let subject = json_quote(self.content.subject.as_str());
        let plain_text = quote_option(&self.content.plain_text);
        let html = quote_option(&self.content.html);
        let mut to: Vec<String> = Vec::new();
        let mut i: usize = 0;
        while i < self.recipients.to.len()
            invariant
                i <= self.recipients.to.len(),
                to@.len() == i,
                forall|j: int| 0 <= j < i ==> (#[trigger] to@[j])@ == json_string(self@.to[j]),
            decreases self.recipients.to.len() - i,
        {
            to.push(json_quote(self.recipients.to[i].address));
            i += 1;
        }
        assert(views_of(to@) =~= quoted_request(self@).to);
        frame_payload(sender_address.as_str(), subject.as_str(), &plain_text, &html, to.as_slice())
    }
}

/// Why no request could be prepared for a message.
#[derive(Clone, Copy, Debug, PartialEq, Eq, Structural)]
pub enum RelayFailure {
    /// The raw message does not parse.
    Unparsable,
    /// There is no recipient, or no body to relay.
    MissingContent,
    /// Endpoint and path do not make a URL.
    InvalidEndpoint,
    /// The endpoint URL has no host.
    MissingHost,
    /// The access key is not valid base64.
    UndecodableKey,
}

impl RelayFailure {
    /// The text that the error for this failure carries; empty for the one
    /// that carries none.
    pub open spec fn detail(self) -> Seq<char> {
        match self {
            RelayFailure::Unparsable => "Invalid email format"@,
            RelayFailure::MissingContent => ""@,
            RelayFailure::InvalidEndpoint => "Invalid endpoint URL"@,
            RelayFailure::MissingHost => "Endpoint URL has no host"@,
            RelayFailure::UndecodableKey => "Failed to decode API key"@,
        }
    }

    /// Whether this failure concerns the message, not the configuration.
    pub open spec fn is_content_failure(self) -> bool {
        self == RelayFailure::Unparsable || self == RelayFailure::MissingContent
    }

    /// Whether `e` is the error that reports this failure: a failure of the
    /// message is an error of the email kind, a failure of endpoint or key
    /// an error of the configuration kind.
    pub open spec fn describes(self, e: SmtpRelayError) -> bool {
        match self {
            RelayFailure::Unparsable => e matches SmtpRelayError::Email(
                EmailError::ParseFailed(m),
            ) && m@ == self.detail(),
            RelayFailure::MissingContent => e == SmtpRelayError::Email(
                EmailError::MissingContent,
            ),
            _ => e matches SmtpRelayError::Config(ConfigError::InvalidConnectionString(m)) && m@
                == self.detail(),
        }
    }

    /// Returns the error that reports this failure.
    pub fn to_error(self) -> (e: SmtpRelayError)
        ensures
            self.describes(e),
    {
        match self {
            RelayFailure::Unparsable => SmtpRelayError::Email(
                EmailError::ParseFailed(String::from_str("Invalid email format")),
            ),
            RelayFailure::MissingContent => SmtpRelayError::Email(EmailError::MissingContent),
            RelayFailure::InvalidEndpoint => SmtpRelayError::Config(
                ConfigError::InvalidConnectionString(String::from_str("Invalid endpoint URL")),
            ),
            RelayFailure::MissingHost => SmtpRelayError::Config(
                ConfigError::InvalidConnectionString(String::from_str("Endpoint URL has no host")),
            ),
            RelayFailure::UndecodableKey => SmtpRelayError::Config(
                ConfigError::InvalidConnectionString(String::from_str("Failed to decode API key")),
            ),
        }
    }
}

/// What the parser finds in a raw message that parses.
pub open spec fn parsed_message(raw: Seq<u8>) -> ParsedEmailView {
    ParsedEmailView {
        subject: mail_subject(raw),
        html: mail_body_html(raw, BODY_INDEX as nat),
        text: mail_body_text(raw, BODY_INDEX as nat),
    }
}

/// Parses a raw message into subject, first HTML body and first plain-text
/// body.
pub fn parse_email(raw: &[u8]) -> (r: Result<ParsedEmail, SmtpRelayError>)
    ensures
        match r {
            Ok(parsed) => mail_parsed(raw@) && parsed@ == parsed_message(raw@),
            Err(e) => !mail_parsed(raw@) && RelayFailure::Unparsable.describes(e),
        },
{
    match parse_mail(raw, BODY_INDEX) {
        Some(parsed) => Ok(parsed),
        None => Err(RelayFailure::Unparsable.to_error()),
    }
}

/// The domain of an address without brackets: what stands between the
/// first `@` and the next one, or the end. `None` without an `@`.
pub open spec fn domain_of(address: Seq<char>) -> Option<Seq<char>> {
    let at = find_char(address, '@');
    if at >= address.len() {
        None
    } else {
        let rest = address.subrange(at as int + 1, address.len() as int);
        Some(rest.subrange(0, find_char(rest, '@') as int))
    }
}

/// The sender of the outbound request. The address the client gave is used,
/// without its brackets, if an allow-list is configured and holds the
/// domain of that address; else the configured default is.
pub open spec fn selected_sender(
    default_sender: Seq<char>,
    allowed_domains: Option<Seq<Seq<char>>>,
    from: Option<Seq<char>>,
) -> Seq<char> {
    match (allowed_domains, from) {
        (Some(domains), Some(address)) => {
            let bare = trim_both(address, CharClass::AngleBracket);
            match domain_of(bare) {
                Some(domain) => if domains.contains(domain) {
                    bare
                } else {
                    default_sender
                },
                None => default_sender,
            }
        },
        _ => default_sender,
    }
}

/// The content hash of a request body: the base64 of its SHA-256 digest.
pub open spec fn content_hash_of(body: Seq<u8>) -> Seq<char> {
    base64_encoded(sha256(body))
}

/// The text that is signed: verb, path, and date, host and content hash
/// separated by semicolons, on three lines.
pub open spec fn string_to_sign(
    method: Seq<char>,
    path: Seq<char>,
    timestamp: Seq<char>,
    host: Seq<char>,
    content_hash: Seq<char>,
) -> Seq<char> {
    method + "\n"@ + path + "\n"@ + timestamp + ";"@ + host + ";"@ + content_hash
}

/// The value of the Authorization header for a signature.
pub open spec fn authorization_of(signature: Seq<char>) -> Seq<char> {
    "HMAC-SHA256 SignedHeaders=x-ms-date;host;x-ms-content-sha256&Signature="@ + signature
}

/// Writes the text that is signed.
pub fn compose_string_to_sign(
    method: &str,
    path: &str,
    timestamp: &str,
    host: &str,
    content_hash: &str,
) -> (r: String)
    ensures
        r@ == string_to_sign(method@, path@, timestamp@, host@, content_hash@),
{
    let mut text = String::from_str(method);
    text.append("\n");
    text.append(path);
    text.append("\n");
    text.append(timestamp);
    text.append(";");
    text.append(host);
    text.append(";");
    text.append(content_hash);
    text
}

/// Writes the value of the Authorization header for a signature.
pub fn authorization_header(signature: &str) -> (r: String)
    ensures
        r@ == authorization_of(signature@),
{
    let mut header = String::from_str(
        "HMAC-SHA256 SignedHeaders=x-ms-date;host;x-ms-content-sha256&Signature=",
    );
    header.append(signature);
    header
}

/// The mathematical content of an [`AcsMailer`].
pub struct MailerView {
    pub api_endpoint: Seq<char>,
    pub api_key: Seq<char>,
    pub sender_address: Seq<char>,
    pub allowed_sender_domains: Option<Seq<Seq<char>>>,
}

impl MailerView {
    /// The URL a request for `path` goes to.
    pub open spec fn url(self, path: Seq<char>) -> Seq<char> {
        self.api_endpoint + path
    }

    /// Why no request for `path` can be signed, if so: the first of an
    /// invalid URL, a URL without host, and a key that is not base64.
    pub open spec fn signing_failure(self, path: Seq<char>) -> Option<RelayFailure> {
        if !url_parsed(self.url(path)) {
            Some(RelayFailure::InvalidEndpoint)
        } else if url_host(self.url(path)) is None {
            Some(RelayFailure::MissingHost)
        } else {
            match base64_decoded(self.api_key) {
                None => Some(RelayFailure::UndecodableKey),
                Some(_) => None,
            }
        }
    }

    /// The Authorization header for a request: the base64 of the
    /// HMAC-SHA256, under the decoded access key, of the string to sign.
    pub open spec fn authorization(
        self,
        method: Seq<char>,
        path: Seq<char>,
        body: Seq<u8>,
        timestamp: Seq<char>,
    ) -> Seq<char> {
        authorization_of(
            base64_encoded(
                hmac_sha256(
                    base64_decoded(self.api_key).unwrap(),
                    encode_utf8(
                        string_to_sign(
                            method,
                            path,
                            timestamp,
                            url_host(self.url(path)).unwrap(),
                            content_hash_of(body),
                        ),
                    ),
                ),
            ),
        )
    }

    /// The sender for a message the client sent as `from`.
    pub open spec fn sender_for(self, from: Option<Seq<char>>) -> Seq<char> {
        selected_sender(self.sender_address, self.allowed_sender_domains, from)
    }

    /// The payload for a raw message that parses, if it has recipients and
    /// content.
    pub open spec fn payload_for(
        self,
        raw: Seq<u8>,
        recipients: Seq<Seq<char>>,
        from: Option<Seq<char>>,
    ) -> Option<EmailRequestView> {
        request_for(parsed_message(raw), recipients, self.sender_for(from))
    }

    /// Why no request can be prepared for a message, if so. The message is
    /// looked at first, then endpoint and key.
    pub open spec fn preparation_failure(
        self,
        raw: Seq<u8>,
        recipients: Seq<Seq<char>>,
        from: Option<Seq<char>>,
    ) -> Option<RelayFailure> {
        if !mail_parsed(raw) {
            Some(RelayFailure::Unparsable)
        } else {
            match self.payload_for(raw, recipients, from) {
                None => Some(RelayFailure::MissingContent),
                Some(_) => self.signing_failure(API_PATH@),
            }
        }
    }

    /// The request for a message for which none of the failures holds, as
    /// signed at `timestamp`.
    pub open spec fn request(
        self,
        raw: Seq<u8>,
        recipients: Seq<Seq<char>>,
        from: Option<Seq<char>>,
        timestamp: Seq<char>,
    ) -> OutboundRequestView {
        let body = encode_utf8(payload_text(self.payload_for(raw, recipients, from).unwrap()));
        OutboundRequestView {
            url: self.url(API_PATH@),
            date: timestamp,
            content_hash: content_hash_of(body),
            authorization: self.authorization(API_METHOD@, API_PATH@, body, timestamp),
            body,
        }
    }
}

/// A signed request, ready to be posted with the headers `x-ms-date`,
/// `x-ms-content-sha256`, `Authorization` and a `Content-Type` of
/// `CONTENT_TYPE`.
#[derive(Debug)]
pub struct OutboundRequest {
    pub url: String,
    pub date: String,
    pub content_hash: String,
    pub authorization: String,
    pub body: Vec<u8>,
}

/// The mathematical content of an [`OutboundRequest`].
pub struct OutboundRequestView {
    pub url: Seq<char>,
    pub date: Seq<char>,
    pub content_hash: Seq<char>,
    pub authorization: Seq<char>,
    pub body: Seq<u8>,
}

impl OutboundRequestView {
    /// The headers of the request, name and value, in the order in which
    /// they are attached.
    pub open spec fn headers(self) -> Seq<(Seq<char>, Seq<char>)> {
        seq![
            ("x-ms-date"@, self.date),
            ("x-ms-content-sha256"@, self.content_hash),
            ("Authorization"@, self.authorization),
            ("Content-Type"@, CONTENT_TYPE@),
        ]
    }
}

impl OutboundRequest {
    /// The mathematical content of the request.
    pub open spec fn view(&self) -> OutboundRequestView {
        OutboundRequestView {
            url: self.url@,
            date: self.date@,
            content_hash: self.content_hash@,
            authorization: self.authorization@,
            body: self.body@,
        }
    }

    /// Returns the headers to attach to the request: the date, the content
    /// hash, the authorization and the content type.
    pub fn headers(&self) -> (r: Vec<(String, String)>)
        ensures
            r@.len() == 4,
            forall|i: int|
                0 <= i < 4 ==> (#[trigger] r@[i]).0@ == self@.headers()[i].0 && r@[i].1@
                    == self@.headers()[i].1,
    {
        let mut headers: Vec<(String, String)> = Vec::new();
        headers.push((String::from_str("x-ms-date"), self.date.clone()));
        headers.push((String::from_str("x-ms-content-sha256"), self.content_hash.clone()));
        headers.push((String::from_str("Authorization"), self.authorization.clone()));
        headers.push((String::from_str("Content-Type"), String::from_str(CONTENT_TYPE)));
        headers
    }
}

/// How the attempt to post a request ended.
#[derive(Debug)]
pub enum HttpOutcome {
    /// No response was received: DNS, connect, TLS or timeout failed.
    TransportFailed,
    /// A response was received.
    Response { status: u16, body: String },
}

/// Whether an HTTP status reports success.
pub open spec fn is_success(status: u16) -> bool {
    200 <= status <= 299
}

/// Whether `r` is the result of a relay whose request met with `outcome`:
/// success for a 2xx response, the error for its status for any other
/// response, and a network error where no response came.
pub open spec fn is_result_of(r: Result<(), SmtpRelayError>, outcome: HttpOutcome) -> bool {
    match outcome {
        HttpOutcome::TransportFailed => r == Err::<(), SmtpRelayError>(
            SmtpRelayError::Network(NetworkError::ConnectionLost),
        ),
        HttpOutcome::Response { status, body } => if is_success(status) {
            r is Ok
        } else {
            r matches Err(SmtpRelayError::Acs(e)) && e.is_for_status(status, body@)
        },
    }
}

/// The capability to relay one message. The session layer depends on
/// nothing else of a backend.
pub trait Mailer {
    /// Whether this mailer can be asked to relay a message. A backend that
    /// asks nothing of its state leaves this as it is.
    open spec fn ready(&self) -> bool {
        true
    }

    /// Whether `result` is an answer of this mailer to the request to
    /// relay `raw_email` to `recipients` on behalf of `from`. A backend
    /// that says nothing of its answers leaves this as it is.
    open spec fn answers(
        &self,
        raw_email: Seq<u8>,
        recipients: Seq<Seq<char>>,
        from: Option<Seq<char>>,
        result: Result<(), SmtpRelayError>,
    ) -> bool {
        true
    }

    /// Relays `raw_email` to `recipients` on behalf of `from`.
    fn send(&self, raw_email: &[u8], recipients: &[String], from: &Option<String>) -> (r: Result<
        (),
        SmtpRelayError,
    >)
        requires
            self.ready(),
        ensures
            self.answers(raw_email@, views_of(recipients@), option_view(*from), r),
    ;
}

/// The relay backend for Azure Communication Services.
#[derive(Debug)]
pub struct AcsMailer {
    api_endpoint: String,
    api_key: String,
    sender_address: String,
    allowed_sender_domains: Option<Vec<String>>,
}

/// Finds the domain of an address without brackets.
fn find_domain(address: &str) -> (r: Option<&str>)
    ensures
        match r {
            Some(d) => domain_of(address@) == Some(d@),
            None => domain_of(address@) is None,
        },
{
    let chars = str_chars(address);
    let n = chars.len();
    assert(chars@.subrange(0, n as int) =~= chars@);
    let at = find_between(chars.as_slice(), 0, n, '@');
    if at >= n {
        None
    } else {
        let end = find_between(chars.as_slice(), at + 1, n, '@');
        let d = address.substring_char(at + 1, end);
        assert(d@ =~= address@.subrange(at + 1, n as int).subrange(0, end - (at + 1)));
        Some(d)
    }
}

impl AcsMailer {
    /// The mathematical content of the mailer.
    pub closed spec fn view(&self) -> MailerView {
        MailerView {
            api_endpoint: self.api_endpoint@,
            api_key: self.api_key@,
            sender_address: self.sender_address@,
            allowed_sender_domains: match self.allowed_sender_domains {
                Some(domains) => Some(views_of(domains@)),
                None => None,
            },
        }
    }

    /// Creates a mailer for an endpoint, its base64 access key, the default
    /// sender and an optional allow-list of sender domains.
    pub fn new(
        endpoint: String,
        key: String,
        sender: String,
        allowed_sender_domains: Option<Vec<String>>,
    ) -> (m: Self)
        ensures
            m@ == (MailerView {
                api_endpoint: endpoint@,
                api_key: key@,
                sender_address: sender@,
                allowed_sender_domains: match allowed_sender_domains {
                    Some(domains) => Some(views_of(domains@)),
                    None => None,
                },
            }),
    {
        AcsMailer {
            api_endpoint: endpoint,
            api_key: key,
            sender_address: sender,
            allowed_sender_domains,
        }
    }

    /// The default sender.
    pub fn sender_address(&self) -> (r: &str)
        ensures
            r@ == self@.sender_address,
    {
        self.sender_address.as_str()
    }

    /// The allow-list of sender domains, if one is configured.
    pub fn allowed_sender_domains(&self) -> (r: &Option<Vec<String>>)
        ensures
            match *r {
                Some(domains) => self@.allowed_sender_domains == Some(views_of(domains@)),
                None => self@.allowed_sender_domains is None,
            },
    {
        &self.allowed_sender_domains
    }

    /// Chooses the sender of the outbound request.
    pub fn select_sender(&self, from: &Option<String>) -> (r: String)
        ensures
            r@ == self@.sender_for(option_view(*from)),
    {
        match (&self.allowed_sender_domains, from) {
            (Some(domains), Some(address)) => {
                let bare = trim_str(address.as_str(), CharClass::AngleBracket);
                match find_domain(bare) {
                    Some(domain) => {
                        if contains_str(domains.as_slice(), domain) {
                            String::from_str(bare)
                        } else {
                            self.sender_address.clone()
                        }
                    },
                    None => self.sender_address.clone(),
                }
            },
            _ => self.sender_address.clone(),
        }
    }

    /// Computes the headers that authenticate a request, as of `timestamp`:
    /// the date, the content hash and the Authorization header.
    pub fn sign_request_at(
        &self,
        method: &str,
        url_path: &str,
        body_bytes: &[u8],
        timestamp: &str,
    ) -> (r: Result<(String, String, String), SmtpRelayError>)
        ensures
            match r {
                Ok(headers) => {
                    &&& self@.signing_failure(url_path@) is None
                    &&& headers.0@ == timestamp@
                    &&& headers.1@ == content_hash_of(body_bytes@)
                    &&& headers.2@ == self@.authorization(
                        method@,
                        url_path@,
                        body_bytes@,
                        timestamp@,
                    )
                },
                Err(e) => self@.signing_failure(url_path@) matches Some(f) && f.describes(e),
            },
    {
        let mut full_url = self.api_endpoint.clone();
        full_url.append(url_path);
        let host = match parse_url_host(full_url.as_str()) {
            UrlHost::Invalid => {
                return Err(RelayFailure::InvalidEndpoint.to_error());
            },
            UrlHost::Missing => {
                return Err(RelayFailure::MissingHost.to_error());
            },
            UrlHost::Host(h) => h,
        };
        let digest = sha256_digest(body_bytes);
        let content_hash = base64_encode(digest.as_slice());
        let text = compose_string_to_sign(
            method,
            url_path,
            timestamp,
            host.as_str(),
            content_hash.as_str(),
        );
        let key = match base64_decode(self.api_key.as_str()) {
            Some(key) => key,
            None => {
                return Err(RelayFailure::UndecodableKey.to_error());
            },
        };
        let tag = hmac_sha256_tag(key.as_slice(), text.as_str().as_bytes());
        let signature = base64_encode(tag.as_slice());
        let authorization = authorization_header(signature.as_str());
        Ok((String::from_str(timestamp), content_hash, authorization))
    }

    /// Computes the headers that authenticate a request, as of now. The
    /// date that was used is the first of the three; it is a rendering of
    /// the current time as an RFC 1123 date in GMT.
    pub fn sign_request(&self, method: &str, url_path: &str, body_bytes: &[u8]) -> (r: Result<
        (String, String, String),
        SmtpRelayError,
    >)
        ensures
            match r {
                Ok(headers) => {
                    &&& self@.signing_failure(url_path@) is None
                    &&& is_gmt_date(headers.0@)
                    &&& headers.1@ == content_hash_of(body_bytes@)
                    &&& headers.2@ == self@.authorization(
                        method@,
                        url_path@,
                        body_bytes@,
                        headers.0@,
                    )
                },
                Err(e) => self@.signing_failure(url_path@) matches Some(f) && f.describes(e),
            },
    {
        let timestamp = format_now(RFC1123_GMT);
        self.sign_request_at(method, url_path, body_bytes, timestamp.as_str())
    }

    /// Prepares the request for a message, signed as of `timestamp`.
    ///
    /// The sender is chosen, the message parsed, the payload built and
    /// serialised, and the request signed. A failure of the message is
    /// reported before any of endpoint or key, and no request exists then.
    pub fn prepare_at(
        &self,
        raw_email: &[u8],
        recipients: &[String],
        from: &Option<String>,
        timestamp: &str,
    ) -> (r: Result<OutboundRequest, SmtpRelayError>)
        ensures
            match r {
                Ok(request) => {
                    &&& self@.preparation_failure(
                        raw_email@,
                        views_of(recipients@),
                        option_view(*from),
                    ) is None
                    &&& request@ == self@.request(
                        raw_email@,
                        views_of(recipients@),
                        option_view(*from),
                        timestamp@,
                    )
                },
                Err(e) => self@.preparation_failure(
                    raw_email@,
                    views_of(recipients@),
                    option_view(*from),
                ) matches Some(f) && f.describes(e),
            },
    {
        let sender = self.select_sender(from);
        let parsed = match parse_email(raw_email) {
            Ok(parsed) => parsed,
            Err(e) => {
                return Err(e);
            },
        };
        let payload = match build_acs_request(&parsed, recipients, sender.as_str()) {
            Ok(payload) => payload,
            Err(e) => {
                return Err(e);
            },
        };
        let json = payload.to_json();
        let body = json.as_str().as_bytes_vec();
        let headers = match self.sign_request_at(
            API_METHOD,
            API_PATH,
            body.as_slice(),
            timestamp,
        ) {
            Ok(headers) => headers,
            Err(e) => {
                return Err(e);
            },
        };
        let mut url = self.api_endpoint.clone();
        url.append(API_PATH);
        Ok(
            OutboundRequest {
                url,
                date: headers.0,
                content_hash: headers.1,
                authorization: headers.2,
                body,
            },
        )
    }

    /// Prepares the request for a message, signed as of now. The request
    /// carries the date that was used, a rendering of the current time as
    /// an RFC 1123 date in GMT.
    pub fn prepare(&self, raw_email: &[u8], recipients: &[String], from: &Option<String>) -> (r:
        Result<OutboundRequest, SmtpRelayError>)
        ensures
            match r {
                Ok(request) => {
                    &&& self@.preparation_failure(
                        raw_email@,
                        views_of(recipients@),
                        option_view(*from),
                    ) is None
                    &&& is_gmt_date(request.date@)
                    &&& request@ == self@.request(
                        raw_email@,
                        views_of(recipients@),
                        option_view(*from),
                        request.date@,
                    )
                },
                Err(e) => self@.preparation_failure(
                    raw_email@,
                    views_of(recipients@),
                    option_view(*from),
                ) matches Some(f) && f.describes(e),
            },
    {
        let timestamp = format_now(RFC1123_GMT);
        self.prepare_at(raw_email, recipients, from, timestamp.as_str())
    }

    /// Turns the outcome of posting a request into the result of the relay:
    /// success for a 2xx response, the error for its status for any other
    /// response, and a network error where no response came.
    pub fn complete(outcome: &HttpOutcome) -> (r: Result<(), SmtpRelayError>)
        ensures
            is_result_of(r, *outcome),
    {
        match outcome {
            HttpOutcome::TransportFailed => Err(
                SmtpRelayError::Network(NetworkError::ConnectionLost),
            ),
            HttpOutcome::Response { status, body } => {
                if 200 <= *status && *status <= 299 {
                    Ok(())
                } else {
                    Err(SmtpRelayError::Acs(AcsError::from_status_code(*status, body.as_str())))
                }
            },
        }
    }

    /// Relays a message through `post`, which stands for the transport: it
    /// is handed the prepared request and returns how posting it ended.
    ///
    /// Where no request can be prepared, `post` is not called and the
    /// failure is returned. Else `post` is called once, with the request
    /// for the message as signed at the date it carries, and what it
    /// returns decides the result. Nothing is retried.
    pub fn send_with<F: Fn(&OutboundRequest) -> HttpOutcome>(
        &self,
        raw_email: &[u8],
        recipients: &[String],
        from: &Option<String>,
        post: &F,
    ) -> (r: Result<(), SmtpRelayError>)
        requires
            accepts_every_request(post),
        ensures
            is_sent_through(
                self@,
                post,
                raw_email@,
                views_of(recipients@),
                option_view(*from),
                r,
            ),
    {
        let request = match self.prepare(raw_email, recipients, from) {
            Ok(request) => request,
            Err(e) => {
                return Err(e);
            },
        };
        let outcome = post(&request);
        let r = Self::complete(&outcome);
        proof {
            assert(call_ensures(*post, (&request,), outcome));
        }
        r
    }
}

/// Whether a transport can be handed any request.
pub open spec fn accepts_every_request<F: Fn(&OutboundRequest) -> HttpOutcome>(post: &F) -> bool {
    forall|request: &OutboundRequest| call_requires(*post, (request,))
}

/// Whether `r` is a result of relaying a message with `mailer` through the
/// transport `post`: the failure to prepare a request, if there is one;
/// else the result for what `post` returns for the request for the
/// message, as signed at the date it carries, an RFC 1123 date in GMT.
pub open spec fn is_sent_through<F: Fn(&OutboundRequest) -> HttpOutcome>(
    mailer: MailerView,
    post: &F,
    raw_email: Seq<u8>,
    recipients: Seq<Seq<char>>,
    from: Option<Seq<char>>,
    r: Result<(), SmtpRelayError>,
) -> bool {
    match mailer.preparation_failure(raw_email, recipients, from) {
        Some(f) => r matches Err(e) && f.describes(e),
        None => exists|request: OutboundRequest, outcome: HttpOutcome|
            {
                &&& is_gmt_date(request.date@)
                &&& request@ == mailer.request(raw_email, recipients, from, request.date@)
                &&& call_ensures(*post, (&request,), outcome)
                &&& is_result_of(r, outcome)
            },
    }
}

/// A mailer together with the transport that posts its requests.
pub struct TransportMailer<F: Fn(&OutboundRequest) -> HttpOutcome> {
    pub mailer: AcsMailer,
    pub post: F,
}

impl<F: Fn(&OutboundRequest) -> HttpOutcome> Mailer for TransportMailer<F> {
    /// The transport can be handed any request.
    open spec fn ready(&self) -> bool {
        accepts_every_request(&self.post)
    }

    /// The answers are the results of relaying through the transport.
    open spec fn answers(
        &self,
        raw_email: Seq<u8>,
        recipients: Seq<Seq<char>>,
        from: Option<Seq<char>>,
        result: Result<(), SmtpRelayError>,
    ) -> bool {
        is_sent_through(self.mailer@, &self.post, raw_email, recipients, from, result)
    }

    fn send(&self, raw_email: &[u8], recipients: &[String], from: &Option<String>) -> (r: Result<
        (),
        SmtpRelayError,
    >) {
        self.mailer.send_with(raw_email, recipients, from, &self.post)
    }
}

/// Hands the finished transaction of a session to a mailer and tells the
/// session how that went: the mailer is asked once to relay the data of
/// the transaction to its recipients on behalf of its sender, and the
/// session makes the transition for the answer. A session that is not
/// waiting for a relay is left as it is, and the mailer is not called.
pub fn relay_transaction<M: Mailer>(session: &mut Session, mailer: &M) -> (r: Response)
    requires
        mailer.ready(),
    ensures
        old(session)@.phase == Phase::Relaying ==> exists|answer: Result<(), SmtpRelayError>|
            {
                &&& mailer.answers(
                    old(session)@.transaction.data,
                    old(session)@.transaction.recipients,
                    old(session)@.transaction.from,
                    answer,
                )
                &&& r.realizes(final(session)@, step(old(session)@, Event::Relayed(answer is Ok)))
            },
        old(session)@.phase != Phase::Relaying ==> r.realizes(
            final(session)@,
            old(session)@.stay(),
        ),
        old(session)@.wf() ==> final(session)@.wf(),
{
    match session.phase() {
        Phase::Relaying => {
            let transaction = session.transaction();
            let answer = mailer.send(
                transaction.data.as_slice(),
                transaction.recipients.as_slice(),
                &transaction.from,
            );
            let delivered = answer.is_ok();
            let r = session.on_relay_result(delivered);
            proof {
                assert(mailer.answers(
                    old(session)@.transaction.data,
                    old(session)@.transaction.recipients,
                    old(session)@.transaction.from,
                    answer,
                ));
                assert(r.realizes(session@, step(old(session)@, Event::Relayed(answer is Ok))));
            }
            r
        },
        _ => session.on_relay_result(false),
    }
}

/// A message without recipients, or with neither a plain-text nor an HTML
/// body to relay, yields no request: preparing fails, and the failure is
/// one of the message, reported by an error of the email kind.
pub proof fn lemma_empty_message_is_refused(
    mailer: MailerView,
    raw: Seq<u8>,
    recipients: Seq<Seq<char>>,
    from: Option<Seq<char>>,
)
    requires
        recipients.len() == 0 || !has_content(parsed_message(raw)),
    ensures
        mailer.preparation_failure(raw, recipients, from) == Some(RelayFailure::Unparsable)
            || mailer.preparation_failure(raw, recipients, from) == Some(
            RelayFailure::MissingContent,
        ),
        mail_parsed(raw) ==> mailer.preparation_failure(raw, recipients, from) == Some(
            RelayFailure::MissingContent,
        ),
        forall|e: SmtpRelayError|
            (RelayFailure::Unparsable.describes(e) || RelayFailure::MissingContent.describes(e))
                ==> e is Email,
{
}

/// The Authorization header is a function of the access key, the endpoint
/// and what is signed: two mailers with the same key and endpoint compute
/// the same header for the same method, path, body and date.
pub proof fn lemma_authorization_is_repeatable(
    first: MailerView,
    second: MailerView,
    method: Seq<char>,
    path: Seq<char>,
    body: Seq<u8>,
    timestamp: Seq<char>,
)
    requires
        first.api_key == second.api_key,
        first.api_endpoint == second.api_endpoint,
    ensures
        first.authorization(method, path, body, timestamp) == second.authorization(
            method,
            path,
            body,
            timestamp,
        ),
        first.signing_failure(path) == second.signing_failure(path),
{
}

/// With an allow-list, an address whose domain is on the list is used as
/// the sender, without its brackets; one whose domain is not on the list,
/// or that has no domain, gives way to the default sender.
pub proof fn lemma_sender_with_allow_list(
    default_sender: Seq<char>,
    domains: Seq<Seq<char>>,
    address: Seq<char>,
)
    ensures
        ({
            let bare = trim_both(address, CharClass::AngleBracket);
            selected_sender(default_sender, Some(domains), Some(address)) == if domain_of(bare)
                matches Some(d) && domains.contains(d) {
                bare
            } else {
                default_sender
            }
        }),
{
}

/// Without an allow-list, or without an address from the client, the
/// default sender is used.
pub proof fn lemma_sender_without_allow_list(
    default_sender: Seq<char>,
    domains: Option<Seq<Seq<char>>>,
    from: Option<Seq<char>>,
)
    requires
        domains is None || from is None,
    ensures
        selected_sender(default_sender, domains, from) == default_sender,
{
}


/// The request for a message carries, as JSON, a payload that names the
/// chosen sender and the recipients of the message, in their order.
pub proof fn lemma_request_names_sender_and_recipients(
    mailer: MailerView,
    raw: Seq<u8>,
    recipients: Seq<Seq<char>>,
    from: Option<Seq<char>>,
    timestamp: Seq<char>,
)
    requires
        mailer.preparation_failure(raw, recipients, from) is None,
    ensures
        mailer.payload_for(raw, recipients, from) matches Some(payload) && payload.to == recipients
            && payload.sender_address == mailer.sender_for(from) && mailer.request(
            raw,
            recipients,
            from,
            timestamp,
        ).body == encode_utf8(payload_text(payload)),
        recipients.len() > 0,
        mailer.request(raw, recipients, from, timestamp).url == mailer.api_endpoint + API_PATH@,
{
}

/// A message for which a request can be prepared is relayed if the
/// transport reports success for whatever it is handed.
pub proof fn lemma_successful_transport_relays<F: Fn(&OutboundRequest) -> HttpOutcome>(
    mailer: MailerView,
    post: &F,
    raw: Seq<u8>,
    recipients: Seq<Seq<char>>,
    from: Option<Seq<char>>,
    r: Result<(), SmtpRelayError>,
)
    requires
        mailer.preparation_failure(raw, recipients, from) is None,
        forall|request: &OutboundRequest, outcome: HttpOutcome| #[trigger]
            call_ensures(*post, (request,), outcome) ==> (outcome matches HttpOutcome::Response {
                status,
                ..
            } && is_success(status)),
        is_sent_through(mailer, post, raw, recipients, from, r),
    ensures
        r is Ok,
{
}

/// A message for which no request can be prepared is not relayed,
/// whatever the transport would do.
pub proof fn lemma_unprepared_message_fails<F: Fn(&OutboundRequest) -> HttpOutcome>(
    mailer: MailerView,
    post: &F,
    raw: Seq<u8>,
    recipients: Seq<Seq<char>>,
    from: Option<Seq<char>>,
    r: Result<(), SmtpRelayError>,
)
    requires
        mailer.preparation_failure(raw, recipients, from) is Some,
        is_sent_through(mailer, post, raw, recipients, from, r),
    ensures
        r is Err,
        (recipients.len() == 0 || !has_content(parsed_message(raw))) ==> r matches Err(
            SmtpRelayError::Email(_),
        ),
{
}


/// Signing needs no more than an endpoint that makes a URL with a host and
/// an access key that is valid base64: then there is no failure, and the
/// three headers are returned.
pub proof fn lemma_signing_succeeds(mailer: MailerView, path: Seq<char>)
    requires
        url_parsed(mailer.url(path)),
        url_host(mailer.url(path)) is Some,
        base64_decoded(mailer.api_key) is Some,
    ensures
        mailer.signing_failure(path) is None,
{
}

} // verus!
