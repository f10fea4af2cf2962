//! The closed set of error kinds used across the relay.
//!
//! Every failure is one tagged variant carrying minimal context, so that a
//! caller can choose its reaction without inspecting text. Each type offers
//! `message`, its human-readable rendering.

use crate::text::{decimal, decimal_string};
use vstd::prelude::*;

verus! {

/// Any failure of the relay, grouped by the component that raised it.
#[derive(Debug)]
pub enum SmtpRelayError {
    /// Invalid configuration; fatal at start-up.
    Config(ConfigError),
    /// Violation of the submission protocol by the client.
    Smtp(SmtpError),
    /// Failure reported by the email delivery API.
    Acs(AcsError),
    /// The message itself could not be used.
    Email(EmailError),
    /// Failure of the transport underneath.
    Network(NetworkError),
}

#[derive(Debug)]
pub enum ConfigError {
    InvalidConnectionString(String),
    MissingEndpoint,
    MissingAccessKey,
    InvalidSenderAddress(String),
    InvalidDomain(String),
    InvalidPort(u16),
}

#[derive(Debug)]
pub enum SmtpError {
    InvalidCommand(String),
    InvalidSequence(String),
    /// Actual size, then the maximum allowed.
    MessageTooLarge(usize, usize),
    InvalidAddress(String),
    MissingFrom,
    NoRecipients,
    DataCorrupted,
}

#[derive(Debug)]
pub enum AcsError {
    ApiRequest(String),
    AuthenticationFailed,
    Unauthorized,
    RateLimited,
    ServiceUnavailable,
    InvalidResponse(String),
}

#[derive(Debug)]
pub enum EmailError {
    ParseFailed(String),
    MissingSubject,
    MissingContent,
    InvalidEncoding(String),
    UnsupportedContentType(String),
}

#[derive(Debug)]
pub enum NetworkError {
    ConnectionLost,
    Timeout,
    DnsResolution(String),
    TlsHandshake(String),
}

/// Builds `prefix` followed by `rest`.
fn prefixed(prefix: &str, rest: &str) -> (r: String)
    ensures
        r@ == prefix@ + rest@,
{
    let mut s = String::from_str(prefix);
    s.append(rest);
    s
}

/// The mathematical content of a [`ConfigError`].
pub enum ConfigErrorView {
    InvalidConnectionString(Seq<char>),
    MissingEndpoint,
    MissingAccessKey,
    InvalidSenderAddress(Seq<char>),
    InvalidDomain(Seq<char>),
    InvalidPort(u16),
}

impl ConfigError {
    /// The mathematical content of this error.
    pub open spec fn view(&self) -> ConfigErrorView {
        match self {
            ConfigError::InvalidConnectionString(s) => ConfigErrorView::InvalidConnectionString(
                s@,
            ),
            ConfigError::MissingEndpoint => ConfigErrorView::MissingEndpoint,
            ConfigError::MissingAccessKey => ConfigErrorView::MissingAccessKey,
            ConfigError::InvalidSenderAddress(s) => ConfigErrorView::InvalidSenderAddress(s@),
            ConfigError::InvalidDomain(s) => ConfigErrorView::InvalidDomain(s@),
            ConfigError::InvalidPort(p) => ConfigErrorView::InvalidPort(*p),
        }
    }

    /// The rendering of this error as text.
    pub open spec fn message_text(&self) -> Seq<char> {
        match self {
            ConfigError::MissingEndpoint => "Missing endpoint in connection string"@,
            ConfigError::MissingAccessKey => "Missing access key in connection string"@,
            ConfigError::InvalidConnectionString(s) => "Invalid connection string: "@ + s@,
            ConfigError::InvalidSenderAddress(addr) => "Invalid sender address: "@ + addr@,
            ConfigError::InvalidDomain(domain) => "Invalid domain: "@ + domain@,
            ConfigError::InvalidPort(port) => "Invalid port: "@ + decimal(*port as nat),
        }
    }

    /// Renders this error as text.
    pub fn message(&self) -> (r: String)
        ensures
            r@ == self.message_text(),
    {
        match self {
            ConfigError::MissingEndpoint => String::from_str(
                "Missing endpoint in connection string",
            ),
            ConfigError::MissingAccessKey => String::from_str(
                "Missing access key in connection string",
            ),
            ConfigError::InvalidConnectionString(s) => prefixed(
                "Invalid connection string: ",
                s.as_str(),
            ),
            ConfigError::InvalidSenderAddress(addr) => prefixed(
                "Invalid sender address: ",
                addr.as_str(),
            ),
            ConfigError::InvalidDomain(domain) => prefixed("Invalid domain: ", domain.as_str()),
            ConfigError::InvalidPort(port) => prefixed(
                "Invalid port: ",
                decimal_string(*port as u64).as_str(),
            ),
        }
    }
}

impl SmtpError {
    /// The rendering of this error as text.
    pub open spec fn message_text(&self) -> Seq<char> {
        match self {
            SmtpError::InvalidCommand(cmd) => "Invalid SMTP command: "@ + cmd@,
            SmtpError::InvalidSequence(seq) => "Invalid command sequence: "@ + seq@,
            SmtpError::MessageTooLarge(actual, max) => "Message too large: "@ + decimal(
                *actual as nat,
            ) + " bytes (max: "@ + decimal(*max as nat) + ")"@,
            SmtpError::InvalidAddress(addr) => "Invalid email address: "@ + addr@,
            SmtpError::MissingFrom => "Missing MAIL FROM command"@,
            SmtpError::NoRecipients => "No recipients specified"@,
            SmtpError::DataCorrupted => "DATA section corrupted"@,
        }
    }

    /// Renders this error as text.
    pub fn message(&self) -> (r: String)
        ensures
            r@ == self.message_text(),
    {
        match self {
            SmtpError::InvalidCommand(cmd) => prefixed("Invalid SMTP command: ", cmd.as_str()),
            SmtpError::InvalidSequence(seq) => prefixed(
                "Invalid command sequence: ",
                seq.as_str(),
            ),
            SmtpError::MessageTooLarge(actual, max) => {
                let mut s = prefixed(
                    "Message too large: ",
                    decimal_string(*actual as u64).as_str(),
                );
                s.append(" bytes (max: ");
                s.append(decimal_string(*max as u64).as_str());
                s.append(")");
                s
            },
            SmtpError::InvalidAddress(addr) => prefixed("Invalid email address: ", addr.as_str()),
            SmtpError::MissingFrom => String::from_str("Missing MAIL FROM command"),
            SmtpError::NoRecipients => String::from_str("No recipients specified"),
            SmtpError::DataCorrupted => String::from_str("DATA section corrupted"),
        }
    }
}

impl AcsError {
    /// The text carried by the generic API error for a response with the
    /// given status and body.
    pub open spec fn api_request_text(status: u16, body: Seq<char>) -> Seq<char> {
        "HTTP "@ + decimal(status as nat) + ": "@ + body
    }

    /// The rendering of this error as text.
    pub open spec fn message_text(&self) -> Seq<char> {
        match self {
            AcsError::AuthenticationFailed => "Authentication failed (401)"@,
            AcsError::Unauthorized => "Unauthorized (403)"@,
            AcsError::RateLimited => "Rate limited (429)"@,
            AcsError::ServiceUnavailable => "Service unavailable (5xx)"@,
            AcsError::ApiRequest(msg) => "API request failed: "@ + msg@,
            AcsError::InvalidResponse(resp) => "Invalid response from ACS: "@ + resp@,
        }
    }

    /// Renders this error as text.
    pub fn message(&self) -> (r: String)
        ensures
            r@ == self.message_text(),
    {
        match self {
            AcsError::AuthenticationFailed => String::from_str("Authentication failed (401)"),
            AcsError::Unauthorized => String::from_str("Unauthorized (403)"),
            AcsError::RateLimited => String::from_str("Rate limited (429)"),
            AcsError::ServiceUnavailable => String::from_str("Service unavailable (5xx)"),
            AcsError::ApiRequest(msg) => prefixed("API request failed: ", msg.as_str()),
            AcsError::InvalidResponse(resp) => prefixed(
                "Invalid response from ACS: ",
                resp.as_str(),
            ),
        }
    }

    /// Whether this is the error for a response with the given status and
    /// body: 401, 403 and 429 each have a kind of their own, 502 to 504
    /// share one, and every other status has the generic kind, which keeps
    /// the status and the body.
    pub open spec fn is_for_status(&self, status: u16, body: Seq<char>) -> bool {
        if status == 401 {
            *self == AcsError::AuthenticationFailed
        } else if status == 403 {
            *self == AcsError::Unauthorized
        } else if status == 429 {
            *self == AcsError::RateLimited
        } else if 502 <= status <= 504 {
            *self == AcsError::ServiceUnavailable
        } else {
            *self matches AcsError::ApiRequest(m) && m@ == Self::api_request_text(status, body)
        }
    }

    /// Classifies a non-success response of the delivery API by its status.
    pub fn from_status_code(status: u16, body: &str) -> (r: Self)
        ensures
            r.is_for_status(status, body@),
    {
        if status == 401 {
            AcsError::AuthenticationFailed
        } else if status == 403 {
            AcsError::Unauthorized
        } else if status == 429 {
            AcsError::RateLimited
        } else if 502 <= status && status <= 504 {
            AcsError::ServiceUnavailable
        } else {
            let mut m = prefixed("HTTP ", decimal_string(status as u64).as_str());
            m.append(": ");
            m.append(body);
            AcsError::ApiRequest(m)
        }
    }
}

impl EmailError {
    /// The rendering of this error as text.
    pub open spec fn message_text(&self) -> Seq<char> {
        match self {
            EmailError::ParseFailed(msg) => "Failed to parse email: "@ + msg@,
            EmailError::MissingSubject => "Missing subject in email"@,
            EmailError::MissingContent => "Missing content in email"@,
            EmailError::InvalidEncoding(enc) => "Invalid encoding: "@ + enc@,
            EmailError::UnsupportedContentType(ct) => "Unsupported content type: "@ + ct@,
        }
    }

    /// Renders this error as text.
    pub fn message(&self) -> (r: String)
        ensures
            r@ == self.message_text(),
    {
        match self {
            EmailError::ParseFailed(msg) => prefixed("Failed to parse email: ", msg.as_str()),
            EmailError::MissingSubject => String::from_str("Missing subject in email"),
            EmailError::MissingContent => String::from_str("Missing content in email"),
            EmailError::InvalidEncoding(enc) => prefixed("Invalid encoding: ", enc.as_str()),
            EmailError::UnsupportedContentType(ct) => prefixed(
                "Unsupported content type: ",
                ct.as_str(),
            ),
        }
    }
}

impl NetworkError {
    /// The rendering of this error as text.
    pub open spec fn message_text(&self) -> Seq<char> {
        match self {
            NetworkError::ConnectionLost => "Connection lost"@,
            NetworkError::Timeout => "Network timeout"@,
            NetworkError::DnsResolution(host) => "DNS resolution failed for: "@ + host@,
            NetworkError::TlsHandshake(msg) => "TLS handshake failed: "@ + msg@,
        }
    }

    /// Renders this error as text.
    pub fn message(&self) -> (r: String)
        ensures
            r@ == self.message_text(),
    {
        match self {
            NetworkError::ConnectionLost => String::from_str("Connection lost"),
            NetworkError::Timeout => String::from_str("Network timeout"),
            NetworkError::DnsResolution(host) => prefixed(
                "DNS resolution failed for: ",
                host.as_str(),
            ),
            NetworkError::TlsHandshake(msg) => prefixed("TLS handshake failed: ", msg.as_str()),
        }
    }
}

impl SmtpRelayError {
    /// The rendering of this error as text: the component, then the
    /// rendering of the error it raised.
    pub open spec fn message_text(&self) -> Seq<char> {
        match self {
            SmtpRelayError::Config(e) => "Configuration error: "@ + e.message_text(),
            SmtpRelayError::Smtp(e) => "SMTP protocol error: "@ + e.message_text(),
            SmtpRelayError::Acs(e) => "Azure Communication Services error: "@ + e.message_text(),
            SmtpRelayError::Email(e) => "Email processing error: "@ + e.message_text(),
            SmtpRelayError::Network(e) => "Network error: "@ + e.message_text(),
        }
    }

    /// Renders this error as text.
    pub fn message(&self) -> (r: String)
        ensures
            r@ == self.message_text(),
    {
        match self {
            SmtpRelayError::Config(e) => prefixed("Configuration error: ", e.message().as_str()),
            SmtpRelayError::Smtp(e) => prefixed("SMTP protocol error: ", e.message().as_str()),
            SmtpRelayError::Acs(e) => prefixed(
                "Azure Communication Services error: ",
                e.message().as_str(),
            ),
            SmtpRelayError::Email(e) => prefixed(
                "Email processing error: ",
                e.message().as_str(),
            ),
            SmtpRelayError::Network(e) => prefixed("Network error: ", e.message().as_str()),
        }
    }
}


/// The kind of the error for a response tells the status apart: each of
/// 401, 403 and 429 has a kind that no other status has, 502 to 504 share
/// one that no other status has, and the generic kind, which carries the
/// status and the body as text, stands for every other status.
pub proof fn lemma_status_kinds_are_distinct(e: AcsError, status: u16, body: Seq<char>)
    requires
        e.is_for_status(status, body),
    ensures
        e is AuthenticationFailed <==> status == 401,
        e is Unauthorized <==> status == 403,
        e is RateLimited <==> status == 429,
        e is ServiceUnavailable <==> 502 <= status <= 504,
        e is ApiRequest <==> status != 401 && status != 403 && status != 429 && !(502 <= status
            <= 504),
        e matches AcsError::ApiRequest(m) ==> m@ == AcsError::api_request_text(status, body),
        !(e is InvalidResponse),
{
}

} // verus!
