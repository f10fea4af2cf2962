use acs_smtp_relay::error::{
    AcsError, ConfigError, EmailError, NetworkError, SmtpError, SmtpRelayError,
};

#[test]
fn status_codes_map_to_their_kinds() {
    assert!(matches!(AcsError::from_status_code(401, "x"), AcsError::AuthenticationFailed));
    assert!(matches!(AcsError::from_status_code(403, "x"), AcsError::Unauthorized));
    assert!(matches!(AcsError::from_status_code(429, "x"), AcsError::RateLimited));
    assert!(matches!(AcsError::from_status_code(502, "x"), AcsError::ServiceUnavailable));
    assert!(matches!(AcsError::from_status_code(503, "x"), AcsError::ServiceUnavailable));
    assert!(matches!(AcsError::from_status_code(504, "x"), AcsError::ServiceUnavailable));
}

#[test]
fn other_status_codes_keep_status_and_body() {
    match AcsError::from_status_code(500, "boom") {
        AcsError::ApiRequest(m) => assert_eq!(m, "HTTP 500: boom"),
        other => panic!("unexpected error {:?}", other),
    }
    match AcsError::from_status_code(404, "") {
        AcsError::ApiRequest(m) => assert_eq!(m, "HTTP 404: "),
        other => panic!("unexpected error {:?}", other),
    }
    match AcsError::from_status_code(501, "not implemented") {
        AcsError::ApiRequest(m) => assert_eq!(m, "HTTP 501: not implemented"),
        other => panic!("unexpected error {:?}", other),
    }
    match AcsError::from_status_code(505, "v") {
        AcsError::ApiRequest(m) => assert_eq!(m, "HTTP 505: v"),
        other => panic!("unexpected error {:?}", other),
    }
    match AcsError::from_status_code(0, "z") {
        AcsError::ApiRequest(m) => assert_eq!(m, "HTTP 0: z"),
        other => panic!("unexpected error {:?}", other),
    }
    match AcsError::from_status_code(65535, "z") {
        AcsError::ApiRequest(m) => assert_eq!(m, "HTTP 65535: z"),
        other => panic!("unexpected error {:?}", other),
    }
}

#[test]
fn config_error_messages() {
    assert_eq!(ConfigError::MissingEndpoint.message(), "Missing endpoint in connection string");
    assert_eq!(
        ConfigError::MissingAccessKey.message(),
        "Missing access key in connection string"
    );
    assert_eq!(
        ConfigError::InvalidConnectionString("x".to_string()).message(),
        "Invalid connection string: x"
    );
    assert_eq!(
        ConfigError::InvalidSenderAddress("a".to_string()).message(),
        "Invalid sender address: a"
    );
    assert_eq!(ConfigError::InvalidDomain("d".to_string()).message(), "Invalid domain: d");
    assert_eq!(ConfigError::InvalidPort(80).message(), "Invalid port: 80");
    assert_eq!(ConfigError::InvalidPort(0).message(), "Invalid port: 0");
}

#[test]
fn smtp_error_messages() {
    assert_eq!(
        SmtpError::InvalidCommand("FOO".to_string()).message(),
        "Invalid SMTP command: FOO"
    );
    assert_eq!(
        SmtpError::InvalidSequence("DATA".to_string()).message(),
        "Invalid command sequence: DATA"
    );
    assert_eq!(
        SmtpError::MessageTooLarge(203, 100).message(),
        "Message too large: 203 bytes (max: 100)"
    );
    assert_eq!(
        SmtpError::InvalidAddress("x".to_string()).message(),
        "Invalid email address: x"
    );
    assert_eq!(SmtpError::MissingFrom.message(), "Missing MAIL FROM command");
    assert_eq!(SmtpError::NoRecipients.message(), "No recipients specified");
    assert_eq!(SmtpError::DataCorrupted.message(), "DATA section corrupted");
}

#[test]
fn acs_error_messages() {
    assert_eq!(AcsError::AuthenticationFailed.message(), "Authentication failed (401)");
    assert_eq!(AcsError::Unauthorized.message(), "Unauthorized (403)");
    assert_eq!(AcsError::RateLimited.message(), "Rate limited (429)");
    assert_eq!(AcsError::ServiceUnavailable.message(), "Service unavailable (5xx)");
    assert_eq!(
        AcsError::ApiRequest("HTTP 500: x".to_string()).message(),
        "API request failed: HTTP 500: x"
    );
    assert_eq!(
        AcsError::InvalidResponse("r".to_string()).message(),
        "Invalid response from ACS: r"
    );
}

#[test]
fn email_error_messages() {
    assert_eq!(
        EmailError::ParseFailed("m".to_string()).message(),
        "Failed to parse email: m"
    );
    assert_eq!(EmailError::MissingSubject.message(), "Missing subject in email");
    assert_eq!(EmailError::MissingContent.message(), "Missing content in email");
    assert_eq!(EmailError::InvalidEncoding("e".to_string()).message(), "Invalid encoding: e");
    assert_eq!(
        EmailError::UnsupportedContentType("c".to_string()).message(),
        "Unsupported content type: c"
    );
}

#[test]
fn network_error_messages() {
    assert_eq!(NetworkError::ConnectionLost.message(), "Connection lost");
    assert_eq!(NetworkError::Timeout.message(), "Network timeout");
    assert_eq!(
        NetworkError::DnsResolution("h".to_string()).message(),
        "DNS resolution failed for: h"
    );
    assert_eq!(
        NetworkError::TlsHandshake("t".to_string()).message(),
        "TLS handshake failed: t"
    );
}

#[test]
fn relay_error_messages_name_the_component() {
    assert_eq!(
        SmtpRelayError::Config(ConfigError::InvalidPort(7)).message(),
        "Configuration error: Invalid port: 7"
    );
    assert_eq!(
        SmtpRelayError::Smtp(SmtpError::NoRecipients).message(),
        "SMTP protocol error: No recipients specified"
    );
    assert_eq!(
        SmtpRelayError::Acs(AcsError::RateLimited).message(),
        "Azure Communication Services error: Rate limited (429)"
    );
    assert_eq!(
        SmtpRelayError::Email(EmailError::MissingContent).message(),
        "Email processing error: Missing content in email"
    );
    assert_eq!(
        SmtpRelayError::Network(NetworkError::Timeout).message(),
        "Network error: Network timeout"
    );
}
