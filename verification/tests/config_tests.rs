use acs_smtp_relay::config::{
    is_valid_domain, is_valid_email, parse_connection_string, Config, DEFAULT_MAX_MESSAGE_SIZE,
};
use acs_smtp_relay::error::{ConfigError, SmtpRelayError};

const CONN: &str = "endpoint=https://example.communication.azure.com/;accesskey=dGVzdEtleQ==";

fn config_error(result: Result<Config, SmtpRelayError>) -> ConfigError {
    match result {
        Err(SmtpRelayError::Config(e)) => e,
        other => panic!("expected a configuration error, got {:?}", other.map(|_| ())),
    }
}

fn valid_config() -> Config {
    Config::new(2525, CONN, "test@example.com".to_string(), None, false).unwrap()
}

#[test]
fn test_parse_connection_string() {
    let conn_str = "endpoint=https://example.communication.azure.com/;accesskey=dGVzdA==";
    let config = parse_connection_string(conn_str).unwrap();
    assert_eq!(config.endpoint, "https://example.communication.azure.com");
    assert_eq!(config.access_key, "dGVzdA==");
}

#[test]
fn config_test_parse_connection_string_missing_endpoint() {
    let conn_str = "accesskey=dGVzdA==";
    let result = parse_connection_string(conn_str);
    assert!(matches!(
        result,
        Err(SmtpRelayError::Config(ConfigError::MissingEndpoint))
    ));
}

#[test]
fn test_validate_email() {
    assert!(is_valid_email("test@example.com"));
    assert!(is_valid_email("user+tag@domain.co.uk"));
    assert!(!is_valid_email("@example.com"));
    assert!(!is_valid_email("test@"));
    assert!(!is_valid_email("test"));
}

#[test]
fn test_validate_domain() {
    assert!(is_valid_domain("example.com"));
    assert!(is_valid_domain("sub.example.com"));
    assert!(!is_valid_domain(".example.com"));
    assert!(!is_valid_domain("example.com."));
    assert!(!is_valid_domain("-example.com"));
}

#[test]
fn test_config_validation() {
    let conn_str = "endpoint=https://example.communication.azure.com/;accesskey=dGVzdEtleQ==";

    let config = Config::new(
        2525,
        conn_str,
        "test@example.com".to_string(),
        Some(vec!["example.com".to_string()]),
        false,
    );

    assert!(config.is_ok());
}

#[test]
fn test_parse_connection_string_success() {
    let conn_str = "endpoint=https://example.com;accesskey=12345";
    let config = parse_connection_string(conn_str).unwrap();
    assert_eq!(config.endpoint, "https://example.com");
    assert_eq!(config.access_key, "12345");
}

#[test]
fn lib_test_parse_connection_string_missing_endpoint() {
    let conn_str = "accesskey=12345";
    let result = parse_connection_string(conn_str);
    assert!(result.is_err());
}

#[test]
fn test_parse_connection_string_missing_key() {
    let conn_str = "endpoint=https://example.com;";
    let result = parse_connection_string(conn_str);
    assert!(result.is_err());
}

#[test]
fn test_parse_connection_string_trims_trailing_slash() {
    let conn_str = "endpoint=https://example.com/;accesskey=12345";
    let config = parse_connection_string(conn_str).unwrap();
    assert_eq!(config.endpoint, "https://example.com");
    assert_eq!(config.access_key, "12345");
}

#[test]
fn connection_string_missing_key_is_reported_as_such() {
    assert!(matches!(
        parse_connection_string("endpoint=https://example.com;"),
        Err(SmtpRelayError::Config(ConfigError::MissingAccessKey))
    ));
    assert!(matches!(
        parse_connection_string(""),
        Err(SmtpRelayError::Config(ConfigError::MissingEndpoint))
    ));
}

#[test]
fn connection_string_last_segment_wins() {
    let config = parse_connection_string("endpoint=a;accesskey=k1;endpoint=b///;accesskey=k2")
        .unwrap();
    assert_eq!(config.endpoint, "b");
    assert_eq!(config.access_key, "k2");
}

#[test]
fn connection_string_value_may_hold_equal_signs() {
    let config = parse_connection_string("junk;endpoint=e;accesskey=a=b==;=x").unwrap();
    assert_eq!(config.endpoint, "e");
    assert_eq!(config.access_key, "a=b==");
}

#[test]
fn connection_string_keys_are_exact() {
    assert!(parse_connection_string("Endpoint=e;accesskey=k").is_err());
    assert!(parse_connection_string(" endpoint=e;accesskey=k").is_err());
    let config = parse_connection_string("endpoint=;accesskey=").unwrap();
    assert_eq!(config.endpoint, "");
    assert_eq!(config.access_key, "");
}

#[test]
fn new_config_has_default_limits() {
    let config = valid_config();
    assert_eq!(config.smtp_bind_port, 2525);
    assert_eq!(config.acs_config.endpoint, "https://example.communication.azure.com");
    assert_eq!(config.acs_config.access_key, "dGVzdEtleQ==");
    assert_eq!(config.sender_address, "test@example.com");
    assert_eq!(config.allowed_sender_domains, None);
    assert_eq!(config.max_message_size, 26_214_400);
    assert_eq!(config.max_message_size, DEFAULT_MAX_MESSAGE_SIZE);
    assert_eq!(config.connection_timeout_secs, 300);
    assert_eq!(config.max_concurrent_connections, Some(1000));
}

#[test]
fn port_zero_is_invalid() {
    let e = config_error(Config::new(0, CONN, "test@example.com".to_string(), None, true));
    assert!(matches!(e, ConfigError::InvalidPort(0)));
}

#[test]
fn low_port_needs_privilege() {
    let e = config_error(Config::new(25, CONN, "test@example.com".to_string(), None, false));
    assert!(matches!(e, ConfigError::InvalidPort(25)));
    assert!(Config::new(25, CONN, "test@example.com".to_string(), None, true).is_ok());
    assert!(Config::new(1024, CONN, "test@example.com".to_string(), None, false).is_ok());
    let e = config_error(Config::new(1023, CONN, "test@example.com".to_string(), None, false));
    assert!(matches!(e, ConfigError::InvalidPort(1023)));
}

#[test]
fn endpoint_must_be_a_url() {
    let e = config_error(Config::new(
        2525,
        "endpoint=not a url;accesskey=dGVzdA==",
        "test@example.com".to_string(),
        None,
        false,
    ));
    match e {
        ConfigError::InvalidConnectionString(m) => assert_eq!(m, "Invalid endpoint URL"),
        other => panic!("unexpected error {:?}", other),
    }
}

#[test]
fn access_key_must_be_present_and_base64() {
    let e = config_error(Config::new(
        2525,
        "endpoint=https://example.com;accesskey=",
        "test@example.com".to_string(),
        None,
        false,
    ));
    assert!(matches!(e, ConfigError::MissingAccessKey));
    let e = config_error(Config::new(
        2525,
        "endpoint=https://example.com;accesskey=***",
        "test@example.com".to_string(),
        None,
        false,
    ));
    match e {
        ConfigError::InvalidConnectionString(m) => assert_eq!(m, "Invalid access key format"),
        other => panic!("unexpected error {:?}", other),
    }
}

#[test]
fn sender_must_be_an_address() {
    let e = config_error(Config::new(2525, CONN, "nobody".to_string(), None, false));
    match e {
        ConfigError::InvalidSenderAddress(a) => assert_eq!(a, "nobody"),
        other => panic!("unexpected error {:?}", other),
    }
}

#[test]
fn first_invalid_domain_is_reported() {
    let domains = vec![
        "good.example".to_string(),
        "bad_domain.example".to_string(),
        "-worse.example".to_string(),
    ];
    let e = config_error(Config::new(
        2525,
        CONN,
        "test@example.com".to_string(),
        Some(domains),
        false,
    ));
    match e {
        ConfigError::InvalidDomain(d) => assert_eq!(d, "bad_domain.example"),
        other => panic!("unexpected error {:?}", other),
    }
}

#[test]
fn limits_must_not_be_zero() {
    let mut config = valid_config();
    config.max_message_size = 0;
    match config.validate(false) {
        Err(SmtpRelayError::Config(ConfigError::InvalidConnectionString(m))) => {
            assert_eq!(m, "Message size limit must be greater than 0")
        }
        other => panic!("unexpected result {:?}", other),
    }
    let mut config = valid_config();
    config.connection_timeout_secs = 0;
    match config.validate(false) {
        Err(SmtpRelayError::Config(ConfigError::InvalidConnectionString(m))) => {
            assert_eq!(m, "Connection timeout must be greater than 0")
        }
        other => panic!("unexpected result {:?}", other),
    }
    let mut config = valid_config();
    config.max_message_size = 1;
    config.connection_timeout_secs = 1;
    assert!(config.validate(false).is_ok());
}

#[test]
fn port_is_checked_before_everything_else() {
    let e = config_error(Config::new(0, "endpoint=x;accesskey=", "bad".to_string(), None, false));
    assert!(matches!(e, ConfigError::InvalidPort(0)));
}

#[test]
fn email_needs_more_than_three_bytes() {
    assert!(!is_valid_email("a@b"));
    assert!(is_valid_email("a@bc"));
    assert!(is_valid_email("\u{e9}@b"));
    assert!(!is_valid_email(""));
    assert!(is_valid_email("a@@b"));
}

#[test]
fn domain_characters() {
    assert!(!is_valid_domain(""));
    assert!(!is_valid_domain("example.com-"));
    assert!(!is_valid_domain("exa mple.com"));
    assert!(!is_valid_domain("exa_mple.com"));
    assert!(is_valid_domain("m\u{fc}nchen.de"));
    assert!(is_valid_domain("a"));
    assert!(is_valid_domain("a-b.c9"));
    assert!(!is_valid_domain("."));
}
