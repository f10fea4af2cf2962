//! Configuration of the relay: what the connection string holds, and the
//! rules a configuration has to meet before the server starts.

use crate::error::{ConfigError, ConfigErrorView, SmtpRelayError};
use crate::primitives::{
    base64_decode, base64_decoded, parse_url_host, unicode_alphanumeric, url_parsed, UrlHost,
};
use crate::text::{
    find_between, find_char, is_ascii_alphanumeric, lemma_find_char_contains, range_equals,
    skip_end, str_chars, trim_end, views_of, CharClass,
};
use vstd::prelude::*;
use vstd::utf8::encode_utf8;

verus! {

/// The size limit for a message where none is configured: 25 MiB.
pub const DEFAULT_MAX_MESSAGE_SIZE: usize = 25 * 1024 * 1024;

/// The connection timeout where none is configured, in seconds.
pub const DEFAULT_CONNECTION_TIMEOUT_SECS: u64 = 300;

/// The limit on concurrent connections where none is configured.
pub const DEFAULT_MAX_CONCURRENT_CONNECTIONS: usize = 1000;

/// Ports below this one can be bound by a privileged user only.
pub const FIRST_UNPRIVILEGED_PORT: u16 = 1024;

/// Endpoint and access key of the delivery API.
#[derive(Debug, Clone)]
pub struct AcsConfig {
    pub endpoint: String,
    pub access_key: String,
}

/// Configuration for the relay server.
#[derive(Debug, Clone)]
pub struct Config {
    /// The port the server listens on.
    pub smtp_bind_port: u16,
    pub acs_config: AcsConfig,
    pub sender_address: String,
    pub allowed_sender_domains: Option<Vec<String>>,
    pub max_message_size: usize,
    /// The connection timeout, in seconds.
    pub connection_timeout_secs: u64,
    pub max_concurrent_connections: Option<usize>,
}

/// The mathematical content of an [`AcsConfig`].
pub struct AcsConfigView {
    pub endpoint: Seq<char>,
    pub access_key: Seq<char>,
}

/// The mathematical content of a [`Config`].
pub struct ConfigView {
    pub smtp_bind_port: u16,
    pub acs_config: AcsConfigView,
    pub sender_address: Seq<char>,
    pub allowed_sender_domains: Option<Seq<Seq<char>>>,
    pub max_message_size: nat,
    pub connection_timeout_secs: nat,
    pub max_concurrent_connections: Option<usize>,
}

impl AcsConfig {
    /// The mathematical content of the pair.
    pub open spec fn view(&self) -> AcsConfigView {
        AcsConfigView { endpoint: self.endpoint@, access_key: self.access_key@ }
    }
}

impl Config {
    /// The mathematical content of the configuration.
    pub open spec fn view(&self) -> ConfigView {
        ConfigView {
            smtp_bind_port: self.smtp_bind_port,
            acs_config: self.acs_config@,
            sender_address: self.sender_address@,
            allowed_sender_domains: match self.allowed_sender_domains {
                Some(domains) => Some(views_of(domains@)),
                None => None,
            },
            max_message_size: self.max_message_size as nat,
            connection_timeout_secs: self.connection_timeout_secs as nat,
            max_concurrent_connections: self.max_concurrent_connections,
        }
    }
}

/// The value of a `key=value` segment if its key is `key`. The key ends at
/// the first `=`; a segment without one has no value.
pub open spec fn entry_value(segment: Seq<char>, key: Seq<char>) -> Option<Seq<char>> {
    let eq = find_char(segment, '=');
    if eq < segment.len() && segment.subrange(0, eq as int) == key {
        Some(segment.subrange(eq as int + 1, segment.len() as int))
    } else {
        None
    }
}

/// The later of two findings, if there is one; else the earlier.
pub open spec fn or_earlier(later: Option<Seq<char>>, earlier: Option<Seq<char>>) -> Option<
    Seq<char>,
> {
    match later {
        Some(v) => Some(v),
        None => earlier,
    }
}

/// The value that a connection string gives to `key`: that of the last of
/// its segments, separated by `;`, that has this key.
pub open spec fn lookup(text: Seq<char>, key: Seq<char>) -> Option<Seq<char>>
    decreases text.len(),
{
    let end = find_char(text, ';');
    let here = entry_value(text.subrange(0, end as int), key);
    if end >= text.len() {
        here
    } else {
        or_earlier(lookup(text.subrange(end as int + 1, text.len() as int), key), here)
    }
}

/// What a connection string holds: the endpoint, without trailing slashes,
/// and the access key; or the first of the two that is missing.
pub open spec fn parsed_connection_string(text: Seq<char>) -> Result<
    AcsConfigView,
    ConfigErrorView,
> {
    match lookup(text, "endpoint"@) {
        None => Err(ConfigErrorView::MissingEndpoint),
        Some(endpoint) => match lookup(text, "accesskey"@) {
            None => Err(ConfigErrorView::MissingAccessKey),
            Some(access_key) => Ok(
                AcsConfigView { endpoint: trim_end(endpoint, CharClass::Slash), access_key },
            ),
        },
    }
}

/// Whether `email` passes for an address: it holds an `@`, not at either
/// end, and takes more than three bytes.
pub open spec fn valid_email(email: Seq<char>) -> bool {
    &&& email.contains('@')
    &&& encode_utf8(email).len() > 3
    &&& email.first() != '@'
    &&& email.last() != '@'
}

/// Whether `c` may stand in a domain name: a letter or a digit, of ASCII
/// or of any other script, a dot or a hyphen.
pub open spec fn domain_char(c: char) -> bool {
    is_ascii_alphanumeric(c) || unicode_alphanumeric(c) || c == '.' || c == '-'
}

/// Whether `domain` passes for a domain name: not empty, made of letters,
/// digits, dots and hyphens, with neither a dot nor a hyphen at either end.
pub open spec fn valid_domain(domain: Seq<char>) -> bool {
    &&& domain.len() > 0
    &&& forall|i: int| 0 <= i < domain.len() ==> domain_char(#[trigger] domain[i])
    &&& domain.first() != '.'
    &&& domain.last() != '.'
    &&& domain.first() != '-'
    &&& domain.last() != '-'
}

/// The first domain of a list that is not valid.
pub open spec fn first_invalid_domain(domains: Seq<Seq<char>>) -> Option<Seq<char>>
    decreases domains.len(),
{
    if domains.len() == 0 {
        None
    } else if !valid_domain(domains[0]) {
        Some(domains[0])
    } else {
        first_invalid_domain(domains.drop_first())
    }
}

/// The error for a connection string part that is present but unusable.
pub open spec fn unusable(reason: Seq<char>) -> Option<ConfigErrorView> {
    Some(ConfigErrorView::InvalidConnectionString(reason))
}

impl ConfigView {
    /// What is wrong with the port, if anything: port 0 is never valid, and
    /// a port below 1024 only for a privileged user.
    pub open spec fn smtp_failure(self, privileged: bool) -> Option<ConfigErrorView> {
        if self.smtp_bind_port == 0 {
            Some(ConfigErrorView::InvalidPort(0))
        } else if self.smtp_bind_port < FIRST_UNPRIVILEGED_PORT && !privileged {
            Some(ConfigErrorView::InvalidPort(self.smtp_bind_port))
        } else {
            None
        }
    }

    /// What is wrong with endpoint and access key, if anything: the
    /// endpoint must be a URL, the key present and valid base64.
    pub open spec fn acs_failure(self) -> Option<ConfigErrorView> {
        if !url_parsed(self.acs_config.endpoint) {
            unusable("Invalid endpoint URL"@)
        } else if self.acs_config.access_key.len() == 0 {
            Some(ConfigErrorView::MissingAccessKey)
        } else if base64_decoded(self.acs_config.access_key) is None {
            unusable("Invalid access key format"@)
        } else {
            None
        }
    }

    /// What is wrong with the default sender, if anything.
    pub open spec fn sender_failure(self) -> Option<ConfigErrorView> {
        if valid_email(self.sender_address) {
            None
        } else {
            Some(ConfigErrorView::InvalidSenderAddress(self.sender_address))
        }
    }

    /// What is wrong with the allow-list, if anything: its first domain
    /// that is not valid.
    pub open spec fn domains_failure(self) -> Option<ConfigErrorView> {
        match self.allowed_sender_domains {
            Some(domains) => match first_invalid_domain(domains) {
                Some(domain) => Some(ConfigErrorView::InvalidDomain(domain)),
                None => None,
            },
            None => None,
        }
    }

    /// What is wrong with the limits, if anything: neither the size limit
    /// nor the timeout may be zero.
    pub open spec fn limits_failure(self) -> Option<ConfigErrorView> {
        if self.max_message_size == 0 {
            unusable("Message size limit must be greater than 0"@)
        } else if self.connection_timeout_secs == 0 {
            unusable("Connection timeout must be greater than 0"@)
        } else {
            None
        }
    }

    /// The first thing that is wrong with the configuration, if anything,
    /// looking at the port, the API settings, the sender, the allow-list
    /// and the limits in this order.
    pub open spec fn failure(self, privileged: bool) -> Option<ConfigErrorView> {
        if self.smtp_failure(privileged) is Some {
            self.smtp_failure(privileged)
        } else if self.acs_failure() is Some {
            self.acs_failure()
        } else if self.sender_failure() is Some {
            self.sender_failure()
        } else if self.domains_failure() is Some {
            self.domains_failure()
        } else {
            self.limits_failure()
        }
    }
}

/// Whether `r` reports exactly `failure`.
pub open spec fn reports(r: Result<(), SmtpRelayError>, failure: Option<ConfigErrorView>) -> bool {
    match r {
        Ok(_) => failure is None,
        Err(e) => e matches SmtpRelayError::Config(c) && failure == Some(c@),
    }
}

/// Builds the error for a connection string part that is unusable.
fn unusable_error(reason: &str) -> (r: Result<(), SmtpRelayError>)
    ensures
        reports(r, unusable(reason@)),
{
    Err(SmtpRelayError::Config(ConfigError::InvalidConnectionString(String::from_str(reason))))
}

/// Looks up the value that a connection string gives to `key`, as bounds
/// into its characters.
fn lookup_bounds(chars: &[char], key: &[char]) -> (r: Option<(usize, usize)>)
    ensures
        match r {
            Some((from, to)) => from <= to <= chars.len() && lookup(chars@, key@) == Some(
                chars@.subrange(from as int, to as int),
            ),
            None => lookup(chars@, key@) is None,
        },
{
    let n = chars.len();
    let mut found: Option<(usize, usize)> = None;
    let mut start: usize = 0;
    let mut done = false;
    assert(chars@.subrange(0, n as int) =~= chars@);
    while !done
        invariant
            start <= n == chars.len(),
            found matches Some((from, to)) ==> from <= to <= n,
            !done ==> lookup(chars@, key@) == or_earlier(
                lookup(chars@.subrange(start as int, n as int), key@),
                match found {
                    Some((from, to)) => Some(chars@.subrange(from as int, to as int)),
                    None => None,
                },
            ),
            done ==> lookup(chars@, key@) == match found {
                Some((from, to)) => Some(chars@.subrange(from as int, to as int)),
                None => None,
            },
        decreases n - start + (if done { 0int } else { 1int }),
    {
        let ghost rest = chars@.subrange(start as int, n as int);
        let end = find_between(chars, start, n, ';');
        let eq = find_between(chars, start, end, '=');
        proof {
            assert(rest.subrange(0, end - start) =~= chars@.subrange(start as int, end as int));
            let segment = chars@.subrange(start as int, end as int);
            assert(segment.subrange(0, eq - start) =~= chars@.subrange(start as int, eq as int));
            if eq < end {
                assert(segment.subrange(eq - start + 1, segment.len() as int) =~= chars@.subrange(
                    eq as int + 1,
                    end as int,
                ));
            }
            if end < n {
                assert(rest.subrange(end - start + 1, rest.len() as int) =~= chars@.subrange(
                    end as int + 1,
                    n as int,
                ));
            }
        }
        if eq < end && range_equals(chars, start, eq, key) {
            found = Some((eq + 1, end));
        }
        if end >= n {
            done = true;
        } else {
            start = end + 1;
        }
    }
    found
}

/// Parses a connection string of the form `endpoint=...;accesskey=...`.
///
/// Segments are separated by `;`, key and value by the first `=`; a
/// segment without `=` is ignored, and the last segment with a key wins.
/// Trailing slashes of the endpoint are removed.
pub fn parse_connection_string(conn_str: &str) -> (r: Result<AcsConfig, SmtpRelayError>)
    ensures
        match r {
            Ok(config) => parsed_connection_string(conn_str@) == Ok::<
                AcsConfigView,
                ConfigErrorView,
            >(config@),
            Err(e) => e matches SmtpRelayError::Config(c) && parsed_connection_string(conn_str@)
                == Err::<AcsConfigView, ConfigErrorView>(c@),
        },
{
    let chars = str_chars(conn_str);
    let text = chars.as_slice();
    let (from, to) = match lookup_bounds(text, str_chars("endpoint").as_slice()) {
        Some(bounds) => bounds,
        None => {
            return Err(SmtpRelayError::Config(ConfigError::MissingEndpoint));
        },
    };
    let to = skip_end(text, from, to, CharClass::Slash);
    let endpoint = String::from_str(conn_str.substring_char(from, to));
    let (from, to) = match lookup_bounds(text, str_chars("accesskey").as_slice()) {
        Some(bounds) => bounds,
        None => {
            return Err(SmtpRelayError::Config(ConfigError::MissingAccessKey));
        },
    };
    let access_key = String::from_str(conn_str.substring_char(from, to));
    Ok(AcsConfig { endpoint, access_key })
}

/// Tests whether `email` passes for an address.
pub fn is_valid_email(email: &str) -> (r: bool)
    ensures
        r == valid_email(email@),
{
    let chars = str_chars(email);
    let n = chars.len();
    assert(chars@.subrange(0, n as int) =~= chars@);
    let at = find_between(chars.as_slice(), 0, n, '@');
    proof {
        lemma_find_char_contains(email@, '@');
    }
    at < n && email.as_bytes().len() > 3 && chars[0] != '@' && chars[n - 1] != '@'
}

/// Tests whether `domain` passes for a domain name.
pub fn is_valid_domain(domain: &str) -> (r: bool)
    ensures
        r == valid_domain(domain@),
{
    let chars = str_chars(domain);
    let n = chars.len();
    if n == 0 {
        return false;
    }
    let mut i: usize = 0;
    while i < n
        invariant
            i <= n == chars.len(),
            chars@ == domain@,
            forall|j: int| 0 <= j < i ==> domain_char(#[trigger] domain@[j]),
        decreases n - i,
    {
        let c = chars[i];
        let ascii = ('a' <= c && c <= 'z') || ('A' <= c && c <= 'Z') || ('0' <= c && c <= '9');
        if !(ascii || c.is_alphanumeric() || c == '.' || c == '-') {
            assert(!domain_char(domain@[i as int]));
            return false;
        }
        i += 1;
    }
    chars[0] != '.' && chars[n - 1] != '.' && chars[0] != '-' && chars[n - 1] != '-'
}

impl Config {
    /// Creates a configuration with the default limits and validates it.
    ///
    /// `privileged` tells whether the process may bind ports below 1024.
    pub fn new(
        smtp_bind_port: u16,
        connection_string: &str,
        sender_address: String,
        allowed_sender_domains: Option<Vec<String>>,
        privileged: bool,
    ) -> (r: Result<Self, SmtpRelayError>)
        ensures
            match r {
                Ok(config) => {
                    &&& parsed_connection_string(connection_string@) == Ok::<
                        AcsConfigView,
                        ConfigErrorView,
                    >(config@.acs_config)
                    &&& config@.smtp_bind_port == smtp_bind_port
                    &&& config@.sender_address == sender_address@
                    &&& config.allowed_sender_domains == allowed_sender_domains
                    &&& config.max_message_size == DEFAULT_MAX_MESSAGE_SIZE
                    &&& config.connection_timeout_secs == DEFAULT_CONNECTION_TIMEOUT_SECS
                    &&& config.max_concurrent_connections == Some(
                        DEFAULT_MAX_CONCURRENT_CONNECTIONS,
                    )
                    &&& config@.failure(privileged) is None
                },
                Err(e) => e matches SmtpRelayError::Config(c) && (match parsed_connection_string(
                    connection_string@,
                ) {
                    Err(missing) => c@ == missing,
                    Ok(acs_config) => (ConfigView {
                        smtp_bind_port,
                        acs_config,
                        sender_address: sender_address@,
                        allowed_sender_domains: match allowed_sender_domains {
                            Some(domains) => Some(views_of(domains@)),
                            None => None,
                        },
                        max_message_size: DEFAULT_MAX_MESSAGE_SIZE as nat,
                        connection_timeout_secs: DEFAULT_CONNECTION_TIMEOUT_SECS as nat,
                        max_concurrent_connections: Some(DEFAULT_MAX_CONCURRENT_CONNECTIONS),
                    }).failure(privileged) == Some(c@),
                }),
            },
    {
        let acs_config = match parse_connection_string(connection_string) {
            Ok(acs_config) => acs_config,
            Err(e) => {
                return Err(e);
            },
        };
        let config = Config {
            smtp_bind_port,
            acs_config,
            sender_address,
            allowed_sender_domains,
            max_message_size: DEFAULT_MAX_MESSAGE_SIZE,
            connection_timeout_secs: DEFAULT_CONNECTION_TIMEOUT_SECS,
            max_concurrent_connections: Some(DEFAULT_MAX_CONCURRENT_CONNECTIONS),
        };
        match config.validate(privileged) {
            Ok(_) => Ok(config),
            Err(e) => Err(e),
        }
    }

    /// Validates the whole configuration and reports the first thing that
    /// is wrong with it.
    pub fn validate(&self, privileged: bool) -> (r: Result<(), SmtpRelayError>)
        ensures
            reports(r, self@.failure(privileged)),
    {
        match self.validate_smtp_config(privileged) {
            Ok(_) => {},
            Err(e) => {
                return Err(e);
            },
        }
        match self.validate_acs_config() {
            Ok(_) => {},
            Err(e) => {
                return Err(e);
            },
        }
        match self.validate_sender_address() {
            Ok(_) => {},
            Err(e) => {
                return Err(e);
            },
        }
        match self.validate_allowed_domains() {
            Ok(_) => {},
            Err(e) => {
                return Err(e);
            },
        }
        self.validate_limits()
    }

    fn validate_smtp_config(&self, privileged: bool) -> (r: Result<(), SmtpRelayError>)
        ensures
            reports(r, self@.smtp_failure(privileged)),
    {
        if self.smtp_bind_port == 0 {
            return Err(SmtpRelayError::Config(ConfigError::InvalidPort(0)));
        }
        if self.smtp_bind_port < FIRST_UNPRIVILEGED_PORT && !privileged {
            return Err(SmtpRelayError::Config(ConfigError::InvalidPort(self.smtp_bind_port)));
        }
        Ok(())
    }

    fn validate_acs_config(&self) -> (r: Result<(), SmtpRelayError>)
        ensures
            reports(r, self@.acs_failure()),
    {
        match parse_url_host(self.acs_config.endpoint.as_str()) {
            UrlHost::Invalid => {
                return unusable_error("Invalid endpoint URL");
            },
            _ => {},
        }
        if str_chars(self.acs_config.access_key.as_str()).len() == 0 {
            return Err(SmtpRelayError::Config(ConfigError::MissingAccessKey));
        }
        match base64_decode(self.acs_config.access_key.as_str()) {
            Some(_) => Ok(()),
            None => unusable_error("Invalid access key format"),
        }
    }

    fn validate_sender_address(&self) -> (r: Result<(), SmtpRelayError>)
        ensures
            reports(r, self@.sender_failure()),
    {
        if !is_valid_email(self.sender_address.as_str()) {
            return Err(
                SmtpRelayError::Config(
                    ConfigError::InvalidSenderAddress(self.sender_address.clone()),
                ),
            );
        }
        Ok(())
    }

    fn validate_allowed_domains(&self) -> (r: Result<(), SmtpRelayError>)
        ensures
            reports(r, self@.domains_failure()),
    {
        match &self.allowed_sender_domains {
            Some(domains) => {
                let ghost all = views_of(domains@);
                let mut i: usize = 0;
                assert(all.skip(0) =~= all);
                while i < domains.len()
                    invariant
                        i <= domains.len(),
                        all == views_of(domains@),
                        self@.allowed_sender_domains == Some(all),
                        first_invalid_domain(all) == first_invalid_domain(all.skip(i as int)),
                    decreases domains.len() - i,
                {
                    assert(all.skip(i as int).drop_first() =~= all.skip(i as int + 1));
                    assert(all.skip(i as int)[0] == domains@[i as int]@);
                    if !is_valid_domain(domains[i].as_str()) {
                        return Err(
                            SmtpRelayError::Config(ConfigError::InvalidDomain(domains[i].clone())),
                        );
                    }
                    i += 1;
                }
                Ok(())
            },
            None => Ok(()),
        }
    }

    fn validate_limits(&self) -> (r: Result<(), SmtpRelayError>)
        ensures
            reports(r, self@.limits_failure()),
    {
        if self.max_message_size == 0 {
            return unusable_error("Message size limit must be greater than 0");
        }
        if self.connection_timeout_secs == 0 {
            return unusable_error("Connection timeout must be greater than 0");
        }
        Ok(())
    }
}

} // verus!
