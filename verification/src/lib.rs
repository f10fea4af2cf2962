pub mod config;
pub mod conversation;
pub mod error;
pub mod metrics;
pub mod primitives;
pub mod relay;
pub mod session;
pub mod text;

pub use config::{parse_connection_string, AcsConfig, Config};
pub use error::SmtpRelayError;
pub use metrics::Metrics;
pub use relay::{AcsMailer, Mailer};
pub use session::Session;
