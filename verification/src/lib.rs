//! An embeddable SMTP session engine: a per-connection protocol state
//! machine that consumes lines of client input, drives callbacks on a
//! pluggable mail handler, and emits SMTP reply codes.
//!
//! The engine implements the server side of RFC 5321 together with the
//! ESMTP extensions 8BITMIME, STARTTLS and SASL AUTH (PLAIN and LOGIN).
//! It does no I/O of its own: a transport feeds it complete lines and
//! writes the replies it returns.

pub mod fsm;
pub mod laws;
pub mod parser;
pub mod resolve;
pub mod response;
pub mod sasl;
pub mod smtp;

pub use fsm::AuthState;
pub use fsm::LineOutcome;
pub use fsm::SmtpState;
pub use fsm::StateMachine;
pub use fsm::TlsState;
pub use response::Action;
pub use response::Response;
pub use sasl::Credentials;
pub use smtp::AuthMechanism;
pub use smtp::Cmd;
pub use smtp::Handler;
pub use smtp::IpAddress;
