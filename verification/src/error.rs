//! The error type of the application and its messages.

use vstd::prelude::*;
use vstd::std_specs::convert::FromSpecImpl;
use crate::text::{decimal, push_decimal, push_str, push_chars, starts_with};

verus! {

#[verifier::external_type_specification]
#[verifier::external_body]
pub struct ExIoError(std::io::Error);

#[verifier::external_type_specification]
#[verifier::external_body]
pub struct ExJsonError(serde_json::Error);

/// Main error type of the application.
#[derive(Debug)]
pub enum ChampError {
    /// Service not found in the process manager.
    ServiceNotFound(String),
    /// Port is already in use by another process.
    PortInUse(u16),
    /// Process failed to start or crashed.
    ProcessFailed { service: String, reason: String, log_path: Option<String> },
    /// Configuration error (invalid settings, missing files, etc.).
    ConfigError(String),
    /// IO error (file operations, network, etc.).
    IoError(std::io::Error),
    /// Runtime binary not found or invalid.
    RuntimeError(String),
    /// Database initialization or operation failed.
    DatabaseError(String),
    /// Download or extraction failed.
    DownloadError(String),
    /// Invalid port number.
    InvalidPort(u16),
    /// Service is in the wrong state for the requested operation.
    InvalidState { service: String, current_state: String, expected_state: String },
}

/// The message of an error other than an I/O error.
pub open spec fn message(e: ChampError) -> Seq<char> {
    match e {
        ChampError::ServiceNotFound(name) => "Service not found: "@ + name@,
        ChampError::PortInUse(port) => "Port "@ + decimal(port as nat)
            + " is already in use. Please stop the conflicting process or change the port in Settings."@,
        ChampError::ProcessFailed { service, reason, log_path } => service@ + " process failed: "@
            + reason@ + match log_path {
            Some(p) => "\nLog file: "@ + p@,
            None => Seq::empty(),
        },
        ChampError::ConfigError(msg) => "Configuration error: "@ + msg@,
        ChampError::IoError(_) => "IO error: "@,
        ChampError::RuntimeError(msg) => "Runtime error: "@ + msg@,
        ChampError::DatabaseError(msg) => "Database error: "@ + msg@,
        ChampError::DownloadError(msg) => "Download error: "@ + msg@,
        ChampError::InvalidPort(port) => "Invalid port number: "@ + decimal(port as nat)
            + ". Port must be between 1 and 65535."@,
        ChampError::InvalidState { service, current_state, expected_state } => "Service "@ + service@
            + " is in state '"@ + current_state@ + "' but expected '"@ + expected_state@
            + "' for this operation"@,
    }
}

/// The text of an I/O error (`Display` of `std::io::Error`); it may come from
/// the operating system, so nothing is stated of it.
#[verifier::external_body]
fn io_error_text(e: &std::io::Error) -> String {
    format!("{}", e)
}

/// The text of a JSON error (`Display` of `serde_json::Error`); nothing is
/// stated of it.
#[verifier::external_body]
fn json_error_text(e: &serde_json::Error) -> String {
    format!("{}", e)
}

fn port_text(port: u16) -> (v: Vec<char>)
    ensures
        v@ == decimal(port as nat),
{
    let mut d: Vec<char> = Vec::new();
    push_decimal(&mut d, port as u64);
    d
}

impl ChampError {
    /// The message shown to the user.
    pub fn to_string(&self) -> (s: String)
        ensures
            !(*self is IoError) ==> s@ == message(*self),
            *self is IoError ==> starts_with(s@, "IO error: "@),
    {
        let mut s = String::new();
        match self {
            ChampError::ServiceNotFound(name) => {
                push_str(&mut s, "Service not found: ");
                push_str(&mut s, name.as_str());
            },
            ChampError::PortInUse(port) => {
                push_str(&mut s, "Port ");
                push_chars(&mut s, port_text(*port).as_slice());
                push_str(
                    &mut s,
                    " is already in use. Please stop the conflicting process or change the port in Settings.",
                );
            },
            ChampError::ProcessFailed { service, reason, log_path } => {
                push_str(&mut s, service.as_str());
                push_str(&mut s, " process failed: ");
                push_str(&mut s, reason.as_str());
                match log_path {
                    Some(p) => {
                        push_str(&mut s, "\nLog file: ");
                        push_str(&mut s, p.as_str());
                    },
                    None => {},
                }
            },
            ChampError::ConfigError(msg) => {
                push_str(&mut s, "Configuration error: ");
                push_str(&mut s, msg.as_str());
            },
            ChampError::IoError(err) => {
                push_str(&mut s, "IO error: ");
                let ghost head = s@;
                proof {
                    reveal_strlit("IO error: ");
                }
                let t = io_error_text(err);
                push_str(&mut s, t.as_str());
                assert(s@.subrange(0, head.len() as int) =~= head);
            },
            ChampError::RuntimeError(msg) => {
                push_str(&mut s, "Runtime error: ");
                push_str(&mut s, msg.as_str());
            },
            ChampError::DatabaseError(msg) => {
                push_str(&mut s, "Database error: ");
                push_str(&mut s, msg.as_str());
            },
            ChampError::DownloadError(msg) => {
                push_str(&mut s, "Download error: ");
                push_str(&mut s, msg.as_str());
            },
            ChampError::InvalidPort(port) => {
                push_str(&mut s, "Invalid port number: ");
                push_chars(&mut s, port_text(*port).as_slice());
                push_str(&mut s, ". Port must be between 1 and 65535.");
            },
            ChampError::InvalidState { service, current_state, expected_state } => {
                push_str(&mut s, "Service ");
                push_str(&mut s, service.as_str());
                push_str(&mut s, " is in state '");
                push_str(&mut s, current_state.as_str());
                push_str(&mut s, "' but expected '");
                push_str(&mut s, expected_state.as_str());
                push_str(&mut s, "' for this operation");
            },
        }
        assert(!(*self is IoError) ==> s@ =~= message(*self));
        s
    }
}

impl From<std::io::Error> for ChampError {
    fn from(err: std::io::Error) -> (r: ChampError) {
        ChampError::IoError(err)
    }
}

impl FromSpecImpl<std::io::Error> for ChampError {
    open spec fn obeys_from_spec() -> bool {
        true
    }

    open spec fn from_spec(v: std::io::Error) -> ChampError {
        ChampError::IoError(v)
    }
}

impl From<serde_json::Error> for ChampError {
    fn from(err: serde_json::Error) -> (r: ChampError)
        ensures
            r matches ChampError::ConfigError(m) && starts_with(m@, "JSON error: "@),
    {
        let mut m = String::new();
        push_str(&mut m, "JSON error: ");
        let ghost head = m@;
        proof {
            reveal_strlit("JSON error: ");
        }
        let t = json_error_text(&err);
        push_str(&mut m, t.as_str());
        assert(m@.subrange(0, head.len() as int) =~= head);
        ChampError::ConfigError(m)
    }
}

impl FromSpecImpl<serde_json::Error> for ChampError {
    open spec fn obeys_from_spec() -> bool {
        false
    }

    open spec fn from_spec(v: serde_json::Error) -> ChampError {
        vstd::pervasive::arbitrary()
    }
}

impl From<ChampError> for String {
    fn from(err: ChampError) -> (s: String)
        ensures
            !(err is IoError) ==> s@ == message(err),
            err is IoError ==> starts_with(s@, "IO error: "@),
    {
        err.to_string()
    }
}

impl FromSpecImpl<ChampError> for String {
    open spec fn obeys_from_spec() -> bool {
        false
    }

    open spec fn from_spec(v: ChampError) -> String {
        vstd::pervasive::arbitrary()
    }
}

} // verus!
