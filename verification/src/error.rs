//! Error type of the library.

use vstd::prelude::*;
use vstd::string::StringExecFns;

verus! {

/// Errors reported by the library.
#[derive(Debug)]
pub enum NicAutoSwitchError {
    /// Configuration related errors
    Config(String),
    /// Network operation errors
    Network(String),
    /// DNS resolution errors
    Dns(String),
    /// Route operation errors
    Route(String),
    /// I/O errors (carries the rendered I/O error)
    Io(String),
    /// D-Bus communication errors
    Dbus(String),
    /// Invalid input
    InvalidInput(String),
    /// Operation timeout
    Timeout,
    /// TOML parsing errors
    Toml(String),
    /// JSON serialization/deserialization errors (carries the rendered error)
    Json(String),
}

impl Clone for NicAutoSwitchError {
    fn clone(&self) -> (r: Self)
        ensures
            r == *self,
    {
        match self {
            NicAutoSwitchError::Config(m) => NicAutoSwitchError::Config(m.clone()),
            NicAutoSwitchError::Network(m) => NicAutoSwitchError::Network(m.clone()),
            NicAutoSwitchError::Dns(m) => NicAutoSwitchError::Dns(m.clone()),
            NicAutoSwitchError::Route(m) => NicAutoSwitchError::Route(m.clone()),
            NicAutoSwitchError::Io(m) => NicAutoSwitchError::Io(m.clone()),
            NicAutoSwitchError::Dbus(m) => NicAutoSwitchError::Dbus(m.clone()),
            NicAutoSwitchError::InvalidInput(m) => NicAutoSwitchError::InvalidInput(m.clone()),
            NicAutoSwitchError::Timeout => NicAutoSwitchError::Timeout,
            NicAutoSwitchError::Toml(m) => NicAutoSwitchError::Toml(m.clone()),
            NicAutoSwitchError::Json(m) => NicAutoSwitchError::Json(m.clone()),
        }
    }
}

/// Result type of the library.
pub type Result<T> = core::result::Result<T, NicAutoSwitchError>;

/// The human readable text of an error: a fixed prefix that names the kind of
/// error, followed by its detail.
pub open spec fn error_text(e: NicAutoSwitchError) -> Seq<char> {
    match e {
        NicAutoSwitchError::Config(m) => "Configuration error: "@ + m@,
        NicAutoSwitchError::Network(m) => "Network operation failed: "@ + m@,
        NicAutoSwitchError::Dns(m) => "DNS resolution failed: "@ + m@,
        NicAutoSwitchError::Route(m) => "Route operation failed: "@ + m@,
        NicAutoSwitchError::Io(m) => "I/O error: "@ + m@,
        NicAutoSwitchError::Dbus(m) => "D-Bus error: "@ + m@,
        NicAutoSwitchError::InvalidInput(m) => "Invalid input: "@ + m@,
        NicAutoSwitchError::Timeout => "Operation timed out"@,
        NicAutoSwitchError::Toml(m) => "TOML parsing error: "@ + m@,
        NicAutoSwitchError::Json(m) => "JSON error: "@ + m@,
    }
}

fn prefixed(prefix: &str, detail: &String) -> (r: String)
    ensures
        r@ == prefix@ + detail@,
{
    let mut s = String::from_str(prefix);
    s.append(detail.as_str());
    s
}

impl NicAutoSwitchError {
    /// Renders the error as text (prefix naming the kind, then the detail).
    pub fn to_text(&self) -> (r: String)
        ensures
            r@ == error_text(*self),
    {
        match self {
            NicAutoSwitchError::Config(m) => prefixed("Configuration error: ", m),
            NicAutoSwitchError::Network(m) => prefixed("Network operation failed: ", m),
            NicAutoSwitchError::Dns(m) => prefixed("DNS resolution failed: ", m),
            NicAutoSwitchError::Route(m) => prefixed("Route operation failed: ", m),
            NicAutoSwitchError::Io(m) => prefixed("I/O error: ", m),
            NicAutoSwitchError::Dbus(m) => prefixed("D-Bus error: ", m),
            NicAutoSwitchError::InvalidInput(m) => prefixed("Invalid input: ", m),
            NicAutoSwitchError::Timeout => String::from_str("Operation timed out"),
            NicAutoSwitchError::Toml(m) => prefixed("TOML parsing error: ", m),
            NicAutoSwitchError::Json(m) => prefixed("JSON error: ", m),
        }
    }
}

} // verus!

verus! {

/// `r` is the configuration error with detail `msg`, or success when `msg`
/// is `None`.
pub open spec fn config_outcome<T>(r: core::result::Result<T, NicAutoSwitchError>, msg: Option<Seq<char>>) -> bool {
    match msg {
        None => r is Ok,
        Some(text) => r matches Err(NicAutoSwitchError::Config(m)) && m@ == text,
    }
}

/// The first error met when checking the elements of `s` in order with `f`.
pub open spec fn first_error<T>(s: Seq<T>, f: spec_fn(T) -> Option<Seq<char>>) -> Option<Seq<char>>
    decreases s.len(),
{
    if s.len() == 0 {
        None
    } else {
        match first_error(s.drop_last(), f) {
            Some(m) => Some(m),
            None => f(s.last()),
        }
    }
}

/// Taking one more element extends the check by that element.
pub proof fn lemma_first_error_step<T>(s: Seq<T>, f: spec_fn(T) -> Option<Seq<char>>, i: int)
    requires
        0 <= i < s.len(),
    ensures
        first_error(s.take(i + 1), f) == match first_error(s.take(i), f) {
            Some(m) => Some(m),
            None => f(s[i]),
        },
{
    assert(s.take(i + 1).drop_last() =~= s.take(i));
}

} // verus!
