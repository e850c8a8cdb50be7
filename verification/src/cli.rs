//! The command line client: where it connects, how it reads the daemon's
//! answers, and how it renders them.

use vstd::prelude::*;
use vstd::string::StringExecFns;
use crate::daemon::{ControlResponse, ResponseData, DEFAULT_SOCKET_PATH};
use crate::error::NicAutoSwitchError;
use crate::text::{decimal, decimal_string};

verus! {

/// The duration `core::time::Duration::from_secs` gives for `secs` seconds.
pub uninterp spec fn secs_duration(secs: u64) -> core::time::Duration;

/// Calls `core::time::Duration::from_secs`, whose result depends on `secs`
/// alone; it is named `secs_duration(secs)`, since Verus cannot look into a
/// duration.
#[verifier::external_body]
fn duration_from_secs(secs: u64) -> (r: core::time::Duration)
    ensures
        r == secs_duration(secs),
{
    core::time::Duration::from_secs(secs)
}

/// Client for communicating with the daemon.
#[derive(Debug)]
pub struct DaemonClient {
    /// Path to the control socket
    pub socket_path: String,
    timeout: core::time::Duration,
}

impl DaemonClient {
    /// The connection timeout.
    pub closed spec fn spec_timeout(self) -> core::time::Duration {
        self.timeout
    }

    /// The socket path.
    pub closed spec fn spec_socket_path(self) -> Seq<char> {
        self.socket_path@
    }

    /// A client for the socket at `socket_path`, with a 5 second timeout.
    pub fn new(socket_path: &str) -> (r: Self)
        ensures
            r.spec_socket_path() == socket_path@,
            r.spec_timeout() == secs_duration(5),
    {
        DaemonClient { socket_path: String::from_str(socket_path), timeout: duration_from_secs(5) }
    }

    /// A client for the default socket path.
    pub fn default_client() -> (r: Self)
        ensures
            r.spec_socket_path() == DEFAULT_SOCKET_PATH@,
            r.spec_timeout() == secs_duration(5),
    {
        Self::new(DEFAULT_SOCKET_PATH)
    }

    /// The same client with another connection timeout.
    pub fn with_timeout(self, timeout: core::time::Duration) -> (r: Self)
        ensures
            r.spec_socket_path() == self.spec_socket_path(),
            r.spec_timeout() == timeout,
    {
        DaemonClient { socket_path: self.socket_path, timeout }
    }

    /// The connection timeout.
    pub fn timeout(&self) -> (r: core::time::Duration)
        ensures
            r == self.spec_timeout(),
    {
        self.timeout
    }

    /// The error for a failed connection: an absent socket or a refused
    /// connection means the daemon is not running; any other failure is an
    /// I/O error with its text.
    pub fn connect_error(not_found_or_refused: bool, io_text: String) -> (r: NicAutoSwitchError)
        ensures
            not_found_or_refused ==> (r matches NicAutoSwitchError::InvalidInput(m)
                && m@ == "Daemon is not running or socket not found"@),
            !not_found_or_refused ==> r == NicAutoSwitchError::Io(io_text),
    {
        if not_found_or_refused {
            NicAutoSwitchError::InvalidInput(String::from_str("Daemon is not running or socket not found"))
        } else {
            NicAutoSwitchError::Io(io_text)
        }
    }

    /// The data of a response: a failed response becomes an error with its
    /// message (or "Unknown error").
    pub fn interpret_response(response: ControlResponse) -> (r: crate::error::Result<Option<ResponseData>>)
        ensures
            response.success ==> r == Ok::<Option<ResponseData>, NicAutoSwitchError>(response.data),
            !response.success ==> (r matches Err(NicAutoSwitchError::InvalidInput(m)) && m@ == match response.message {
                Some(t) => t@,
                None => "Unknown error"@,
            }),
    {
        if !response.success {
            let m = match response.message {
                Some(t) => t,
                None => String::from_str("Unknown error"),
            };
            return Err(NicAutoSwitchError::InvalidInput(m));
        }
        Ok(response.data)
    }
}

impl Default for DaemonClient {
    fn default() -> (r: Self)
        ensures
            r.spec_socket_path() == DEFAULT_SOCKET_PATH@,
            r.spec_timeout() == secs_duration(5),
    {
        Self::default_client()
    }
}

/// Command executor for CLI operations.
#[derive(Debug)]
pub struct CommandExecutor {
    client: DaemonClient,
}

impl CommandExecutor {
    /// The client in use.
    pub closed spec fn spec_client(self) -> DaemonClient {
        self.client
    }

    /// An executor with a client for the default socket.
    pub fn new() -> (r: Self)
        ensures
            r.spec_client().spec_socket_path() == DEFAULT_SOCKET_PATH@,
            r.spec_client().spec_timeout() == secs_duration(5),
    {
        CommandExecutor { client: DaemonClient::default() }
    }

    /// An executor with a client for the socket at `socket_path`.
    pub fn with_socket_path(socket_path: &str) -> (r: Self)
        ensures
            r.spec_client().spec_socket_path() == socket_path@,
            r.spec_client().spec_timeout() == secs_duration(5),
    {
        CommandExecutor { client: DaemonClient::new(socket_path) }
    }

    /// The client in use.
    pub fn client(&self) -> (r: &DaemonClient)
        ensures
            *r == self.spec_client(),
    {
        &self.client
    }
}

impl Default for CommandExecutor {
    fn default() -> (r: Self)
        ensures
            r.spec_client().spec_socket_path() == DEFAULT_SOCKET_PATH@,
            r.spec_client().spec_timeout() == secs_duration(5),
    {
        Self::new()
    }
}

/// `s` padded with spaces on the right to `width` characters.
pub open spec fn pad_right(s: Seq<char>, width: nat) -> Seq<char> {
    if s.len() < width {
        s + Seq::new((width - s.len()) as nat, |i: int| ' ')
    } else {
        s
    }
}

fn padded(s: &str, width: usize) -> (r: String)
    ensures
        r@ == pad_right(s@, width as nat),
{
    let mut out = String::from_str(s);
    let n = s.unicode_len();
    if n >= width {
        return out;
    }
    let mut k: usize = n;
    assert(out@ =~= s@ + Seq::new(0nat, |i: int| ' '));
    while k < width
        invariant
            n == s@.len(),
            n <= k <= width,
            out@ == s@ + Seq::new((k - n) as nat, |i: int| ' '),
        decreases width - k,
    {
        proof { reveal_strlit(" "); }
        out.append(" ");
        assert(out@ =~= s@ + Seq::new((k + 1 - n) as nat, |i: int| ' '));
        k = k + 1;
    }
    out
}

/// Daemon status, as read by the client.
#[derive(Debug)]
pub struct StatusResponse {
    /// Daemon version
    pub version: String,
    /// Current state
    pub state: String,
    /// Uptime in seconds
    pub uptime_secs: u64,
    /// Number of active routes
    pub active_routes: usize,
}

impl StatusResponse {
    /// Four lines: version, state, uptime in seconds, number of active
    /// routes.
    pub fn to_text(&self) -> (r: String)
        ensures
            r@ == "Version: "@ + self.version@ + "\nState: "@ + self.state@ + "\nUptime: "@ + decimal(self.uptime_secs as nat)
                + "s\nActive routes: "@ + decimal(self.active_routes as nat),
    {
        let mut out = String::from_str("Version: ");
        out.append(self.version.as_str());
        out.append("\nState: ");
        out.append(self.state.as_str());
        out.append("\nUptime: ");
        let u = decimal_string(self.uptime_secs);
        out.append(u.as_str());
        out.append("s\nActive routes: ");
        let a = decimal_string(self.active_routes as u64);
        out.append(a.as_str());
        out
    }
}

/// Route entry, as read by the client.
#[derive(Debug)]
pub struct RouteEntry {
    /// Rule name
    pub rule_name: String,
    /// Interface used
    pub interface: String,
    /// Table ID
    pub table_id: u32,
}

impl RouteEntry {
    /// One line: the rule name in 30 columns, `via`, the interface in 10
    /// columns, and the table.
    pub fn to_text(&self) -> (r: String)
        ensures
            r@ == pad_right(self.rule_name@, 30) + " via "@ + pad_right(self.interface@, 10) + " (table "@
                + decimal(self.table_id as nat) + ")"@,
    {
        let mut out = padded(self.rule_name.as_str(), 30);
        out.append(" via ");
        let i = padded(self.interface.as_str(), 10);
        out.append(i.as_str());
        out.append(" (table ");
        let t = decimal_string(self.table_id as u64);
        out.append(t.as_str());
        out.append(")");
        out
    }
}

} // verus!
