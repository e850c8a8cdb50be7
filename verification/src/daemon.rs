//! The daemon: service state machine, systemd notifications, signals and
//! the control protocol.
//!
//! Waiting for signals, ticking timers, talking to sockets and reading the
//! configuration file are done by the program around the library; it hands
//! what it received to the functions here and carries out what they return.

use vstd::prelude::*;
use vstd::string::StringExecFns;
use crate::config::Config;
use crate::engine::dispatcher::{EventDispatcher, DispatcherState, event_handled, action_completed};
use crate::engine::executor::ActiveRoute;
use crate::error::{NicAutoSwitchError, error_text};
use crate::monitor::NetworkEvent;
use crate::router::{RouteManager, IPV4_TABLE_START, IPV4_TABLE_END};

verus! {

/// Version of the daemon.
pub const VERSION: &'static str = "0.1.0";

/// Control socket path.
pub const DEFAULT_SOCKET_PATH: &'static str = "/run/nic-autoswitch/control.sock";

/// Default configuration file path.
pub const DEFAULT_CONFIG_PATH: &'static str = "/etc/nic-autoswitch/config.toml";

// ---------------------------------------------------------------------------
// systemd
// ---------------------------------------------------------------------------

/// systemd notification type.
#[derive(Debug, Clone, Copy, PartialEq, Eq)]
pub enum NotifyState {
    /// Service startup is complete
    Ready,
    /// Service is reloading configuration
    Reloading,
    /// Service is stopping
    Stopping,
    /// Service status message
    Status(&'static str),
    /// Custom status
    Custom(&'static str),
}

/// The text sent to systemd for a notification.
pub open spec fn notify_text(s: NotifyState) -> Seq<char> {
    match s {
        NotifyState::Ready => "READY=1"@,
        NotifyState::Reloading => "RELOADING=1"@,
        NotifyState::Stopping => "STOPPING=1"@,
        NotifyState::Status(m) => m@,
        NotifyState::Custom(m) => m@,
    }
}

impl NotifyState {
    /// The text sent to systemd.
    pub fn as_str(&self) -> (r: &'static str)
        ensures
            r@ == notify_text(*self),
    {
        match self {
            NotifyState::Ready => "READY=1",
            NotifyState::Reloading => "RELOADING=1",
            NotifyState::Stopping => "STOPPING=1",
            NotifyState::Status(msg) => msg,
            NotifyState::Custom(msg) => msg,
        }
    }
}

/// Value of a decimal digit character.
pub open spec fn digit_value(c: char) -> nat {
    (c as nat - '0' as nat) as nat
}

/// Value of a sequence of decimal digits.
pub open spec fn digits_value(s: Seq<char>) -> nat
    decreases s.len(),
{
    if s.len() == 0 {
        0
    } else {
        digits_value(s.drop_last()) * 10 + digit_value(s.last())
    }
}

/// Every character is an ASCII decimal digit.
pub open spec fn all_digits(s: Seq<char>) -> bool {
    forall|i: int| 0 <= i < s.len() ==> '0' <= #[trigger] s[i] <= '9'
}

/// `u64` parsing as std documents it: an optional `+`, then one or more
/// decimal digits, the value fitting in 64 bits.
pub open spec fn parsed_u64(s: Seq<char>) -> Option<u64> {
    let d = if s.len() > 0 && s[0] == '+' { s.drop_first() } else { s };
    if d.len() > 0 && all_digits(d) && digits_value(d) <= u64::MAX {
        Some(digits_value(d) as u64)
    } else {
        None
    }
}

/// A prefix of a digit sequence has no larger value.
proof fn lemma_digits_prefix(t: Seq<char>, k: int)
    requires
        all_digits(t),
        0 <= k <= t.len(),
    ensures
        digits_value(t.take(k)) <= digits_value(t),
    decreases t.len(),
{
    if k < t.len() {
        let u = t.drop_last();
        assert(u.take(k) =~= t.take(k));
        assert(all_digits(u)) by {
            assert forall|i: int| 0 <= i < u.len() implies '0' <= #[trigger] u[i] <= '9' by {
                assert(u[i] == t[i]);
            }
        }
        lemma_digits_prefix(u, k);
        assert('0' <= t[t.len() - 1] <= '9');
    } else {
        assert(t.take(k) =~= t);
    }
}

/// Parses decimal text as `str::parse::<u64>` does (see `parsed_u64`).
fn parse_u64(s: &str) -> (r: Option<u64>)
    ensures
        r == parsed_u64(s@),
{
    let n = s.unicode_len();
    let start: usize = if n > 0 && s.get_char(0) == '+' { 1 } else { 0 };
    let ghost d = s@.subrange(start as int, n as int);
    assert(d =~= (if s@.len() > 0 && s@[0] == '+' { s@.drop_first() } else { s@ }));
    if start >= n {
        return None;
    }
    let mut value: u64 = 0;
    let mut i: usize = start;
    assert(s@.subrange(start as int, start as int) =~= Seq::<char>::empty());
    while i < n
        invariant
            n == s@.len(),
            start <= i <= n,
            d == s@.subrange(start as int, n as int),
            d == (if s@.len() > 0 && s@[0] == '+' { s@.drop_first() } else { s@ }),
            all_digits(s@.subrange(start as int, i as int)),
            value as nat == digits_value(s@.subrange(start as int, i as int)),
        decreases n - i,
    {
        let c = s.get_char(i);
        let ghost next = s@.subrange(start as int, i + 1);
        assert(next.drop_last() =~= s@.subrange(start as int, i as int));
        assert(next.last() == c);
        assert(d[i - start] == c);
        if c < '0' || c > '9' {
            assert(!all_digits(d));
            return None;
        }
        assert(all_digits(next)) by {
            assert forall|j: int| 0 <= j < next.len() implies '0' <= #[trigger] next[j] <= '9' by {
                if j < next.len() - 1 {
                    assert(next[j] == s@.subrange(start as int, i as int)[j]);
                }
            }
        }
        let dv: u64 = ((c as u32) - ('0' as u32)) as u64;
        assert(dv as nat == digit_value(c));
        assert(digits_value(next) == value as nat * 10 + dv as nat);
        if value > (u64::MAX - dv) / 10 {
            assert(value as nat * 10 + dv as nat > u64::MAX) by (nonlinear_arith)
                requires
                    value > (u64::MAX - dv) / 10,
                    dv <= 9,
            ;
            proof {
                if all_digits(d) {
                    assert(d.take(i + 1 - start) =~= next);
                    lemma_digits_prefix(d, i + 1 - start);
                }
            }
            return None;
        }
        assert(value as nat * 10 + dv as nat <= u64::MAX) by (nonlinear_arith)
            requires
                value <= (u64::MAX - dv) / 10,
                dv <= 9,
        ;
        value = value * 10 + dv;
        i = i + 1;
    }
    assert(s@.subrange(start as int, n as int) == d);
    Some(value)
}

/// The duration `core::time::Duration::from_millis` gives for `ms`
/// milliseconds.
pub uninterp spec fn millis_duration(ms: u64) -> core::time::Duration;

/// Calls `core::time::Duration::from_millis`, whose result depends on `ms`
/// alone; it is named `millis_duration(ms)`, since Verus cannot look into a
/// duration.
#[verifier::external_body]
fn duration_from_millis(ms: u64) -> (r: core::time::Duration)
    ensures
        r == millis_duration(ms),
{
    core::time::Duration::from_millis(ms)
}

/// Watchdog interval (milliseconds) for a `WATCHDOG_USEC` value: 75% of it,
/// 0 when absent or not a number.
pub open spec fn watchdog_ms(value: Option<Seq<char>>) -> u64 {
    match value {
        Some(v) => match parsed_u64(v) {
            Some(usec) => (usec / 1000 * 3 / 4) as u64,
            None => 0,
        },
        None => 0,
    }
}

/// systemd notify interface: whether a notification socket is set, and the
/// watchdog interval.
#[derive(Debug)]
pub struct SystemdNotify {
    enabled: bool,
    watchdog_interval_ms: u64,
}

impl SystemdNotify {
    /// Whether notifications are sent.
    pub closed spec fn spec_enabled(self) -> bool {
        self.enabled
    }

    /// The watchdog interval in milliseconds (0 when disabled).
    pub closed spec fn spec_interval_ms(self) -> u64 {
        self.watchdog_interval_ms
    }

    /// The interface for the environment: `notify_socket_set` tells whether
    /// `NOTIFY_SOCKET` is set, `watchdog_usec` is `WATCHDOG_USEC`.
    pub fn new(notify_socket_set: bool, watchdog_usec: Option<&str>) -> (r: Self)
        ensures
            r.spec_enabled() == notify_socket_set,
            r.spec_interval_ms() == watchdog_ms(match watchdog_usec { Some(v) => Some(v@), None => None }),
    {
        SystemdNotify { enabled: notify_socket_set, watchdog_interval_ms: Self::get_watchdog_interval(watchdog_usec) }
    }

    /// Watchdog interval in milliseconds for a `WATCHDOG_USEC` value.
    pub fn get_watchdog_interval(value: Option<&str>) -> (r: u64)
        ensures
            r == watchdog_ms(match value { Some(v) => Some(v@), None => None }),
    {
        match value {
            Some(v) => match parse_u64(v) {
                Some(usec) => usec / 1000 * 3 / 4,
                None => 0,
            },
            None => 0,
        }
    }

    /// Whether systemd notify is available.
    pub fn is_enabled(&self) -> (r: bool)
        ensures
            r == self.spec_enabled(),
    {
        self.enabled
    }

    /// Whether the watchdog is enabled.
    pub fn is_watchdog_enabled(&self) -> (r: bool)
        ensures
            r == (self.spec_interval_ms() > 0),
    {
        self.watchdog_interval_ms > 0
    }

    /// Watchdog interval in milliseconds.
    pub fn watchdog_interval_ms(&self) -> (r: u64)
        ensures
            r == self.spec_interval_ms(),
    {
        self.watchdog_interval_ms
    }

    /// Watchdog interval.
    pub fn watchdog_interval(&self) -> (r: core::time::Duration)
        ensures
            r == millis_duration(self.spec_interval_ms()),
    {
        duration_from_millis(self.watchdog_interval_ms)
    }

    /// The text to send for a notification: none when notifications are
    /// off.
    pub fn notification(&self, state: NotifyState) -> (r: Option<&'static str>)
        ensures
            !self.spec_enabled() ==> r is None,
            self.spec_enabled() ==> (r matches Some(m) && m@ == notify_text(state)),
    {
        if !self.enabled {
            return None;
        }
        Some(state.as_str())
    }

    /// The readiness notification to send, if notifications are on.
    pub fn notify_ready(&self) -> (r: Option<&'static str>)
        ensures
            !self.spec_enabled() ==> r is None,
            self.spec_enabled() ==> (r matches Some(m) && m@ == "READY=1"@),
    {
        self.notification(NotifyState::Ready)
    }

    /// The reloading notification to send, if notifications are on.
    pub fn notify_reloading(&self) -> (r: Option<&'static str>)
        ensures
            !self.spec_enabled() ==> r is None,
            self.spec_enabled() ==> (r matches Some(m) && m@ == "RELOADING=1"@),
    {
        self.notification(NotifyState::Reloading)
    }

    /// The stopping notification to send, if notifications are on.
    pub fn notify_stopping(&self) -> (r: Option<&'static str>)
        ensures
            !self.spec_enabled() ==> r is None,
            self.spec_enabled() ==> (r matches Some(m) && m@ == "STOPPING=1"@),
    {
        self.notification(NotifyState::Stopping)
    }

    /// A status line to send, if notifications are on.
    pub fn notify_status(&self, status: &'static str) -> (r: Option<&'static str>)
        ensures
            !self.spec_enabled() ==> r is None,
            self.spec_enabled() ==> (r matches Some(m) && m@ == status@),
    {
        self.notification(NotifyState::Status(status))
    }

    /// The keepalive to send: `WATCHDOG=1` when notifications and the
    /// watchdog are on.
    pub fn watchdog_keepalive(&self) -> (r: Option<&'static str>)
        ensures
            !(self.spec_enabled() && self.spec_interval_ms() > 0) ==> r is None,
            (self.spec_enabled() && self.spec_interval_ms() > 0) ==> (r matches Some(m) && m@ == "WATCHDOG=1"@),
    {
        if self.is_watchdog_enabled() {
            self.notification(NotifyState::Custom("WATCHDOG=1"))
        } else {
            None
        }
    }
}

// ---------------------------------------------------------------------------
// Signals
// ---------------------------------------------------------------------------

/// Signal types the daemon handles.
#[derive(Debug, Clone, Copy, PartialEq, Eq, Structural)]
pub enum Signal {
    /// Graceful shutdown request (SIGTERM, SIGINT)
    Shutdown,
    /// Configuration reload request (SIGHUP)
    Reload,
}

/// What a wait on the signal channel gave.
#[derive(Debug, Clone, Copy, PartialEq, Eq, Structural)]
pub enum SignalReceipt {
    /// A signal arrived
    Received(Signal),
    /// The channel is closed
    Closed,
    /// Signals were missed
    Lagged,
}

/// What a non-blocking look at the signal channel gave.
#[derive(Debug, Clone, Copy, PartialEq, Eq, Structural)]
pub enum SignalPoll {
    /// A signal is there
    Received(Signal),
    /// Nothing yet
    Empty,
    /// The channel is closed
    Closed,
    /// Signals were missed
    Lagged,
}

fn channel_closed() -> (r: NicAutoSwitchError)
    ensures
        r matches NicAutoSwitchError::InvalidInput(m) && m@ == "Signal channel closed"@,
{
    NicAutoSwitchError::InvalidInput(String::from_str("Signal channel closed"))
}

/// Waiting for `wanted`: the wait ends with the signal when it arrives, with
/// an error when the channel closes, and goes on otherwise (`None`).
pub fn wait_step(wanted: Signal, receipt: SignalReceipt) -> (r: Option<crate::error::Result<Signal>>)
    ensures
        receipt == SignalReceipt::Received(wanted) ==> r == Some(Ok::<Signal, NicAutoSwitchError>(wanted)),
        receipt == SignalReceipt::Closed ==> (r matches Some(Err(NicAutoSwitchError::InvalidInput(m))) && m@ == "Signal channel closed"@),
        (receipt != SignalReceipt::Received(wanted) && receipt != SignalReceipt::Closed) ==> r is None,
{
    match receipt {
        SignalReceipt::Received(s) => if s == wanted { Some(Ok(s)) } else { None },
        SignalReceipt::Closed => Some(Err(channel_closed())),
        SignalReceipt::Lagged => None,
    }
}

/// Polling for shutdown: ready with any signal that is there, with an error
/// when the channel is closed, pending otherwise (`None`).
pub fn shutdown_poll(receipt: SignalPoll) -> (r: Option<crate::error::Result<Signal>>)
    ensures
        receipt matches SignalPoll::Received(s) ==> r == Some(Ok::<Signal, NicAutoSwitchError>(s)),
        receipt == SignalPoll::Closed ==> (r matches Some(Err(NicAutoSwitchError::InvalidInput(m))) && m@ == "Signal channel closed"@),
        (receipt == SignalPoll::Empty || receipt == SignalPoll::Lagged) ==> r is None,
{
    match receipt {
        SignalPoll::Received(s) => Some(Ok(s)),
        SignalPoll::Empty => None,
        SignalPoll::Closed => Some(Err(channel_closed())),
        SignalPoll::Lagged => None,
    }
}

// ---------------------------------------------------------------------------
// Control protocol
// ---------------------------------------------------------------------------

/// Control command.
#[derive(Debug, Clone, Copy, PartialEq, Eq, Structural)]
pub enum ControlCommand {
    /// Get current status
    Status,
    /// Get active routes
    ListRoutes,
    /// Reload configuration
    Reload,
    /// Shutdown daemon
    Shutdown,
}

/// Daemon status.
#[derive(Debug)]
pub struct DaemonStatus {
    /// Daemon version
    pub version: String,
    /// Service state name
    pub state: String,
    /// Seconds since the service started
    pub uptime_secs: u64,
    /// Number of active routes
    pub active_routes: usize,
}

impl Clone for DaemonStatus {
    fn clone(&self) -> (r: Self)
        ensures
            r == *self,
    {
        DaemonStatus {
            version: self.version.clone(),
            state: self.state.clone(),
            uptime_secs: self.uptime_secs,
            active_routes: self.active_routes,
        }
    }
}

/// Data carried by a response.
#[derive(Debug)]
pub enum ResponseData {
    /// The daemon status
    Status(DaemonStatus),
    /// The active routes
    Routes(Vec<ActiveRoute>),
    /// Data as received, in JSON text
    Json(String),
}

/// Control response.
#[derive(Debug)]
pub struct ControlResponse {
    /// Success flag
    pub success: bool,
    /// Response message or error
    pub message: Option<String>,
    /// Response data
    pub data: Option<ResponseData>,
}

impl ControlResponse {
    /// A successful response carrying `data`.
    pub fn success(data: Option<ResponseData>) -> (r: Self)
        ensures
            r.success,
            r.message is None,
            r.data == data,
    {
        ControlResponse { success: true, message: None, data }
    }

    /// A successful response carrying a message.
    pub fn success_with_message(message: &str) -> (r: Self)
        ensures
            r.success,
            r.message matches Some(m) && m@ == message@,
            r.data is None,
    {
        ControlResponse { success: true, message: Some(String::from_str(message)), data: None }
    }

    /// A failed response carrying a message.
    pub fn error(message: &str) -> (r: Self)
        ensures
            !r.success,
            r.message matches Some(m) && m@ == message@,
            r.data is None,
    {
        ControlResponse { success: false, message: Some(String::from_str(message)), data: None }
    }
}

/// What the control server reads from and does to the daemon.
pub trait ControlState {
    /// Whether a shutdown has been requested.
    spec fn spec_shutdown_requested(&self) -> bool;

    /// The status the daemon reports.
    spec fn spec_status(&self) -> DaemonStatus;

    /// The active routes the daemon reports.
    spec fn spec_routes(&self) -> Vec<ActiveRoute>;

    /// The outcome a configuration reload has.
    spec fn spec_reload_outcome(&self) -> crate::error::Result<()>;

    /// The daemon status.
    fn get_status(&self) -> (r: DaemonStatus)
        ensures
            r == self.spec_status();

    /// The active routes.
    fn get_active_routes(&self) -> (r: Vec<ActiveRoute>)
        ensures
            r@ == self.spec_routes()@;

    /// Reloads the configuration.
    fn reload_config(&mut self) -> (r: crate::error::Result<()>)
        ensures
            r == old(self).spec_reload_outcome();

    /// Whether a shutdown has been requested.
    fn is_shutdown_requested(&self) -> (r: bool)
        ensures
            r == self.spec_shutdown_requested();

    /// Requests a shutdown.
    fn request_shutdown(&mut self)
        ensures
            final(self).spec_shutdown_requested();
}

/// Control state with fixed answers, for testing.
#[derive(Debug)]
pub struct MockControlState {
    status: DaemonStatus,
    routes: Vec<ActiveRoute>,
    shutdown: bool,
}

impl MockControlState {
    /// A running daemon of this version, up 0 seconds, no route, no
    /// shutdown requested.
    pub fn new() -> (r: Self)
        ensures
            r.spec_status().version@ == VERSION@,
            r.spec_status().state@ == "Running"@,
            r.spec_status().uptime_secs == 0,
            r.spec_status().active_routes == 0,
            r.spec_routes()@.len() == 0,
            r.spec_reload_outcome() is Ok,
            !r.spec_shutdown_requested(),
    {
        MockControlState {
            status: DaemonStatus {
                version: String::from_str(VERSION),
                state: String::from_str("Running"),
                uptime_secs: 0,
                active_routes: 0,
            },
            routes: Vec::new(),
            shutdown: false,
        }
    }
}

impl Default for MockControlState {
    fn default() -> (r: Self)
        ensures
            r.spec_status().version@ == VERSION@,
            r.spec_status().state@ == "Running"@,
            r.spec_status().uptime_secs == 0,
            r.spec_status().active_routes == 0,
            r.spec_routes()@.len() == 0,
            r.spec_reload_outcome() is Ok,
            !r.spec_shutdown_requested(),
    {
        Self::new()
    }
}

impl ControlState for MockControlState {
    closed spec fn spec_shutdown_requested(&self) -> bool {
        self.shutdown
    }

    /// The fixed status it was made with.
    closed spec fn spec_status(&self) -> DaemonStatus {
        self.status
    }

    /// The routes it was made with.
    closed spec fn spec_routes(&self) -> Vec<ActiveRoute> {
        self.routes
    }

    /// A reload always succeeds.
    open spec fn spec_reload_outcome(&self) -> crate::error::Result<()> {
        Ok(())
    }

    fn get_status(&self) -> (r: DaemonStatus)
        ensures
            r == self.spec_status(),
    {
        self.status.clone()
    }

    fn get_active_routes(&self) -> (r: Vec<ActiveRoute>) {
        let mut out: Vec<ActiveRoute> = Vec::new();
        let n = self.routes.len();
        let mut i: usize = 0;
        while i < n
            invariant
                n == self.routes@.len(),
                i <= n,
                out@ == self.routes@.take(i as int),
            decreases n - i,
        {
            out.push(self.routes[i].clone());
            assert(out@ =~= self.routes@.take(i + 1));
            i = i + 1;
        }
        assert(self.routes@.take(n as int) =~= self.routes@);
        out
    }

    fn reload_config(&mut self) -> (r: crate::error::Result<()>)
        ensures
            r is Ok,
            final(self).spec_shutdown_requested() == old(self).spec_shutdown_requested(),
    {
        Ok(())
    }

    fn is_shutdown_requested(&self) -> (r: bool) {
        self.shutdown
    }

    fn request_shutdown(&mut self) {
        self.shutdown = true;
    }
}

/// Text of the response to a reload.
pub open spec fn reload_message(outcome: crate::error::Result<()>) -> Seq<char> {
    match outcome {
        Ok(()) => "Configuration reloaded"@,
        Err(e) => "Failed to reload: "@ + error_text(e),
    }
}

/// The response `r` to `command` given by a state that was `before` and is
/// `after`: the reported status; the reported routes; the response to the
/// reload's outcome; or the confirmation of a shutdown, which is then
/// requested.
pub open spec fn command_answered<S: ControlState>(command: ControlCommand, before: S, after: S, r: ControlResponse) -> bool {
    match command {
        ControlCommand::Status => r.success && r.message is None
            && r.data == Some(ResponseData::Status(before.spec_status())),
        ControlCommand::ListRoutes => r.success && r.message is None
            && (r.data matches Some(ResponseData::Routes(v)) && v@ == before.spec_routes()@),
        ControlCommand::Reload => r.success == (before.spec_reload_outcome() is Ok)
            && (r.message matches Some(m) && m@ == reload_message(before.spec_reload_outcome()))
            && r.data is None,
        ControlCommand::Shutdown => r.success && (r.message matches Some(m) && m@ == "Shutdown requested"@)
            && r.data is None && after.spec_shutdown_requested(),
    }
}

/// Control server: where it listens and whether it was told to stop.
#[derive(Debug)]
pub struct ControlServer {
    socket_path: String,
    shutdown: bool,
}

impl ControlServer {
    /// The socket path.
    pub closed spec fn spec_socket_path(self) -> Seq<char> {
        self.socket_path@
    }

    /// Whether the server was told to stop.
    pub closed spec fn spec_stopped(self) -> bool {
        self.shutdown
    }

    /// A server for the socket at `socket_path`.
    pub fn new(socket_path: &str) -> (r: Self)
        ensures
            r.spec_socket_path() == socket_path@,
            !r.spec_stopped(),
    {
        ControlServer { socket_path: String::from_str(socket_path), shutdown: false }
    }

    /// The socket path.
    pub fn socket_path(&self) -> (r: &str)
        ensures
            r@ == self.spec_socket_path(),
    {
        self.socket_path.as_str()
    }

    /// Tells the server to stop.
    pub fn stop(&mut self)
        ensures
            final(self).spec_stopped(),
            final(self).spec_socket_path() == old(self).spec_socket_path(),
    {
        self.shutdown = true;
    }

    /// Whether the server was told to stop.
    pub fn is_stopped(&self) -> (r: bool)
        ensures
            r == self.spec_stopped(),
    {
        self.shutdown
    }

    /// Whether a peer may use the socket: only the same user or root. A
    /// peer whose credentials could not be read (`None`) is refused.
    pub fn check_peer_cred(peer_uid: Option<u32>, my_uid: u32) -> (r: bool)
        ensures
            r == (peer_uid matches Some(u) && (u == my_uid || u == 0)),
    {
        match peer_uid {
            Some(u) => u == my_uid || u == 0,
            None => false,
        }
    }

    /// The response to a reload outcome.
    pub fn reload_response(outcome: crate::error::Result<()>) -> (r: ControlResponse)
        ensures
            r.success == (outcome is Ok),
            r.message matches Some(m) && m@ == reload_message(outcome),
            r.data is None,
    {
        match outcome {
            Ok(()) => ControlResponse::success_with_message("Configuration reloaded"),
            Err(e) => {
                let mut m = String::from_str("Failed to reload: ");
                let t = e.to_text();
                m.append(t.as_str());
                ControlResponse::error(m.as_str())
            },
        }
    }

    /// Carries out a command and gives the response: the status, the active
    /// routes, the outcome of a reload, or a shutdown request.
    pub fn handle_command<S: ControlState>(command: ControlCommand, state: &mut S) -> (r: ControlResponse)
        ensures
            command_answered(command, *old(state), *final(state), r),
    {
        match command {
            ControlCommand::Status => {
                let status = state.get_status();
                ControlResponse::success(Some(ResponseData::Status(status)))
            },
            ControlCommand::ListRoutes => {
                let routes = state.get_active_routes();
                ControlResponse::success(Some(ResponseData::Routes(routes)))
            },
            ControlCommand::Reload => {
                let outcome = state.reload_config();
                Self::reload_response(outcome)
            },
            ControlCommand::Shutdown => {
                state.request_shutdown();
                ControlResponse::success_with_message("Shutdown requested")
            },
        }
    }

    /// The response to a request line: the command's response, or an error
    /// naming why the line is no command (`parsed`).
    pub fn respond<S: ControlState>(parsed: core::result::Result<ControlCommand, String>, state: &mut S) -> (r: ControlResponse)
        ensures
            parsed matches Err(e) ==> !r.success && (r.message matches Some(m) && m@ == "Invalid command: "@ + e@)
                && r.data is None,
            parsed matches Ok(c) ==> command_answered(c, *old(state), *final(state), r),
    {
        match parsed {
            Ok(cmd) => Self::handle_command(cmd, state),
            Err(e) => {
                let mut m = String::from_str("Invalid command: ");
                m.append(e.as_str());
                ControlResponse::error(m.as_str())
            },
        }
    }
}


// ---------------------------------------------------------------------------
// Service
// ---------------------------------------------------------------------------

/// Main service state.
#[derive(Debug, Clone, Copy, PartialEq, Eq, Structural)]
pub enum ServiceState {
    /// Service is initializing
    Initializing,
    /// Service is running
    Running,
    /// Service is reloading configuration
    Reloading,
    /// Service is stopping
    Stopping,
    /// Service is stopped
    Stopped,
}

/// The name of a service state.
pub open spec fn service_state_name(s: ServiceState) -> Seq<char> {
    match s {
        ServiceState::Initializing => "Initializing"@,
        ServiceState::Running => "Running"@,
        ServiceState::Reloading => "Reloading"@,
        ServiceState::Stopping => "Stopping"@,
        ServiceState::Stopped => "Stopped"@,
    }
}

fn state_name(s: ServiceState) -> (r: &'static str)
    ensures
        r@ == service_state_name(s),
{
    match s {
        ServiceState::Initializing => "Initializing",
        ServiceState::Running => "Running",
        ServiceState::Reloading => "Reloading",
        ServiceState::Stopping => "Stopping",
        ServiceState::Stopped => "Stopped",
    }
}

/// Daemon service configuration.
#[derive(Debug)]
pub struct ServiceConfig {
    /// Path to configuration file
    pub config_path: String,
    /// Control socket path
    pub socket_path: String,
    /// Enable configuration hot-reload
    pub enable_hot_reload: bool,
    /// Dry run mode (don't actually modify routes)
    pub dry_run: bool,
}

impl Clone for ServiceConfig {
    fn clone(&self) -> (r: Self)
        ensures
            r == *self,
    {
        ServiceConfig {
            config_path: self.config_path.clone(),
            socket_path: self.socket_path.clone(),
            enable_hot_reload: self.enable_hot_reload,
            dry_run: self.dry_run,
        }
    }
}

impl Default for ServiceConfig {
    fn default() -> (r: Self)
        ensures
            r.config_path@ == DEFAULT_CONFIG_PATH@,
            r.socket_path@ == DEFAULT_SOCKET_PATH@,
            r.enable_hot_reload,
            !r.dry_run,
    {
        ServiceConfig {
            config_path: String::from_str(DEFAULT_CONFIG_PATH),
            socket_path: String::from_str(DEFAULT_SOCKET_PATH),
            enable_hot_reload: true,
            dry_run: false,
        }
    }
}

/// What the main loop does after a signal.
#[derive(Debug, Clone, Copy, PartialEq, Eq, Structural)]
pub enum LoopControl {
    /// Keep waiting
    Continue,
    /// Leave the loop
    Exit,
    /// Load the configuration file and hand it to `finish_reload`
    Reload,
}

/// Seconds elapsed between two clock readings (nanoseconds), none when the
/// clock reads earlier.
pub open spec fn elapsed_secs(start: u128, now: u128) -> u64 {
    if now <= start { 0 } else { ((now - start) / 1_000_000_000) as u64 }
}

/// The notifications among `texts` that are sent: all of them when
/// notifications are on, none otherwise.
pub open spec fn sent(systemd: SystemdNotify, texts: Seq<Seq<char>>) -> Seq<Seq<char>> {
    if systemd.spec_enabled() { texts } else { Seq::empty() }
}

/// The texts of a list of notifications.
pub open spec fn texts_of(v: Seq<&'static str>) -> Seq<Seq<char>> {
    v.map_values(|s: &'static str| s@)
}

/// The daemon service: its configuration, the event dispatcher, systemd,
/// its state, when it started and whether a shutdown was requested.
#[derive(Debug)]
pub struct DaemonService {
    service_config: ServiceConfig,
    dispatcher: EventDispatcher,
    systemd: SystemdNotify,
    state: ServiceState,
    start_time: Option<u128>,
    shutdown: bool,
}

impl DaemonService {
    /// Service configuration.
    pub closed spec fn spec_service_config(self) -> ServiceConfig {
        self.service_config
    }

    /// The event dispatcher.
    pub closed spec fn spec_dispatcher(self) -> EventDispatcher {
        self.dispatcher
    }

    /// systemd interface.
    pub closed spec fn spec_systemd(self) -> SystemdNotify {
        self.systemd
    }

    /// Service state.
    pub closed spec fn spec_state(self) -> ServiceState {
        self.state
    }

    /// When the service started running (nanoseconds).
    pub closed spec fn spec_start_time(self) -> Option<u128> {
        self.start_time
    }

    /// Whether a shutdown was requested.
    pub closed spec fn spec_shutdown(self) -> bool {
        self.shutdown
    }

    /// A service for a loaded configuration; its dispatcher starts with a
    /// dry-run route manager until `init`.
    pub fn new(service_config: ServiceConfig, config: Config, systemd: SystemdNotify) -> (r: Self)
        ensures
            r.spec_service_config() == service_config,
            r.spec_dispatcher().spec_config() == config,
            r.spec_dispatcher().spec_rm().spec_dry_run(),
            r.spec_dispatcher().spec_state() == DispatcherState::Initializing,
            r.spec_systemd() == systemd,
            r.spec_state() == ServiceState::Initializing,
            r.spec_start_time() is None,
            !r.spec_shutdown(),
    {
        let dispatcher = EventDispatcher::new(config, RouteManager::default());
        DaemonService { service_config, dispatcher, systemd, state: ServiceState::Initializing, start_time: None, shutdown: false }
    }

    /// Connects the route manager: dry run when the service or the
    /// configuration asks for it; fails when the configured base table is
    /// out of range.
    pub fn init(&mut self) -> (r: crate::error::Result<()>)
        ensures
            ({
                let cfg = old(self).spec_dispatcher().spec_config();
                let dry = old(self).spec_service_config().dry_run || cfg.global.dry_run;
                let base = cfg.global.table_id_start;
                &&& (r is Ok) == (IPV4_TABLE_START <= base <= IPV4_TABLE_END)
                &&& r is Ok ==> final(self).spec_dispatcher().spec_rm().spec_base_table_id() == base
                    && final(self).spec_dispatcher().spec_rm().spec_dry_run() == dry
                    && final(self).spec_dispatcher().spec_rm().spec_connected() == !dry
                &&& r is Err ==> final(self).spec_dispatcher() == old(self).spec_dispatcher()
            }),
            final(self).spec_dispatcher().spec_routes() == old(self).spec_dispatcher().spec_routes(),
            final(self).spec_state() == old(self).spec_state(),
            final(self).spec_shutdown() == old(self).spec_shutdown(),
            final(self).spec_start_time() == old(self).spec_start_time(),
    {
        let dry_run = self.service_config.dry_run || self.dispatcher.config().global.dry_run;
        let base = self.dispatcher.config().global.table_id_start;
        let rm = RouteManager::with_connection(base, dry_run)?;
        self.dispatcher.set_route_manager(rm);
        Ok(())
    }

    /// Current service state.
    pub fn state(&self) -> (r: ServiceState)
        ensures
            r == self.spec_state(),
    {
        self.state
    }

    /// The event dispatcher.
    pub fn dispatcher(&self) -> (r: &EventDispatcher)
        ensures
            *r == self.spec_dispatcher(),
    {
        &self.dispatcher
    }

    /// The systemd interface.
    pub fn systemd(&self) -> (r: &SystemdNotify)
        ensures
            *r == self.spec_systemd(),
    {
        &self.systemd
    }

    /// Reports the outcome of the kernel work of the dispatcher's front
    /// action (see `EventDispatcher::complete_action`).
    pub fn complete_action(&mut self, kernel: crate::error::Result<()>)
        ensures
            action_completed(old(self).spec_dispatcher(), final(self).spec_dispatcher(), kernel is Ok),
            final(self).spec_state() == old(self).spec_state(),
            final(self).spec_shutdown() == old(self).spec_shutdown(),
            final(self).spec_service_config() == old(self).spec_service_config(),
            final(self).spec_systemd() == old(self).spec_systemd(),
            final(self).spec_start_time() == old(self).spec_start_time(),
    {
        self.dispatcher.complete_action(kernel);
    }

    /// Whether a shutdown was requested.
    pub fn is_shutdown_requested(&self) -> (r: bool)
        ensures
            r == self.spec_shutdown(),
    {
        self.shutdown
    }

    /// Requests a shutdown.
    pub fn request_shutdown(&mut self)
        ensures
            final(self).spec_shutdown(),
            final(self).spec_state() == old(self).spec_state(),
            final(self).spec_dispatcher() == old(self).spec_dispatcher(),
    {
        self.shutdown = true;
    }

    fn push_notification(&self, out: &mut Vec<&'static str>, state: NotifyState)
        ensures
            texts_of(final(out)@) == texts_of(old(out)@) + sent(self.spec_systemd(), seq![notify_text(state)]),
    {
        let ghost before = out@;
        match self.systemd.notification(state) {
            Some(m) => {
                out.push(m);
                assert(texts_of(out@) =~= texts_of(before) + seq![notify_text(state)]);
            },
            None => {
                assert(texts_of(out@) =~= texts_of(before) + Seq::<Seq<char>>::empty());
            },
        }
    }

    /// Starts running at `now`: tells systemd it is reloading, starts the
    /// dispatcher, becomes running and tells systemd it is ready. Returns
    /// the notifications to send.
    pub fn begin_run(&mut self, now: u128) -> (r: Vec<&'static str>)
        ensures
            final(self).spec_start_time() == Some(now),
            final(self).spec_state() == ServiceState::Running,
            final(self).spec_dispatcher().spec_state() == DispatcherState::Running,
            final(self).spec_dispatcher().spec_routes() == old(self).spec_dispatcher().spec_routes(),
            final(self).spec_shutdown() == old(self).spec_shutdown(),
            texts_of(r@) == sent(old(self).spec_systemd(), seq!["RELOADING=1"@, "READY=1"@]),
    {
        self.start_time = Some(now);
        let mut out: Vec<&'static str> = Vec::new();
        assert(texts_of(out@) =~= Seq::<Seq<char>>::empty());
        self.push_notification(&mut out, NotifyState::Reloading);
        self.dispatcher.start();
        self.state = ServiceState::Running;
        self.push_notification(&mut out, NotifyState::Ready);
        assert(sent(self.spec_systemd(), seq!["RELOADING=1"@, "READY=1"@]) =~= Seq::<Seq<char>>::empty()
            + sent(self.spec_systemd(), seq!["RELOADING=1"@]) + sent(self.spec_systemd(), seq!["READY=1"@]));
        out
    }

    /// Reacts to a signal: a shutdown request ends the loop, as does a
    /// closed channel; a reload begins (state `Reloading`, systemd told);
    /// missed signals are ignored. Returns what the loop does next and the
    /// notifications to send.
    pub fn on_signal(&mut self, receipt: SignalReceipt) -> (r: (LoopControl, Vec<&'static str>))
        ensures
            final(self).spec_dispatcher() == old(self).spec_dispatcher(),
            final(self).spec_start_time() == old(self).spec_start_time(),
            receipt == SignalReceipt::Received(Signal::Shutdown) ==> r.0 == LoopControl::Exit && final(self).spec_shutdown()
                && final(self).spec_state() == old(self).spec_state() && r.1@.len() == 0,
            receipt == SignalReceipt::Received(Signal::Reload) ==> r.0 == LoopControl::Reload
                && final(self).spec_state() == ServiceState::Reloading && final(self).spec_shutdown() == old(self).spec_shutdown()
                && texts_of(r.1@) == sent(old(self).spec_systemd(), seq!["RELOADING=1"@]),
            receipt == SignalReceipt::Closed ==> r.0 == LoopControl::Exit && final(self).spec_state() == old(self).spec_state()
                && final(self).spec_shutdown() == old(self).spec_shutdown() && r.1@.len() == 0,
            receipt == SignalReceipt::Lagged ==> r.0 == LoopControl::Continue && final(self).spec_state() == old(self).spec_state()
                && final(self).spec_shutdown() == old(self).spec_shutdown() && r.1@.len() == 0,
    {
        match receipt {
            SignalReceipt::Received(Signal::Shutdown) => {
                self.shutdown = true;
                (LoopControl::Exit, Vec::new())
            },
            SignalReceipt::Received(Signal::Reload) => {
                self.state = ServiceState::Reloading;
                let mut out: Vec<&'static str> = Vec::new();
                assert(texts_of(out@) =~= Seq::<Seq<char>>::empty());
                self.push_notification(&mut out, NotifyState::Reloading);
                assert(texts_of(out@) =~= sent(self.spec_systemd(), seq!["RELOADING=1"@]));
                (LoopControl::Reload, out)
            },
            SignalReceipt::Closed => (LoopControl::Exit, Vec::new()),
            SignalReceipt::Lagged => (LoopControl::Continue, Vec::new()),
        }
    }

    /// Takes a newly loaded configuration: on success the dispatcher uses
    /// it; a failed load changes nothing.
    pub fn apply_reloaded_config(&mut self, loaded: crate::error::Result<Config>) -> (r: crate::error::Result<()>)
        ensures
            (r is Ok) == (loaded is Ok),
            loaded matches Err(e) ==> r == Err::<(), NicAutoSwitchError>(e) && final(self).spec_dispatcher() == old(self).spec_dispatcher(),
            loaded matches Ok(c) ==> final(self).spec_dispatcher().spec_config() == c
                && final(self).spec_dispatcher().spec_routes() == old(self).spec_dispatcher().spec_routes()
                && final(self).spec_dispatcher().spec_rm() == old(self).spec_dispatcher().spec_rm(),
            final(self).spec_state() == old(self).spec_state(),
            final(self).spec_shutdown() == old(self).spec_shutdown(),
            final(self).spec_start_time() == old(self).spec_start_time(),
            final(self).spec_systemd() == old(self).spec_systemd(),
            final(self).spec_service_config() == old(self).spec_service_config(),
    {
        match loaded {
            Ok(config) => {
                self.dispatcher.update_config(config);
                Ok(())
            },
            Err(e) => Err(e),
        }
    }

    /// Ends a reload with the configuration that was loaded (a failed load
    /// keeps the current one): running again, systemd told it is ready.
    pub fn finish_reload(&mut self, loaded: crate::error::Result<Config>) -> (r: Vec<&'static str>)
        ensures
            final(self).spec_state() == ServiceState::Running,
            loaded is Err ==> final(self).spec_dispatcher() == old(self).spec_dispatcher(),
            loaded matches Ok(c) ==> final(self).spec_dispatcher().spec_config() == c
                && final(self).spec_dispatcher().spec_routes() == old(self).spec_dispatcher().spec_routes(),
            final(self).spec_shutdown() == old(self).spec_shutdown(),
            texts_of(r@) == sent(old(self).spec_systemd(), seq!["READY=1"@]),
    {
        let _ = self.apply_reloaded_config(loaded);
        self.state = ServiceState::Running;
        let mut out: Vec<&'static str> = Vec::new();
        assert(texts_of(out@) =~= Seq::<Seq<char>>::empty());
        self.push_notification(&mut out, NotifyState::Ready);
        assert(texts_of(out@) =~= sent(self.spec_systemd(), seq!["READY=1"@]));
        out
    }

    /// The keepalive to send on a watchdog tick.
    pub fn watchdog_tick(&self) -> (r: Option<&'static str>)
        ensures
            !(self.spec_systemd().spec_enabled() && self.spec_systemd().spec_interval_ms() > 0) ==> r is None,
            (self.spec_systemd().spec_enabled() && self.spec_systemd().spec_interval_ms() > 0) ==> (r matches Some(m)
                && m@ == "WATCHDOG=1"@),
    {
        self.systemd.watchdog_keepalive()
    }

    /// Stops: `Stopping`, systemd told, the dispatcher stopped (its routes
    /// forgotten), then `Stopped`. Returns the notifications to send.
    pub fn end_run(&mut self) -> (r: Vec<&'static str>)
        ensures
            final(self).spec_state() == ServiceState::Stopped,
            final(self).spec_dispatcher().spec_state() == DispatcherState::Stopped,
            final(self).spec_dispatcher().spec_routes() == Map::<Seq<char>, crate::engine::executor::RouteView>::empty(),
            final(self).spec_shutdown() == old(self).spec_shutdown(),
            texts_of(r@) == sent(old(self).spec_systemd(), seq!["STOPPING=1"@]),
    {
        self.state = ServiceState::Stopping;
        let mut out: Vec<&'static str> = Vec::new();
        assert(texts_of(out@) =~= Seq::<Seq<char>>::empty());
        self.push_notification(&mut out, NotifyState::Stopping);
        assert(texts_of(out@) =~= sent(self.spec_systemd(), seq!["STOPPING=1"@]));
        self.dispatcher.stop();
        self.state = ServiceState::Stopped;
        out
    }

    /// Hands a network event to the dispatcher (see
    /// `EventDispatcher::handle_event`).
    pub fn handle_network_event(&mut self, event: NetworkEvent) -> (r: crate::error::Result<()>)
        ensures
            r is Ok,
            final(self).spec_state() == old(self).spec_state(),
            final(self).spec_shutdown() == old(self).spec_shutdown(),
            event_handled(old(self).spec_dispatcher(), final(self).spec_dispatcher(), event),
            final(self).spec_service_config() == old(self).spec_service_config(),
            final(self).spec_systemd() == old(self).spec_systemd(),
            final(self).spec_start_time() == old(self).spec_start_time(),
    {
        self.dispatcher.handle_event(&event)
    }

    /// The status at `now`: version, state name, seconds since start (0
    /// before the start) and number of active routes.
    pub fn status(&self, now: u128) -> (r: DaemonStatus)
        ensures
            r.version@ == VERSION@,
            r.state@ == service_state_name(self.spec_state()),
            r.uptime_secs == match self.spec_start_time() { Some(t) => elapsed_secs(t, now), None => 0 },
            r.active_routes == self.spec_dispatcher().spec_routes().len(),
    {
        let uptime_secs: u64 = match self.start_time {
            Some(t) => if now <= t {
                0
            } else {
                let secs: u128 = (now - t) / 1_000_000_000;
                secs as u64
            },
            None => 0,
        };
        DaemonStatus {
            version: String::from_str(VERSION),
            state: String::from_str(state_name(self.state)),
            uptime_secs,
            active_routes: self.dispatcher.active_routes().len(),
        }
    }
}

} // verus!
