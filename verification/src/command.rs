//! The monitor's command line, checked before anything is started.

use crate::text;
use vstd::prelude::*;
use vstd::string::*;

verus! {

/// The port that is bound unless another is named.
pub const DEFAULT_PORT: i32 = 8787;

/// How often sessions are scanned unless said otherwise, in milliseconds.
pub const DEFAULT_POLL_INTERVAL_MS: i64 = 1000;

/// The active window unless said otherwise, in seconds.
pub const DEFAULT_ACTIVE_WINDOW_SECONDS: i64 = 120;

/// The working window unless said otherwise, in seconds.
pub const DEFAULT_WORKING_WINDOW_SECONDS: i64 = 15;

/// What the monitor is asked to do.
#[derive(Debug)]
pub struct MonitorCommand {
    /// Host/interface to bind for the WebSocket server.
    pub host: String,
    /// Port to bind for the WebSocket server.
    pub port: i32,
    /// Poll interval (ms) for scanning active sessions.
    pub poll_interval_ms: i64,
    /// Treat sessions as active if updated within this window (seconds).
    pub active_window_seconds: i64,
    /// Treat active sessions as working if updated within this window (seconds).
    pub working_window_seconds: i64,
}

/// What the monitor goes by once its command has been checked.
#[derive(Debug)]
pub struct MonitorSettings {
    /// Where to listen, as `host:port`.
    pub addr: String,
    pub poll_interval_ms: u64,
    pub active_window_seconds: u64,
    pub working_window_seconds: u64,
}

/// What is wrong with a command.
#[derive(Debug, Clone, Copy, PartialEq, Eq, Structural)]
pub enum CommandError {
    PollInterval,
    ActiveWindow,
    WorkingWindow,
    Port,
    Host,
}

impl CommandError {
    /// The words for an error.
    pub open spec fn words(self) -> Seq<char> {
        match self {
            CommandError::PollInterval => "poll interval must be > 0"@,
            CommandError::ActiveWindow => "active window must be > 0"@,
            CommandError::WorkingWindow => "working window must be > 0"@,
            CommandError::Port => "port must be between 1 and 65535"@,
            CommandError::Host => "invalid host or port"@,
        }
    }

    /// Says what is wrong.
    pub fn message(self) -> (message: String)
        ensures
            message@ == self.words(),
            self is PollInterval ==> message@ == "poll interval must be > 0"@,
            self is ActiveWindow ==> message@ == "active window must be > 0"@,
            self is WorkingWindow ==> message@ == "working window must be > 0"@,
            self is Port ==> message@ == "port must be between 1 and 65535"@,
            self is Host ==> message@ == "invalid host or port"@,
    {
        match self {
            CommandError::PollInterval => "poll interval must be > 0".to_string(),
            CommandError::ActiveWindow => "active window must be > 0".to_string(),
            CommandError::WorkingWindow => "working window must be > 0".to_string(),
            CommandError::Port => "port must be between 1 and 65535".to_string(),
            CommandError::Host => "invalid host or port".to_string(),
        }
    }
}

/// Checks the poll interval, which must be positive.
pub fn validate_poll_interval(poll_interval_ms: i64) -> (checked: Result<u64, CommandError>)
    ensures
        poll_interval_ms > 0 ==> (checked matches Ok(ms) && ms == poll_interval_ms),
        poll_interval_ms <= 0 ==> checked == Err::<u64, _>(CommandError::PollInterval),
{
    if poll_interval_ms <= 0 {
        return Err(CommandError::PollInterval);
    }
    Ok(poll_interval_ms as u64)
}

/// Checks the active window, which must be positive.
pub fn validate_active_window(active_window_seconds: i64) -> (checked: Result<u64, CommandError>)
    ensures
        active_window_seconds > 0 ==> (checked matches Ok(s) && s == active_window_seconds),
        active_window_seconds <= 0 ==> checked == Err::<u64, _>(CommandError::ActiveWindow),
{
    if active_window_seconds <= 0 {
        return Err(CommandError::ActiveWindow);
    }
    Ok(active_window_seconds as u64)
}

/// Checks the working window, which must be positive.
pub fn validate_working_window(working_window_seconds: i64) -> (checked: Result<u64, CommandError>)
    ensures
        working_window_seconds > 0 ==> (checked matches Ok(s) && s == working_window_seconds),
        working_window_seconds <= 0 ==> checked == Err::<u64, _>(CommandError::WorkingWindow),
{
    if working_window_seconds <= 0 {
        return Err(CommandError::WorkingWindow);
    }
    Ok(working_window_seconds as u64)
}

/// Whether a port can be bound.
pub open spec fn is_port(port: int) -> bool {
    1 <= port <= 65535
}

/// The text of a socket address.
pub open spec fn socket_addr_text(host: Seq<char>, port: int) -> Seq<char> {
    host + ":"@ + text::numeral(port as nat)
}

/// An address can be read back: up to a colon it is the host, and the rest is made
/// of digits, without a leading zero, whose place values add up to the port.
pub proof fn socket_addr_text_reads_back(host: Seq<char>, port: int)
    requires
        1 <= port,
    ensures
        ({
            let text = socket_addr_text(host, port);
            let digits = text.skip(host.len() as int + 1);
            &&& text.len() > host.len() + 1
            &&& text.take(host.len() as int) == host
            &&& text[host.len() as int] == ':'
            &&& forall|i: int| 0 <= i < digits.len() ==> '0' <= #[trigger] digits[i] <= '9'
            &&& digits[0] != '0'
            &&& digits.fold_left(
                0int,
                |sum: int, c: char| 10 * sum + (c as int - '0' as int),
            ) == port
        }),
{
    reveal_strlit(":");
    text::numeral_reads_back(port as nat);
    let written = socket_addr_text(host, port);
    let digits = text::numeral(port as nat);
    assert(written.take(host.len() as int) =~= host);
    assert(written.skip(host.len() as int + 1) =~= digits);
    if digits.len() == 1 {
        reveal_with_fuel(Seq::fold_left, 2);
        assert(digits.drop_last() =~= Seq::empty());
    }
}

/// Whether `str::parse` reads a text as a `SocketAddr`: an IPv4 address, or an
/// IPv6 address in brackets, with a port. A host name is none.
pub uninterp spec fn parses_as_socket_addr(text: Seq<char>) -> bool;

/// Calls `str::parse` for `core::net::SocketAddr` and tells whether it succeeded.
/// The contract claims only that this depends on the characters alone; which
/// texts are addresses is not spelled out.
#[verifier::external_body]
fn is_socket_addr(text: &str) -> (parses: bool)
    ensures
        parses == parses_as_socket_addr(text@),
{
    text.parse::<core::net::SocketAddr>().is_ok()
}

/// Accepts the text of an address if it was found to be one.
pub fn accept_socket_addr(text: String, parses: bool) -> (addr: Result<String, CommandError>)
    ensures
        parses ==> addr == Ok::<String, CommandError>(text),
        !parses ==> addr == Err::<String, _>(CommandError::Host),
{
    if parses {
        Ok(text)
    } else {
        Err(CommandError::Host)
    }
}

/// Checks the port and then the host, and writes down the address as
/// `host:port`.
pub fn build_socket_addr(host: &str, port: i32) -> (addr: Result<String, CommandError>)
    ensures
        !is_port(port as int) ==> addr == Err::<String, _>(CommandError::Port),
        is_port(port as int) && parses_as_socket_addr(socket_addr_text(host@, port as int)) ==> (
        addr matches Ok(a) && a@ == socket_addr_text(host@, port as int)),
        is_port(port as int) && !parses_as_socket_addr(socket_addr_text(host@, port as int))
            ==> addr == Err::<String, _>(CommandError::Host),
        addr == Err::<String, _>(CommandError::Port) <==> port < 1 || port > 65535,
        addr matches Ok(a) ==> {
            let digits = a@.skip(host@.len() as int + 1);
            &&& 1 <= port <= 65535
            &&& parses_as_socket_addr(a@)
            &&& a@.len() > host@.len() + 1
            &&& a@.take(host@.len() as int) == host@
            &&& a@[host@.len() as int] == ':'
            &&& forall|i: int| 0 <= i < digits.len() ==> '0' <= #[trigger] digits[i] <= '9'
            &&& digits[0] != '0'
            &&& digits.fold_left(
                0int,
                |sum: int, c: char| 10 * sum + (c as int - '0' as int),
            ) == port
        },
{
    if port <= 0 || port > 65535 {
        return Err(CommandError::Port);
    }
    proof {
        socket_addr_text_reads_back(host@, port as int);
    }
    let mut addr = host.to_string();
    addr.append(":");
    let numeral = text::decimal(port as u32);
    addr.append(numeral.as_str());
    let parses = is_socket_addr(addr.as_str());
    accept_socket_addr(addr, parses)
}

impl MonitorCommand {
    /// What the command is refused for. Of several faults the first one counts,
    /// in the order: poll interval, active window, working window, port, host.
    pub open spec fn fault(self) -> Option<CommandError> {
        if self.poll_interval_ms <= 0 {
            Some(CommandError::PollInterval)
        } else if self.active_window_seconds <= 0 {
            Some(CommandError::ActiveWindow)
        } else if self.working_window_seconds <= 0 {
            Some(CommandError::WorkingWindow)
        } else if !is_port(self.port as int) {
            Some(CommandError::Port)
        } else if !parses_as_socket_addr(socket_addr_text(self.host@, self.port as int)) {
            Some(CommandError::Host)
        } else {
            None
        }
    }

    /// Checks the command. It is accepted unless it has a fault, and then its
    /// values are taken over unchanged.
    pub fn validate(&self) -> (checked: Result<MonitorSettings, CommandError>)
        ensures
            self.fault() matches Some(fault) ==> checked == Err::<MonitorSettings, _>(fault),
            self.fault() is None ==> (checked matches Ok(s) && {
                &&& s.addr@ == socket_addr_text(self.host@, self.port as int)
                &&& s.poll_interval_ms == self.poll_interval_ms
                &&& s.active_window_seconds == self.active_window_seconds
                &&& s.working_window_seconds == self.working_window_seconds
            }),
            checked == Err::<MonitorSettings, _>(CommandError::PollInterval)
                <==> self.poll_interval_ms <= 0,
            checked == Err::<MonitorSettings, _>(CommandError::ActiveWindow)
                <==> self.poll_interval_ms > 0 && self.active_window_seconds <= 0,
            checked == Err::<MonitorSettings, _>(CommandError::WorkingWindow)
                <==> self.poll_interval_ms > 0 && self.active_window_seconds > 0
                && self.working_window_seconds <= 0,
            checked == Err::<MonitorSettings, _>(CommandError::Port) <==> self.poll_interval_ms > 0
                && self.active_window_seconds > 0 && self.working_window_seconds > 0 && (self.port
                < 1 || self.port > 65535),
            checked == Err::<MonitorSettings, _>(CommandError::Host) <==> self.poll_interval_ms > 0
                && self.active_window_seconds > 0 && self.working_window_seconds > 0 && 1
                <= self.port <= 65535 && !parses_as_socket_addr(
                socket_addr_text(self.host@, self.port as int),
            ),
            checked matches Ok(s) ==> {
                &&& s.addr@ == socket_addr_text(self.host@, self.port as int)
                &&& s.poll_interval_ms == self.poll_interval_ms
                &&& s.active_window_seconds == self.active_window_seconds
                &&& s.working_window_seconds == self.working_window_seconds
            },
    {
        let poll_interval_ms = match validate_poll_interval(self.poll_interval_ms) {
            Ok(ms) => ms,
            Err(fault) => return Err(fault),
        };
        let active_window_seconds = match validate_active_window(self.active_window_seconds) {
            Ok(seconds) => seconds,
            Err(fault) => return Err(fault),
        };
        let working_window_seconds = match validate_working_window(self.working_window_seconds) {
            Ok(seconds) => seconds,
            Err(fault) => return Err(fault),
        };
        let addr = match build_socket_addr(self.host.as_str(), self.port) {
            Ok(addr) => addr,
            Err(fault) => return Err(fault),
        };
        Ok(
            MonitorSettings {
                addr,
                poll_interval_ms,
                active_window_seconds,
                working_window_seconds,
            },
        )
    }
}

impl Default for MonitorCommand {
    /// The command that is given when nothing is said.
    fn default() -> (command: MonitorCommand)
        ensures
            command.host@ == "127.0.0.1"@,
            command.port == DEFAULT_PORT,
            command.poll_interval_ms == DEFAULT_POLL_INTERVAL_MS,
            command.active_window_seconds == DEFAULT_ACTIVE_WINDOW_SECONDS,
            command.working_window_seconds == DEFAULT_WORKING_WINDOW_SECONDS,
            command.fault() is None || command.fault() == Some(CommandError::Host),
            command.port == 8787,
            command.poll_interval_ms == 1000,
            command.active_window_seconds == 120,
            command.working_window_seconds == 15,
    {
        MonitorCommand {
            host: "127.0.0.1".to_string(),
            port: DEFAULT_PORT,
            poll_interval_ms: DEFAULT_POLL_INTERVAL_MS,
            active_window_seconds: DEFAULT_ACTIVE_WINDOW_SECONDS,
            working_window_seconds: DEFAULT_WORKING_WINDOW_SECONDS,
        }
    }
}

} // verus!
