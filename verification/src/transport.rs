//! The client's side of a session: when to dial again, when to wait, and
//! when to run the handshake anew. The stream itself belongs to the caller,
//! who dials and writes and reports how it went.

use rand::Rng;
use std::time::Duration;
use vstd::prelude::*;
use vstd::string::*;

verus! {

/// What to do after an attempt to dial the server.
#[derive(Debug, Clone, Copy, PartialEq, Eq)]
pub enum DialStep {
    /// The session stands. Say so if `announce` is set. If `notify` is set,
    /// the dial followed a write that failed: hand the new stream to the
    /// reconnect callback, then write again what could not be written.
    Connected { announce: bool, notify: bool },
    /// The dial failed: say so, sleep for `interval`, and dial again.
    RetryAfter { interval: Duration },
}

/// What to do after an attempt to write.
#[derive(Debug, Clone, Copy, PartialEq, Eq, Structural)]
pub enum WriteStep {
    /// Everything was written.
    Done,
    /// The write failed: drop the stream and dial again, at once.
    Redial,
}

/// A sender that keeps its session alive: a write that fails is never
/// reported to the user of the session; the server is dialled again until it
/// answers, and the write is repeated.
pub struct AutoReConnectTcpStream {
    host_info: String,
    retry_interval: Duration,
    verbose: bool,
    resending: bool,
}

impl AutoReConnectTcpStream {
    /// The server's address, as `host:port`.
    pub closed spec fn host(&self) -> Seq<char> {
        self.host_info@
    }

    /// How long to wait between two attempts to dial.
    pub closed spec fn interval(&self) -> Duration {
        self.retry_interval
    }

    /// Whether progress is reported.
    pub closed spec fn verbose(&self) -> bool {
        self.verbose
    }

    /// Whether a write has failed and has not been made good yet.
    pub closed spec fn resending(&self) -> bool {
        self.resending
    }

    /// A sender for the server at `host_info` that is quiet and has nothing
    /// to make good. The caller dials before it writes.
    pub fn new(host_info: String, retry_interval: Duration) -> (sender: Self)
        ensures
            sender.host() == host_info@,
            sender.interval() == retry_interval,
            !sender.verbose(),
            !sender.resending(),
    {
        Self { host_info, retry_interval, verbose: false, resending: false }
    }

    pub fn set_verbosity(&mut self, v: bool)
        ensures
            final(self).verbose() == v,
            final(self).host() == old(self).host(),
            final(self).interval() == old(self).interval(),
            final(self).resending() == old(self).resending(),
    {
        self.verbose = v
    }

    /// The address to dial.
    pub fn host_info(&self) -> (host: &str)
        ensures
            host@ == self.host(),
    {
        self.host_info.as_str()
    }

    /// Whether each attempt to dial is announced.
    pub fn is_verbose(&self) -> (v: bool)
        ensures
            v == self.verbose(),
    {
        self.verbose
    }

    /// Takes the outcome of an attempt to dial. After a failure the next
    /// attempt follows after the retry interval, without end and without a
    /// longer wait. The reconnect callback is due exactly when the dial
    /// makes good a write that failed; the first dial of a session is none.
    pub fn dial_result(&self, connected: bool) -> (step: DialStep)
        ensures
            step == self.dial_step(connected),
    {
        if connected {
            DialStep::Connected { announce: self.verbose, notify: self.resending }
        } else {
            DialStep::RetryAfter { interval: self.retry_interval }
        }
    }

    /// Takes the outcome of an attempt to write.
    pub fn write_result(&mut self, written: bool) -> (step: WriteStep)
        ensures
            step == write_step(written),
            final(self).resending() == !written,
            final(self).verbose() == old(self).verbose(),
            final(self).host() == old(self).host(),
            final(self).interval() == old(self).interval(),
    {
        self.resending = !written;
        if written {
            WriteStep::Done
        } else {
            WriteStep::Redial
        }
    }

    pub open spec fn dial_step(&self, connected: bool) -> DialStep {
        if connected {
            DialStep::Connected { announce: self.verbose(), notify: self.resending() }
        } else {
            DialStep::RetryAfter { interval: self.interval() }
        }
    }
}

pub open spec fn write_step(written: bool) -> WriteStep {
    if written {
        WriteStep::Done
    } else {
        WriteStep::Redial
    }
}

/// A write is reported done only where it succeeded, and a sender has
/// something to make good exactly after a write that failed: then, and only
/// then, the next dial that succeeds is followed by the reconnect callback.
pub proof fn lemma_callback_follows_failed_write(
    before: AutoReConnectTcpStream,
    after: AutoReConnectTcpStream,
    written: bool,
)
    requires
        after.resending() == !written,
        after.verbose() == before.verbose(),
        after.interval() == before.interval(),
    ensures
        write_step(written) == WriteStep::Done <==> written,
        after.dial_step(true) == (DialStep::Connected {
            announce: before.verbose(),
            notify: !written,
        }),
        after.dial_step(false) == (DialStep::RetryAfter { interval: before.interval() }),
{
}

/// The port on which a guest's reporter talks.
pub const CLIENT_REPORTER_PORT: u16 = 54000;

/// The port on which a guest's query tool talks.
pub const CLIENT_QUERY_PORT: u16 = 54001;

/// The lowest port that a guest's command client may take.
pub const CLIENT_PORT_BASE: u16 = 54002;

/// The first port above those that a guest's command client may take.
pub const CLIENT_PORT_MAX: u16 = 55000;

/// The decimal digit for `d`.
pub open spec fn digit(d: int) -> char {
    if d == 0 {
        '0'
    } else if d == 1 {
        '1'
    } else if d == 2 {
        '2'
    } else if d == 3 {
        '3'
    } else if d == 4 {
        '4'
    } else if d == 5 {
        '5'
    } else if d == 6 {
        '6'
    } else if d == 7 {
        '7'
    } else if d == 8 {
        '8'
    } else {
        '9'
    }
}

/// `n` in decimal digits, without leading zeros.
pub open spec fn decimal_text(n: nat) -> Seq<char>
    decreases n,
{
    if n < 10 {
        seq![digit(n as int)]
    } else {
        decimal_text(n / 10) + seq![digit((n % 10) as int)]
    }
}

/// The address `client_ip:port`.
pub open spec fn client_addr_text(client_ip: Seq<char>, port: u16) -> Seq<char> {
    client_ip + seq![':'] + decimal_text(port as nat)
}

fn digit_str(d: u16) -> (s: &'static str)
    requires
        d < 10,
    ensures
        s@ == seq![digit(d as int)],
{
    proof {
        reveal_strlit("0");
        reveal_strlit("1");
        reveal_strlit("2");
        reveal_strlit("3");
        reveal_strlit("4");
        reveal_strlit("5");
        reveal_strlit("6");
        reveal_strlit("7");
        reveal_strlit("8");
        reveal_strlit("9");
    }
    let s = if d == 0 {
        "0"
    } else if d == 1 {
        "1"
    } else if d == 2 {
        "2"
    } else if d == 3 {
        "3"
    } else if d == 4 {
        "4"
    } else if d == 5 {
        "5"
    } else if d == 6 {
        "6"
    } else if d == 7 {
        "7"
    } else if d == 8 {
        "8"
    } else {
        "9"
    };
    assert(s@ =~= seq![digit(d as int)]);
    s
}

/// Writes `n` in decimal digits, without leading zeros.
pub fn decimal(n: u16) -> (text: String)
    ensures
        text@ == decimal_text(n as nat),
    decreases n,
{
    if n < 10 {
        digit_str(n).to_owned()
    } else {
        let mut text = decimal(n / 10);
        text.append(digit_str(n % 10));
        text
    }
}

/// The address `client_ip:port` as text.
pub fn client_addr(client_ip: &str, port: u16) -> (addr: String)
    ensures
        addr@ == client_addr_text(client_ip@, port),
{
    let mut addr = client_ip.to_owned();
    proof {
        reveal_strlit(":");
        assert(":"@ =~= seq![':']);
    }
    addr.append(":");
    addr.append(decimal(port).as_str());
    addr
}

/// A port that `rand`'s generator of the current thread drew: the call is
/// `thread_rng().gen_range(low..high)`, which panics on an empty range and
/// else returns a value of the range. Which one it returns is not stated.
#[verifier::external_body]
fn random_port(low: u16, high: u16) -> (port: u16)
    requires
        low < high,
    ensures
        low <= port < high,
{
    rand::thread_rng().gen_range(low..high)
}

/// An address for a command client on the guest `client_ip`: the guest's
/// address with a port drawn from `CLIENT_PORT_BASE` up to, not including,
/// `CLIENT_PORT_MAX`.
pub fn get_client_addr(client_ip: &str) -> (addr: String)
    ensures
        exists|port: u16|
            CLIENT_PORT_BASE <= port < CLIENT_PORT_MAX && addr@ == #[trigger] client_addr_text(
                client_ip@,
                port,
            ),
{
    let port = random_port(CLIENT_PORT_BASE, CLIENT_PORT_MAX);
    client_addr(client_ip, port)
}

} // verus!
