//! Server settings, as plain data with their defaults; reading them from
//! files or the environment is the embedding program's business.

use vstd::prelude::*;
use vstd::string::StringExecFns;

verus! {

/// RPC connection settings.
#[derive(Clone, Copy, Debug, PartialEq, Eq, Structural)]
pub struct Rpc {
    /// After this many milliseconds without a heartbeat the client is
    /// considered idle and its connection is closed.
    pub idle_timeout_ms: u64,
    /// How long a lost connection may reconnect, in milliseconds.
    pub reconnect_timeout_ms: u64,
}

impl Default for Rpc {
    /// Ten seconds of idleness, ten seconds of reconnect grace.
    fn default() -> (r: Self)
        ensures
            r.idle_timeout_ms == 10000,
            r.reconnect_timeout_ms == 10000,
    {
        Rpc { idle_timeout_ms: 10000, reconnect_timeout_ms: 10000 }
    }
}

/// Where a listener binds.
#[derive(Clone, Debug, PartialEq, Eq)]
pub struct HttpListener {
    /// The IP to bind to, as text.
    pub bind_ip: String,
    /// The port to bind to.
    pub bind_port: u16,
}

impl HttpListener {
    /// The bind address, as `ip:port` text with the port in decimal.
    pub fn bind_addr(&self) -> (r: String)
        ensures
            r@ == self.bind_ip@ + ":"@ + decimal_digits(self.bind_port as int),
    {
        let mut out = self.bind_ip.clone();
        out.append(":");
        let port = u16_to_string(self.bind_port);
        out.append(port.as_str());
        out
    }
}

/// The decimal digit character of one digit value.
pub open spec fn digit_char(d: int) -> char {
    if d == 0 {
        '0'
    } else if d == 1 {
        '1'
    } else if d == 2 {
        '2'
    } else if d == 3 {
        '3'
    } else if d == 4 {
        '4'
    } else if d == 5 {
        '5'
    } else if d == 6 {
        '6'
    } else if d == 7 {
        '7'
    } else if d == 8 {
        '8'
    } else {
        '9'
    }
}

/// The decimal digits of a number, most significant first.
pub open spec fn decimal_digits(n: int) -> Seq<char>
    decreases n,
{
    if n < 10 {
        seq![digit_char(n)]
    } else {
        decimal_digits(n / 10).push(digit_char(n % 10))
    }
}

/// The digits of a number, in decimal.
fn u16_to_string(n: u16) -> (r: String)
    ensures
        r@ == decimal_digits(n as int),
    decreases n,
{
    proof {
        reveal_strlit("0");
        reveal_strlit("1");
        reveal_strlit("2");
        reveal_strlit("3");
        reveal_strlit("4");
        reveal_strlit("5");
        reveal_strlit("6");
        reveal_strlit("7");
        reveal_strlit("8");
        reveal_strlit("9");
    }
    let d = (n % 10) as u8;
    let ds = match d {
        0 => "0",
        1 => "1",
        2 => "2",
        3 => "3",
        4 => "4",
        5 => "5",
        6 => "6",
        7 => "7",
        8 => "8",
        _ => "9",
    };
    proof {
        assert(ds@ =~= seq![digit_char((n % 10) as int)]);
    }
    if n >= 10 {
        let mut out = u16_to_string(n / 10);
        out.append(ds);
        proof {
            assert(out@ =~= decimal_digits(n as int));
        }
        out
    } else {
        ds.to_owned()
    }
}

/// gRPC listener settings.
#[derive(Clone, Debug, PartialEq, Eq)]
pub struct GrpcListener {
    /// The IP to bind to, as text.
    pub bind_ip: String,
    /// The port to bind to.
    pub bind_port: u16,
    /// How many completion queues the server runs.
    pub completion_queue_count: u32,
}

/// Client API server settings.
#[derive(Clone, Debug, PartialEq, Eq)]
pub struct ClientApiServer {
    /// The HTTP listener the clients connect to.
    pub http: HttpListener,
    /// The public URL under which the server is reachable.
    pub public_url: String,
}

/// Control API server settings.
#[derive(Clone, Debug, PartialEq, Eq)]
pub struct ControlApiServer {
    /// The gRPC listener the Control API serves on.
    pub grpc: GrpcListener,
}

/// Settings of both servers.
#[derive(Clone, Debug, PartialEq, Eq)]
pub struct Server {
    /// The Client API server.
    pub client: ClientApiServer,
    /// The Control API server.
    pub control: ControlApiServer,
}

/// All settings of the process.
#[derive(Clone, Debug, PartialEq, Eq)]
pub struct Settings {
    /// Server settings.
    pub server: Server,
    /// RPC connection settings.
    pub rpc: Rpc,
}

impl Default for Settings {
    /// The defaults: both listeners on every interface, the Client API on
    /// its usual port, one completion queue, default RPC timing.
    fn default() -> (r: Self)
        ensures
            r.server.client.http.bind_port == 8080,
            r.server.control.grpc.bind_port == 6565,
            r.rpc.idle_timeout_ms == 10000,
            r.rpc.reconnect_timeout_ms == 10000,
    {
        Settings {
            server: Server {
                client: ClientApiServer {
                    http: HttpListener { bind_ip: String::from_str("0.0.0.0"), bind_port: 8080 },
                    public_url: String::from_str("ws://0.0.0.0:8080"),
                },
                control: ControlApiServer {
                    grpc: GrpcListener {
                        bind_ip: String::from_str("0.0.0.0"),
                        bind_port: 6565,
                        completion_queue_count: 2,
                    },
                },
            },
            rpc: Rpc { idle_timeout_ms: 10000, reconnect_timeout_ms: 10000 },
        }
    }
}

} // verus!
