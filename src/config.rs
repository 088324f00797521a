use crate::pipeline::concat;
use vstd::prelude::*;

verus! {

/// A server that this instance knows by name.
pub struct RemoteServer {
    pub name: String,
    pub host: String,
    pub port: i64,
    pub node_id: Option<u64>,
    pub tls: bool,
    /// Another server whose credentials this one shares.
    pub same_auth_as: Option<String>,
}

/// This instance's own server settings.
pub struct LocalServer {
    pub host: String,
    pub port: i64,
    pub node_id: Option<u64>,
    pub tls: bool,
    pub ha_mode: bool,
}

/// Why a lookup in the configuration failed.
#[derive(Clone, Copy, Debug, PartialEq, Eq, Structural)]
pub enum ConfigError {
    /// No server has the name asked for.
    ServerNotFound,
    /// The server named by `same_auth_as` is not configured.
    AuthServerNotFound,
}

/// The decimal digit for `d`.
pub open spec fn digit_char(d: int) -> char {
    if d == 0 { '0' }
    else if d == 1 { '1' }
    else if d == 2 { '2' }
    else if d == 3 { '3' }
    else if d == 4 { '4' }
    else if d == 5 { '5' }
    else if d == 6 { '6' }
    else if d == 7 { '7' }
    else if d == 8 { '8' }
    else { '9' }
}

/// The decimal digits of `n`, without leading zeros.
pub open spec fn nat_text(n: nat) -> Seq<char>
    decreases n,
{
    if n < 10 {
        seq![digit_char(n as int)]
    } else {
        nat_text(n / 10).push(digit_char((n % 10) as int))
    }
}

/// `n` in decimal, with a leading `-` when negative.
pub open spec fn int_text(n: int) -> Seq<char> {
    if n < 0 {
        seq!['-'] + nat_text((-n) as nat)
    } else {
        nat_text(n as nat)
    }
}

fn digit_text(d: u64) -> (r: String)
    requires
        d < 10,
    ensures
        r@ == seq![digit_char(d as int)],
{
    let digits = "0123456789";
    proof {
        reveal_strlit("0123456789");
    }
    let r = String::from_str(digits.substring_char(d as usize, d as usize + 1));
    proof {
        assert(r@ =~= seq![digit_char(d as int)]);
    }
    r
}

/// `n` in decimal.
pub fn nat_to_text(n: u64) -> (r: String)
    ensures
        r@ == nat_text(n as nat),
    decreases n,
{
    if n < 10 {
        digit_text(n)
    } else {
        let mut s = nat_to_text(n / 10);
        let d = digit_text(n % 10);
        s.append(d.as_str());
        proof {
            assert(s@ =~= nat_text((n / 10) as nat).push(digit_char((n % 10) as int)));
        }
        s
    }
}

/// `n` in decimal, with a leading `-` when negative.
pub fn int_to_text(n: i64) -> (r: String)
    ensures
        r@ == int_text(n as int),
{
    if n < 0 {
        let m: u64 = if n == i64::MIN {
            9223372036854775808u64
        } else {
            (-n) as u64
        };
        let digits = nat_to_text(m);
        proof {
            reveal_strlit("-");
            assert(m as nat == (-(n as int)) as nat);
        }
        concat("-", digits.as_str())
    } else {
        nat_to_text(n as u64)
    }
}

/// The scheme of a server's WebSocket endpoints.
pub open spec fn ws_scheme(tls: bool) -> Seq<char> {
    if tls {
        "wss"@
    } else {
        "ws"@
    }
}

/// The scheme of a server's HTTP endpoints.
pub open spec fn http_scheme(tls: bool) -> Seq<char> {
    if tls {
        "https"@
    } else {
        "http"@
    }
}

pub fn ws_protocol(tls: bool) -> (r: &'static str)
    ensures
        r@ == ws_scheme(tls),
{
    if tls {
        "wss"
    } else {
        "ws"
    }
}

pub fn http_protocol(tls: bool) -> (r: &'static str)
    ensures
        r@ == http_scheme(tls),
{
    if tls {
        "https"
    } else {
        "http"
    }
}

/// `scheme://host:port`.
pub open spec fn base_url(scheme: Seq<char>, host: Seq<char>, port: int) -> Seq<char> {
    scheme + "://"@ + host + ":"@ + int_text(port)
}

pub fn base_url_of(scheme: &str, host: &str, port: i64) -> (r: String)
    ensures
        r@ == base_url(scheme@, host@, port as int),
{
    let a = concat(scheme, "://");
    let b = concat(a.as_str(), host);
    let c = concat(b.as_str(), ":");
    let p = int_to_text(port);
    concat(c.as_str(), p.as_str())
}

/// The endpoint that takes pipeline runs on a server.
pub open spec fn exec_url(s: RemoteServer) -> Seq<char> {
    base_url(ws_scheme(s.tls), s.host@, s.port as int) + "/ws-exec/"@
}

pub fn exec_url_of(s: &RemoteServer) -> (r: String)
    ensures
        r@ == exec_url(*s),
{
    let base = base_url_of(ws_protocol(s.tls), s.host.as_str(), s.port);
    concat(base.as_str(), "/ws-exec/")
}

/// The endpoint through which workers reach their supervisor.
pub open spec fn worker_url(tls: bool, host: Seq<char>, port: int) -> Seq<char> {
    base_url(ws_scheme(tls), host, port) + "/ws-worker/"@
}

pub fn worker_url_of(tls: bool, host: &str, port: i64) -> (r: String)
    ensures
        r@ == worker_url(tls, host@, port as int),
{
    let base = base_url_of(ws_protocol(tls), host, port);
    concat(base.as_str(), "/ws-worker/")
}

/// The address a listener binds: `host:port`.
pub open spec fn bind_address(host: Seq<char>, port: int) -> Seq<char> {
    host + ":"@ + int_text(port)
}

pub fn bind_address_of(host: &str, port: i64) -> (r: String)
    ensures
        r@ == bind_address(host@, port as int),
{
    let a = concat(host, ":");
    let p = int_to_text(port);
    concat(a.as_str(), p.as_str())
}

/// The first configured server named `name`.
pub open spec fn server_index(servers: Seq<RemoteServer>, name: Seq<char>) -> Option<int> {
    if exists|i: int| 0 <= i < servers.len() && servers[i].name@ == name {
        Some(
            choose|i: int|
                0 <= i < servers.len() && servers[i].name@ == name && forall|j: int|
                    0 <= j < i ==> servers[j].name@ != name,
        )
    } else {
        None
    }
}

/// Finds the first configured server named `name`.
pub fn find_server(servers: &Vec<RemoteServer>, name: &String) -> (r: Result<usize, ConfigError>)
    ensures
        r matches Ok(i) ==> i < servers@.len() && server_index(servers@, name@) == Some(i as int),
        r is Err ==> server_index(servers@, name@) is None && r == Err::<usize, ConfigError>(
            ConfigError::ServerNotFound,
        ),
{
    let mut i: usize = 0;
    while i < servers.len()
        invariant
            i <= servers@.len(),
            forall|j: int| 0 <= j < i ==> servers@[j].name@ != name@,
        decreases servers@.len() - i,
    {
        if servers[i].name == *name {
            proof {
                let w = choose|k: int|
                    0 <= k < servers@.len() && servers@[k].name@ == name@ && forall|j: int|
                        0 <= j < k ==> servers@[j].name@ != name@;
                assert(0 <= i < servers@.len() && servers@[i as int].name@ == name@ && forall|j: int|
                    0 <= j < i ==> servers@[j].name@ != name@);
                if w < i {
                    assert(servers@[w].name@ != name@);
                } else if w > i {
                    assert(servers@[i as int].name@ != name@);
                }
            }
            return Ok(i);
        }
        i = i + 1;
    }
    Err(ConfigError::ServerNotFound)
}

/// The server whose credentials a connection to server `name` uses: the one
/// its `same_auth_as` names, or the server itself.
pub open spec fn auth_server(servers: Seq<RemoteServer>, name: Seq<char>) -> Result<
    int,
    ConfigError,
> {
    match server_index(servers, name) {
        None => Err(ConfigError::ServerNotFound),
        Some(i) => match servers[i].same_auth_as {
            None => Ok(i),
            Some(other) => match server_index(servers, other@) {
                Some(j) => Ok(j),
                None => Err(ConfigError::AuthServerNotFound),
            },
        },
    }
}

/// Resolves which server a connection to `name` authenticates as.
pub fn find_auth_server(servers: &Vec<RemoteServer>, name: &String) -> (r: Result<
    usize,
    ConfigError,
>)
    ensures
        r matches Ok(i) ==> i < servers@.len() && auth_server(servers@, name@) == Ok::<
            int,
            ConfigError,
        >(i as int),
        r matches Err(e) ==> auth_server(servers@, name@) == Err::<int, ConfigError>(e),
{
    let i = find_server(servers, name)?;
    match &servers[i].same_auth_as {
        None => Ok(i),
        Some(other) => match find_server(servers, other) {
            Ok(j) => Ok(j),
            Err(_) => Err(ConfigError::AuthServerNotFound),
        },
    }
}

} // verus!
