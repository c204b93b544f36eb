//! Addresses of TCP and Unix sockets.

use vstd::prelude::*;

verus! {

/// An IP address.
#[derive(Clone, Copy, Debug, PartialEq, Eq, Structural)]
pub enum Ip {
    V4(u32),
    V6(u128),
}

/// An address of a socket. The last two fields only mean something for version 6 of IP, and
/// are 0 otherwise.
#[derive(Clone, Copy, Debug, PartialEq, Eq, Structural)]
pub struct SockAddr {
    pub ip: Ip,
    pub port: u16,
    pub flowinfo: u32,
    pub scope_id: u32,
}

/// An address: of a socket, or a path.
#[derive(Debug)]
pub enum UnifyAddr {
    Socket(SockAddr),
    Path(String),
}

/// An address: of a socket, or a path.
pub enum AddrSpec {
    Socket(SockAddr),
    Path(Seq<char>),
}

impl View for UnifyAddr {
    type V = AddrSpec;

    open spec fn view(&self) -> AddrSpec {
        match self {
            UnifyAddr::Socket(a) => AddrSpec::Socket(*a),
            UnifyAddr::Path(p) => AddrSpec::Path(p@),
        }
    }
}

/// What becomes of a string that is to be an address.
#[derive(Debug)]
pub enum AddrStep {
    Addr(UnifyAddr),
    /// It is the name of a host, and has to be resolved.
    Resolve,
}

/// Whether a string is a path: it starts with a slash.
pub open spec fn is_path(s: Seq<char>) -> bool {
    s.len() > 0 && s[0] == '/'
}

/// What two addresses are compared by.
#[derive(Clone, Copy, Debug, PartialEq, Eq, Structural)]
pub struct ParsedAddr {
    /// The string as an address of a socket, if it is one.
    pub socket: Option<SockAddr>,
    /// The string as an IP address, if it is one.
    pub ip: Option<Ip>,
    /// Whether the string is the same path as the address, if that is one.
    pub same_path: bool,
}

impl UnifyAddr {
    /// What a string stands for: a path, or the address of a socket if it is `parsed` as one,
    /// or the name of a host.
    pub fn from_str(s: &str, parsed: Option<SockAddr>) -> (r: AddrStep)
        requires
            s@.len() > 0,
        ensures
            if is_path(s@) {
                r matches AddrStep::Addr(a) && a@ == AddrSpec::Path(s@)
            } else {
                match parsed {
                    Some(p) => r matches AddrStep::Addr(a) && a@ == AddrSpec::Socket(p),
                    None => r is Resolve,
                }
            },
    {
        if s.get_char(0) == '/' {
            return AddrStep::Addr(UnifyAddr::Path(s.to_owned()));
        }
        match parsed {
            Some(a) => AddrStep::Addr(UnifyAddr::Socket(a)),
            None => AddrStep::Resolve,
        }
    }

    /// The address of the host whose name was resolved: the first one found, if any.
    pub fn from_resolved(found: &Vec<SockAddr>) -> (r: Option<UnifyAddr>)
        ensures
            if found@.len() > 0 {
                r matches Some(a) && a@ == AddrSpec::Socket(found@[0])
            } else {
                r is None
            },
    {
        if found.len() > 0 {
            Some(UnifyAddr::Socket(found[0]))
        } else {
            None
        }
    }

    /// Whether a string means this address. An IP address without a port means any port of it.
    pub fn eq_str(&self, other: ParsedAddr) -> (r: bool)
        ensures
            r == match self@ {
                AddrSpec::Socket(a) => match (other.socket, other.ip) {
                    (Some(s), _) => a == s,
                    (None, Some(ip)) => a.ip == ip,
                    (None, None) => false,
                },
                AddrSpec::Path(_) => other.same_path,
            },
    {
        match self {
            UnifyAddr::Socket(a) => match other.socket {
                Some(s) => *a == s,
                None => match other.ip {
                    Some(ip) => a.ip == ip,
                    None => false,
                },
            },
            UnifyAddr::Path(_) => other.same_path,
        }
    }
}

/// One thing to do for listening on a path.
#[derive(Debug)]
pub enum BindStep {
    Remove(String),
    Listen(String),
    /// Make the first path another name of the second one.
    Link { path: String, target: String },
    /// Let everybody read and write.
    Permit { path: String, mode: u32 },
}

/// One thing to do for listening on a path.
pub enum BindSpec {
    Remove(Seq<char>),
    Listen(Seq<char>),
    Link { path: Seq<char>, target: Seq<char> },
    Permit { path: Seq<char>, mode: u32 },
}

impl View for BindStep {
    type V = BindSpec;

    open spec fn view(&self) -> BindSpec {
        match self {
            BindStep::Remove(p) => BindSpec::Remove(p@),
            BindStep::Listen(p) => BindSpec::Listen(p@),
            BindStep::Link { path, target } => BindSpec::Link { path: path@, target: target@ },
            BindStep::Permit { path, mode } => BindSpec::Permit { path: path@, mode: *mode },
        }
    }
}

/// The path on which a listener is set up first, before it gets its name.
pub open spec fn dup_path(path: Seq<char>) -> Seq<char> {
    path + "_dup"@
}

/// What to do for listening on a path, in order.
pub open spec fn bind_plan(path: Seq<char>, exists: bool, dup_exists: bool) -> Seq<BindSpec> {
    let dup = dup_path(path);
    let clear = if exists {
        seq![BindSpec::Remove(path)]
    } else {
        Seq::empty()
    };
    let clear_dup = if dup_exists {
        seq![BindSpec::Remove(dup)]
    } else {
        Seq::empty()
    };
    clear + clear_dup + seq![
        BindSpec::Listen(dup),
        BindSpec::Link { path, target: dup },
        BindSpec::Permit { path, mode: 0o666 },
    ]
}

/// The path on which a listener is set up first, before it gets its name.
pub fn listen_path(path: &str) -> (r: String)
    ensures
        r@ == dup_path(path@),
{
    let mut dup: String = path.to_owned();
    dup.append("_dup");
    dup
}

/// What to do for listening on a path, in order, given which of the two paths exist. The first
/// thing that fails ends it.
pub fn bind_steps(path: &str, exists: bool, dup_exists: bool) -> (r: Vec<BindStep>)
    ensures
        r@.map_values(|s: BindStep| s@) == bind_plan(path@, exists, dup_exists),
{
    let mut r: Vec<BindStep> = Vec::new();
    if exists {
        r.push(BindStep::Remove(path.to_owned()));
    }
    if dup_exists {
        r.push(BindStep::Remove(listen_path(path)));
    }
    r.push(BindStep::Listen(listen_path(path)));
    r.push(BindStep::Link { path: path.to_owned(), target: listen_path(path) });
    r.push(BindStep::Permit { path: path.to_owned(), mode: 0o666 });
    assert(r@.map_values(|s: BindStep| s@) =~= bind_plan(path@, exists, dup_exists));
    r
}

/// A listener or a connection as text: its own address where it has one, and else only what it
/// is.
pub fn describe_socket(tcp: bool, local_addr: Option<&str>) -> (r: String)
    ensures
        r@ == match local_addr {
            Some(a) => "listener "@ + a@,
            None => if tcp {
                "tcp listener unknown"@
            } else {
                "unix listener unknown"@
            },
        },
{
    match local_addr {
        Some(a) => {
            let mut s: String = "listener ".to_owned();
            s.append(a);
            s
        },
        None => if tcp {
            "tcp listener unknown".to_owned()
        } else {
            "unix listener unknown".to_owned()
        },
    }
}

/// How large the buffer of a connection is where the configuration says nothing.
pub const DEFAULT_BUF_SIZE: usize = 8192;

/// How large the buffer of a connection is.
pub fn stream_buf_size(configured: usize) -> (r: usize)
    ensures
        r == if configured == 0 {
            DEFAULT_BUF_SIZE
        } else {
            configured
        },
{
    if configured == 0 {
        DEFAULT_BUF_SIZE
    } else {
        configured
    }
}

} // verus!
