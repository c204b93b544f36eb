//! Endpoints and connections of QUIC.

use crate::error::{bytes_eq, RpcIntErr};
use crate::text::{decimal, push_decimal};
use vstd::prelude::*;

verus! {

/// What is read from a URL: the host, the port, and the pairs of the query.
pub type UrlSpec = (Option<Seq<char>>, Option<u16>, Seq<(Seq<char>, Seq<char>)>);

/// What `url::Url::parse` makes of a string: what its host, port and query are, or `None`
/// where it is no URL.
pub uninterp spec fn url_parsed(s: Seq<char>) -> Option<UrlSpec>;

/// What is read from a URL.
#[derive(Debug)]
pub struct UrlParts {
    pub host: Option<String>,
    pub port: Option<u16>,
    pub query: Vec<(String, String)>,
}

impl View for UrlParts {
    type V = UrlSpec;

    open spec fn view(&self) -> UrlSpec {
        (
            match self.host {
                Some(h) => Some(h@),
                None => None,
            },
            self.port,
            self.query@.map_values(|p: (String, String)| (p.0@, p.1@)),
        )
    }
}

/// `url::Url::parse`, with what `host_str`, `port` and `query_pairs` say of the result.
#[verifier::external_body]
fn url_parse(s: &str) -> (r: Option<UrlParts>)
    ensures
        match url_parsed(s@) {
            Some(p) => r matches Some(u) && u@ == p,
            None => r is None,
        },
{
    url::Url::parse(s).ok().map(
        |u| UrlParts {
            host: u.host_str().map(|h| h.to_string()),
            port: u.port(),
            query: u.query_pairs().into_owned().collect(),
        },
    )
}

/// Why a URL is no endpoint.
#[derive(Clone, Copy, Debug, PartialEq, Eq, Structural)]
pub enum EndpointError {
    NoUrl,
    MissingHost,
    MissingPort,
    MissingCert,
    MissingKey,
}

/// The host and the port of an endpoint.
#[derive(Debug)]
pub struct Endpoint {
    pub host: String,
    /// Host and port together, as a socket takes them.
    pub sock_addr: String,
}

/// Where a server listens, and the files that identify it.
#[derive(Debug)]
pub struct ListenEndpoint {
    pub sock_addr: String,
    pub cert_path: String,
    pub key_path: String,
}

/// Host and port together, as a socket takes them.
pub open spec fn host_port(host: Seq<char>, port: u16) -> Seq<char> {
    host + ":"@ + decimal(port as nat)
}

/// Whether `v` is the value of `key` in a query: that of the last pair with this key.
pub open spec fn query_value(
    query: Seq<(Seq<char>, Seq<char>)>,
    key: Seq<char>,
    v: Option<Seq<char>>,
) -> bool {
    match v {
        Some(v) => exists|i: int|
            #![trigger query[i]]
            0 <= i < query.len() && query[i] == (key, v) && forall|j: int|
                i < j < query.len() ==> (#[trigger] query[j]).0 != key,
        None => forall|i: int| 0 <= i < query.len() ==> (#[trigger] query[i]).0 != key,
    }
}

/// Whether `r` is where to connect for a URL.
pub open spec fn is_endpoint(url: Option<UrlSpec>, r: Result<Endpoint, EndpointError>) -> bool {
    match url {
        None => r == Err::<Endpoint, EndpointError>(EndpointError::NoUrl),
        Some((None, _, _)) => r == Err::<Endpoint, EndpointError>(EndpointError::MissingHost),
        Some((Some(_), None, _)) => r == Err::<Endpoint, EndpointError>(EndpointError::MissingPort),
        Some((Some(h), Some(p), _)) => r matches Ok(e) && e.host@ == h && e.sock_addr@
            == host_port(h, p),
    }
}

/// Whether `r` is where to listen for a URL: its host and port, with the files that `cert` and
/// `key` of its query name.
pub open spec fn is_listen_endpoint(
    url: Option<UrlSpec>,
    r: Result<ListenEndpoint, EndpointError>,
) -> bool {
    match url {
        None => r == Err::<ListenEndpoint, EndpointError>(EndpointError::NoUrl),
        Some((None, _, _)) => r == Err::<ListenEndpoint, EndpointError>(EndpointError::MissingHost),
        Some((Some(_), None, _)) => r == Err::<ListenEndpoint, EndpointError>(
            EndpointError::MissingPort,
        ),
        Some((Some(h), Some(p), q)) => match r {
            Ok(e) => {
                &&& e.sock_addr@ == host_port(h, p)
                &&& query_value(q, "cert"@, Some(e.cert_path@))
                &&& query_value(q, "key"@, Some(e.key_path@))
            },
            Err(EndpointError::MissingCert) => query_value(q, "cert"@, None),
            Err(EndpointError::MissingKey) => !query_value(q, "cert"@, None) && query_value(
                q,
                "key"@,
                None,
            ),
            Err(_) => false,
        },
    }
}

/// The value of `key` in a query: that of the last pair with this key.
fn find_query(query: &Vec<(String, String)>, key: &str) -> (r: Option<String>)
    ensures
        query_value(
            query@.map_values(|p: (String, String)| (p.0@, p.1@)),
            key@,
            match r {
                Some(v) => Some(v@),
                None => None,
            },
        ),
{
    let ghost q = query@.map_values(|p: (String, String)| (p.0@, p.1@));
    let mut i: usize = query.len();
    while i > 0
        invariant
            i <= query@.len() == q.len(),
            q == query@.map_values(|p: (String, String)| (p.0@, p.1@)),
            forall|j: int| i <= j < q.len() ==> (#[trigger] q[j]).0 != key@,
        decreases i,
    {
        i -= 1;
        let k = key.to_owned();
        if query[i].0 == k {
            let v = query[i].1.as_str().to_owned();
            assert(q[i as int] == (key@, v@));
            return Some(v);
        }
        assert(q[i as int].0 == query@[i as int].0@);
    }
    None
}

/// Where to connect, given what was read from a URL.
pub fn endpoint_of(url: Option<UrlParts>) -> (r: Result<Endpoint, EndpointError>)
    ensures
        is_endpoint(
            match url {
                Some(u) => Some(u@),
                None => None,
            },
            r,
        ),
{
    let url = match url {
        Some(u) => u,
        None => {
            return Err(EndpointError::NoUrl);
        },
    };
    let host = match url.host {
        Some(h) => h,
        None => {
            return Err(EndpointError::MissingHost);
        },
    };
    let port: u16 = match url.port {
        Some(p) => p,
        None => {
            return Err(EndpointError::MissingPort);
        },
    };
    let mut sock_addr: String = host.as_str().to_owned();
    sock_addr.append(":");
    push_decimal(&mut sock_addr, port as u64);
    Ok(Endpoint { host, sock_addr })
}

/// Where to listen, given what was read from a URL.
pub fn listen_endpoint_of(url: Option<UrlParts>) -> (r: Result<ListenEndpoint, EndpointError>)
    ensures
        is_listen_endpoint(
            match url {
                Some(u) => Some(u@),
                None => None,
            },
            r,
        ),
{
    let url = match url {
        Some(u) => u,
        None => {
            return Err(EndpointError::NoUrl);
        },
    };
    let host = match url.host {
        Some(h) => h,
        None => {
            return Err(EndpointError::MissingHost);
        },
    };
    let port: u16 = match url.port {
        Some(p) => p,
        None => {
            return Err(EndpointError::MissingPort);
        },
    };
    let ghost q = url.query@.map_values(|p: (String, String)| (p.0@, p.1@));
    let cert_path = match find_query(&url.query, "cert") {
        Some(c) => c,
        None => {
            return Err(EndpointError::MissingCert);
        },
    };
    proof {
        let i = choose|i: int|
            #![trigger q[i]]
            0 <= i < q.len() && q[i] == ("cert"@, cert_path@);
        assert(q[i].0 == "cert"@);
        assert(!query_value(q, "cert"@, None));
    }
    let key_path = match find_query(&url.query, "key") {
        Some(k) => k,
        None => {
            return Err(EndpointError::MissingKey);
        },
    };
    let mut sock_addr: String = host;
    sock_addr.append(":");
    push_decimal(&mut sock_addr, port as u64);
    Ok(ListenEndpoint { sock_addr, cert_path, key_path })
}

/// Where to connect for a URL.
pub fn connect_endpoint(addr: &str) -> (r: Result<Endpoint, EndpointError>)
    ensures
        is_endpoint(url_parsed(addr@), r),
{
    endpoint_of(url_parse(addr))
}

/// Where to listen for a URL.
pub fn bind_endpoint(addr: &str) -> (r: Result<ListenEndpoint, EndpointError>)
    ensures
        is_listen_endpoint(url_parsed(addr@), r),
{
    listen_endpoint_of(url_parse(addr))
}

/// The connections that a listener has, by their IDs.
pub struct QuicClients {
    ids: Vec<Vec<u8>>,
}

/// What a listener does with a packet.
#[derive(Clone, Copy, Debug, PartialEq, Eq, Structural)]
pub enum PacketStep {
    /// Nothing.
    Ignore,
    /// Make a connection with this number for it, then feed it to that.
    Accept(usize),
    /// Feed it to the connection with this number.
    Feed(usize),
}

/// What a listener does after it has fed a packet to a connection.
#[derive(Clone, Copy, Debug, PartialEq, Eq, Structural)]
pub enum FedStep {
    /// Hand out this stream of the connection.
    Stream(u64),
    /// Send what all connections have to send, then wait for the next packet.
    SendAll,
}

/// The head of a packet, as far as it matters here.
#[derive(Debug)]
pub struct PacketHead {
    /// The ID of the connection that the packet is for.
    pub dcid: Vec<u8>,
    /// Whether the packet is the first one of a connection.
    pub initial: bool,
}

impl QuicClients {
    /// The IDs of the connections.
    pub closed spec fn view(&self) -> Seq<Seq<u8>> {
        self.ids@.map_values(|v: Vec<u8>| v@)
    }

    pub fn new() -> (r: QuicClients)
        ensures
            r@ == Seq::<Seq<u8>>::empty(),
    {
        let r = QuicClients { ids: Vec::new() };
        assert(r@ =~= Seq::<Seq<u8>>::empty());
        r
    }

    fn find(&self, id: &Vec<u8>) -> (r: Option<usize>)
        ensures
            match r {
                Some(i) => i < self@.len() && self@[i as int] == id@,
                None => !self@.contains(id@),
            },
    {
        let mut i: usize = 0;
        while i < self.ids.len()
            invariant
                i <= self.ids@.len(),
                self@.len() == self.ids@.len(),
                forall|j: int| 0 <= j < i ==> #[trigger] self@[j] != id@,
            decreases self.ids@.len() - i,
        {
            assert(self@[i as int] == self.ids@[i as int]@);
            if bytes_eq(self.ids[i].as_slice(), id.as_slice()) {
                return Some(i);
            }
            i += 1;
        }
        None
    }

    /// Decides about a packet, of which `head` is the head if it has one. A connection starts
    /// with an initial packet and with no other. No two connections have the same ID.
    pub fn packet(&mut self, head: Option<PacketHead>) -> (r: PacketStep)
        ensures
            old(self)@.no_duplicates() ==> final(self)@.no_duplicates(),
            match head {
                None => r is Ignore && final(self)@ == old(self)@,
                Some(h) => if old(self)@.contains(h.dcid@) {
                    &&& r matches PacketStep::Feed(i)
                    &&& i < old(self)@.len()
                    &&& old(self)@[i as int] == h.dcid@
                    &&& final(self)@ == old(self)@
                } else if h.initial {
                    &&& r == PacketStep::Accept(old(self)@.len() as usize)
                    &&& final(self)@ == old(self)@.push(h.dcid@)
                } else {
                    r is Ignore && final(self)@ == old(self)@
                },
            },
    {
        match head {
            None => PacketStep::Ignore,
            Some(h) => match self.find(&h.dcid) {
                Some(i) => PacketStep::Feed(i),
                None => {
                    if !h.initial {
                        return PacketStep::Ignore;
                    }
                    let i: usize = self.ids.len();
                    self.ids.push(h.dcid);
                    assert(self@ =~= old(self)@.push(h.dcid@));
                    PacketStep::Accept(i)
                },
            },
        }
    }
}

/// Decides about a connection that was fed a packet: its first readable stream is handed out,
/// once it is established.
pub fn fed(established: bool, readable: Option<u64>) -> (r: FedStep)
    ensures
        r == match readable {
            Some(id) => if established {
                FedStep::Stream(id)
            } else {
                FedStep::SendAll
            },
            None => FedStep::SendAll,
        },
{
    match readable {
        Some(id) => {
            if established {
                FedStep::Stream(id)
            } else {
                FedStep::SendAll
            }
        },
        None => FedStep::SendAll,
    }
}

/// What came of reading the head of a response from a stream.
#[derive(Clone, Copy, Debug, PartialEq, Eq, Structural)]
pub enum HeadRead {
    Done,
    /// There is not enough data yet.
    WouldBlock,
    Failed,
    TimedOut,
}

/// What to do after reading the head of a response.
#[derive(Clone, Copy, Debug, PartialEq, Eq, Structural)]
pub enum HeadStep {
    Response,
    /// Take a packet from the socket, feed it to the connection, then try again.
    ReadSocket,
    Fail(RpcIntErr),
}

/// Decides about a stream from which the head of a response was to be read.
pub fn head_step(read: HeadRead) -> (r: HeadStep)
    ensures
        r == match read {
            HeadRead::Done => HeadStep::Response,
            HeadRead::WouldBlock => HeadStep::ReadSocket,
            HeadRead::Failed => HeadStep::Fail(RpcIntErr::IO),
            HeadRead::TimedOut => HeadStep::Fail(RpcIntErr::Timeout),
        },
{
    match read {
        HeadRead::Done => HeadStep::Response,
        HeadRead::WouldBlock => HeadStep::ReadSocket,
        HeadRead::Failed => HeadStep::Fail(RpcIntErr::IO),
        HeadRead::TimedOut => HeadStep::Fail(RpcIntErr::Timeout),
    }
}

} // verus!
