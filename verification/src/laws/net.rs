//! Addresses, and connections by their IDs.

use crate::error::{bytes_eq, bytes_start_with, RpcIntErr};
use crate::text::{decimal, digit, push_decimal, push_signed, signed_decimal};
use crate::transport::net::{
    bind_steps, listen_path, stream_buf_size, AddrStep, BindStep, ParsedAddr, SockAddr, UnifyAddr,
};
use crate::transport::quic::{
    bind_endpoint, connect_endpoint, endpoint_of, fed, head_step, listen_endpoint_of, url_parsed,
    Endpoint, EndpointError, FedStep, HeadRead, HeadStep, ListenEndpoint, PacketHead, PacketStep,
    QuicClients, UrlParts,
};
use vstd::prelude::*;

verus! {

/// What a string stands for: with a slash in front a path, which is the string itself; else the
/// address that it parses as; and else the name of a host.
pub proof fn lemma_string_is_address(s: &str, parsed: Option<SockAddr>, r: AddrStep)
    requires
        s@.len() > 0,
        call_ensures(UnifyAddr::from_str, (s, parsed), r),
    ensures
        s@[0] == '/' <==> (r matches AddrStep::Addr(UnifyAddr::Path(_))),
        s@[0] == '/' ==> r->Addr_0->Path_0@ == s@,
        s@[0] != '/' && parsed is Some ==> r == AddrStep::Addr(UnifyAddr::Socket(parsed->0)),
        s@[0] != '/' && parsed is None <==> r is Resolve,
{
}

/// Of the addresses of a host the first is taken, and there is none where none was found.
pub proof fn lemma_host_has_address(found: Vec<SockAddr>, r: Option<UnifyAddr>)
    requires
        call_ensures(UnifyAddr::from_resolved, (&found,), r),
    ensures
        found@.len() == 0 <==> r is None,
        found@.len() > 0 ==> r == Some(UnifyAddr::Socket(found@[0])),
{
}

/// When a string means an address: the same socket; or, where the string has no port, the same IP
/// address; or the same path. A string that is no address at all means no socket.
pub proof fn lemma_same_address(a: UnifyAddr, other: ParsedAddr, r: bool)
    requires
        call_ensures(UnifyAddr::eq_str, (&a, other), r),
    ensures
        a matches UnifyAddr::Socket(s) ==> {
            &&& other.socket is Some ==> (r <==> other.socket == Some(s))
            &&& other.socket is None ==> (r <==> other.ip == Some(s.ip))
        },
        a is Path ==> (r <==> other.same_path),
{
}

/// The path on which a listener is set up first is the name with `_dup` behind it.
pub proof fn lemma_listen_path(path: &str, r: String)
    requires
        call_ensures(listen_path, (path,), r),
    ensures
        r@.len() == path@.len() + 4,
        r@.subrange(0, path@.len() as int) == path@,
        r@ != path@,
        r@[path@.len() as int] == '_' && r@[path@.len() as int + 1] == 'd' && r@[path@.len() as int
            + 2] == 'u' && r@[path@.len() as int + 3] == 'p',
{
    reveal_strlit("_dup");
    assert(r@.subrange(0, path@.len() as int) =~= path@);
}

/// For listening on a path, what is in the way is removed first, and only that; then the listener
/// is set up under another name, gets its own name, and is open to everybody, in this order.
pub proof fn lemma_listening_on_path(path: &str, found: bool, dup_found: bool, r: Vec<BindStep>)
    requires
        call_ensures(bind_steps, (path, found, dup_found), r),
    ensures
        ({
            let a: int = if found {
                1
            } else {
                0
            };
            let n: int = a + if dup_found {
                1int
            } else {
                0
            };
            let dup = path@ + "_dup"@;
            &&& r@.len() == n + 3
            &&& found ==> (r@[0] matches BindStep::Remove(p) && p@ == path@)
            &&& dup_found ==> (r@[a] matches BindStep::Remove(p) && p@ == dup)
            &&& (r@[n] matches BindStep::Listen(p) && p@ == dup)
            &&& (r@[n + 1] matches BindStep::Link { path: p, target: t } && p@ == path@ && t@ == dup)
            &&& (r@[n + 2] matches BindStep::Permit { path: p, mode: m } && p@ == path@ && m
                == 0o666)
        }),
{
    let views = r@.map_values(|s: BindStep| s@);
    assert(views.len() == r@.len());
    assert(forall|i: int| 0 <= i < r@.len() ==> views[i] == (#[trigger] r@[i])@);
}

/// The buffer of a connection is as large as configured, or 8192 bytes; it is never empty.
pub proof fn lemma_buffer_size(configured: usize, r: usize)
    requires
        call_ensures(stream_buf_size, (configured,), r),
    ensures
        r > 0,
        configured > 0 ==> r == configured,
        configured == 0 ==> r == 8192,
{
}

/// The number that a string of digits stands for.
pub open spec fn value(s: Seq<char>) -> int
    decreases s.len(),
{
    if s.len() == 0 {
        0
    } else {
        value(s.drop_last()) * 10 + (s.last() as int - '0' as int)
    }
}

/// A number in decimal notation stands for this number, has digits only, and no zero in front.
pub proof fn lemma_decimal(n: nat)
    ensures
        decimal(n).len() > 0,
        value(decimal(n)) == n,
        forall|i: int| 0 <= i < decimal(n).len() ==> '0' <= #[trigger] decimal(n)[i] <= '9',
        n > 0 ==> decimal(n)[0] != '0',
    decreases n,
{
    reveal_with_fuel(value, 2);
    if n < 10 {
        let s = seq![digit(n as int)];
        assert(s.drop_last() =~= Seq::<char>::empty());
        assert(s.last() == digit(n as int));
    } else {
        lemma_decimal(n / 10);
        let head = decimal(n / 10);
        let s = head.push(digit((n % 10) as int));
        assert(s.drop_last() =~= head);
        assert forall|i: int| 0 <= i < s.len() implies '0' <= #[trigger] s[i] <= '9' by {
            if i < head.len() {
                assert(s[i] == head[i]);
            }
        }
    }
}

/// A number is appended in decimal notation: what is added stands for it, with a minus in front
/// where it is negative.
pub proof fn lemma_numbers_in_text(n: u64, m: i64)
    ensures
        forall|s: &mut String| #[trigger]
            call_ensures(push_decimal, (s, n), ()) ==> {
                let added = (*final(s))@.subrange((*s)@.len() as int, (*final(s))@.len() as int);
                &&& (*final(s))@.len() > (*s)@.len()
                &&& (*final(s))@.subrange(0, (*s)@.len() as int) == (*s)@
                &&& value(added) == n
            },
        forall|s: &mut String| #[trigger]
            call_ensures(push_signed, (s, m), ()) ==> {
                let added = (*final(s))@.subrange((*s)@.len() as int, (*final(s))@.len() as int);
                &&& (*final(s))@.len() > (*s)@.len()
                &&& (*final(s))@.subrange(0, (*s)@.len() as int) == (*s)@
                &&& m >= 0 ==> value(added) == m
                &&& m < 0 ==> added[0] == '-' && value(added.subrange(1, added.len() as int)) == -m
            },
{
    assert forall|s: &mut String| #[trigger] call_ensures(push_decimal, (s, n), ()) implies {
        let added = (*final(s))@.subrange((*s)@.len() as int, (*final(s))@.len() as int);
        &&& (*final(s))@.len() > (*s)@.len()
        &&& (*final(s))@.subrange(0, (*s)@.len() as int) == (*s)@
        &&& value(added) == n
    } by {
        lemma_decimal(n as nat);
        let added = (*final(s))@.subrange((*s)@.len() as int, (*final(s))@.len() as int);
        assert(added =~= decimal(n as nat));
        assert((*final(s))@.subrange(0, (*s)@.len() as int) =~= (*s)@);
    }
    assert forall|s: &mut String| #[trigger] call_ensures(push_signed, (s, m), ()) implies {
        let added = (*final(s))@.subrange((*s)@.len() as int, (*final(s))@.len() as int);
        &&& (*final(s))@.len() > (*s)@.len()
        &&& (*final(s))@.subrange(0, (*s)@.len() as int) == (*s)@
        &&& m >= 0 ==> value(added) == m
        &&& m < 0 ==> added[0] == '-' && value(added.subrange(1, added.len() as int)) == -m
    } by {
        reveal_strlit("-");
        let added = (*final(s))@.subrange((*s)@.len() as int, (*final(s))@.len() as int);
        assert(added =~= signed_decimal(m as int));
        assert((*final(s))@.subrange(0, (*s)@.len() as int) =~= (*s)@);
        if m < 0 {
            let p = (-(m as int)) as nat;
            lemma_decimal(p);
            assert(added.subrange(1, added.len() as int) =~= decimal(p));
        } else {
            lemma_decimal(m as nat);
        }
    }
}

/// A URL is an endpoint exactly if it has a host and a port; the address for a socket is the
/// host, a colon and the number of the port.
pub proof fn lemma_url_is_endpoint(url: Option<UrlParts>, r: Result<Endpoint, EndpointError>)
    requires
        call_ensures(endpoint_of, (url,), r),
    ensures
        r is Ok <==> url is Some && url->0.host is Some && url->0.port is Some,
        r matches Err(e) ==> {
            &&& e is NoUrl <==> url is None
            &&& e is MissingHost <==> url is Some && url->0.host is None
            &&& e is MissingPort <==> url is Some && url->0.host is Some && url->0.port is None
        },
        r matches Ok(e) ==> {
            let h = url->0.host->0@;
            &&& e.host@ == h
            &&& is_host_port(e.sock_addr@, h, url->0.port->0)
        },
{
    if let Ok(e) = r {
        lemma_host_port(url->0.host->0@, url->0.port->0);
    }
}

/// Whether `s` is a host, a colon, and the number of a port.
pub open spec fn is_host_port(s: Seq<char>, host: Seq<char>, port: u16) -> bool {
    &&& s.len() > host.len() + 1
    &&& s.subrange(0, host.len() as int) == host
    &&& s[host.len() as int] == ':'
    &&& value(s.subrange(host.len() as int + 1, s.len() as int)) == port
}

proof fn lemma_host_port(host: Seq<char>, port: u16)
    ensures
        is_host_port(crate::transport::quic::host_port(host, port), host, port),
{
    reveal_strlit(":");
    let s = crate::transport::quic::host_port(host, port);
    lemma_decimal(port as nat);
    assert(s.subrange(0, host.len() as int) =~= host);
    assert(s.subrange(host.len() as int + 1, s.len() as int) =~= decimal(port as nat));
}

/// Whether a query has a pair with this key.
pub open spec fn has_key(url: UrlParts, key: Seq<char>) -> bool {
    exists|i: int| 0 <= i < url.query@.len() && (#[trigger] url.query@[i]).0@ == key
}

/// Whether `v` stands behind `key` in a query, and none does later.
pub open spec fn last_value(url: UrlParts, key: Seq<char>, v: Seq<char>) -> bool {
    exists|i: int|
        0 <= i < url.query@.len() && (#[trigger] url.query@[i]).0@ == key && url.query@[i].1@ == v
            && forall|j: int| i < j < url.query@.len() ==> (#[trigger] url.query@[j]).0@ != key
}

proof fn lemma_query(url: UrlParts, key: Seq<char>)
    ensures
        crate::transport::quic::query_value(url@.2, key, None) <==> !has_key(url, key),
        forall|v: Seq<char>| #[trigger]
            crate::transport::quic::query_value(url@.2, key, Some(v)) ==> last_value(url, key, v)
                && has_key(url, key),
{
    let q = url@.2;
    assert(forall|i: int|
        0 <= i < q.len() ==> #[trigger] q[i] == (url.query@[i].0@, url.query@[i].1@));
    if !has_key(url, key) {
        assert forall|i: int| 0 <= i < q.len() implies (#[trigger] q[i]).0 != key by {
            assert(url.query@[i].0@ != key);
        }
    } else {
        let i = choose|i: int| 0 <= i < url.query@.len() && (#[trigger] url.query@[i]).0@ == key;
        assert(q[i].0 == key);
    }
    assert forall|v: Seq<char>| #[trigger]
        crate::transport::quic::query_value(q, key, Some(v)) implies last_value(url, key, v)
        && has_key(url, key) by {
        let i = choose|i: int|
            #![trigger q[i]]
            0 <= i < q.len() && q[i] == (key, v) && forall|j: int|
                i < j < q.len() ==> (#[trigger] q[j]).0 != key;
        assert(url.query@[i].0@ == key && url.query@[i].1@ == v);
        assert forall|j: int| i < j < url.query@.len() implies (#[trigger] url.query@[j]).0@
            != key by {
            assert(q[j].0 != key);
        }
    }
}

/// A URL says where to listen exactly if it has a host, a port, and in its query `cert` and
/// `key`; the last of each counts. What is missing is said, in this order.
pub proof fn lemma_url_is_listen_endpoint(
    url: Option<UrlParts>,
    r: Result<ListenEndpoint, EndpointError>,
)
    requires
        call_ensures(listen_endpoint_of, (url,), r),
    ensures
        ({
            let located = url is Some && url->0.host is Some && url->0.port is Some;
            &&& r is Ok <==> located && has_key(url->0, "cert"@) && has_key(url->0, "key"@)
            &&& r matches Err(e) ==> {
                &&& e is NoUrl <==> url is None
                &&& e is MissingHost <==> url is Some && url->0.host is None
                &&& e is MissingPort <==> url is Some && url->0.host is Some && url->0.port is None
                &&& e is MissingCert <==> located && !has_key(url->0, "cert"@)
                &&& e is MissingKey <==> located && has_key(url->0, "cert"@) && !has_key(
                    url->0,
                    "key"@,
                )
            }
            &&& r matches Ok(e) ==> {
                &&& is_host_port(e.sock_addr@, url->0.host->0@, url->0.port->0)
                &&& last_value(url->0, "cert"@, e.cert_path@)
                &&& last_value(url->0, "key"@, e.key_path@)
            }
        }),
{
    if let Some(u) = url {
        lemma_query(u, "cert"@);
        lemma_query(u, "key"@);
        if let Ok(e) = r {
            lemma_host_port(u.host->0@, u.port->0);
        }
    }
}

/// A packet for a connection that is there is fed to it; the first packet of another makes one,
/// which gets the next number and its ID; any other packet changes nothing, and is ignored.
pub proof fn lemma_packets(head: Option<PacketHead>)
    ensures
        forall|c: &mut QuicClients, r: PacketStep| #[trigger]
            call_ensures(QuicClients::packet, (c, head), r) ==> {
                let before = (*c)@;
                let after = (*final(c))@;
                let known = head is Some && before.contains(head->0.dcid@);
                let starts = head is Some && !known && head->0.initial;
                &&& r is Feed <==> known
                &&& r is Accept <==> starts
                &&& r is Ignore <==> !known && !starts
                &&& (r matches PacketStep::Feed(i) ==> i < before.len() && before[i as int]
                    == head->0.dcid@)
                &&& starts ==> after.len() == before.len() + 1 && after.last() == head->0.dcid@
                    && after.drop_last() == before
                &&& (r matches PacketStep::Accept(i) ==> before.len() <= usize::MAX ==> i
                    == before.len())
                &&& !starts ==> after == before
            },
{
    assert forall|c: &mut QuicClients, r: PacketStep| #[trigger]
        call_ensures(QuicClients::packet, (c, head), r) && head is Some && !(*c)@.contains(
            head->0.dcid@,
        ) && head->0.initial implies (*final(c))@.drop_last() == (*c)@ by {
        assert((*c)@.push(head->0.dcid@).drop_last() =~= (*c)@);
    }
}

/// A stream is handed out exactly if there is a readable one and the connection is established;
/// and what reading a head comes to: a response, another packet, or the error that it is.
pub proof fn lemma_streams()
    ensures
        forall|established: bool, readable: Option<u64>, r: FedStep| #[trigger]
            call_ensures(fed, (established, readable), r) ==> (r is Stream <==> established
                && readable is Some) && (r matches FedStep::Stream(id) ==> readable == Some(id)),
        forall|read: HeadRead, r: HeadStep| #[trigger]
            call_ensures(head_step, (read,), r) ==> (r is Response <==> read is Done) && (r
                is ReadSocket <==> read is WouldBlock) && (r == HeadStep::Fail(RpcIntErr::IO)
                <==> read is Failed) && (r == HeadStep::Fail(RpcIntErr::Timeout) <==> read
                is TimedOut),
{
}

/// Where to connect and where to listen for a URL is what its parts say.
pub proof fn lemma_endpoints_of_urls(addr: &str)
    ensures
        forall|r: Result<Endpoint, EndpointError>| #[trigger]
            call_ensures(connect_endpoint, (addr,), r) ==> match url_parsed(addr@) {
                Some((Some(host), Some(port), _)) => r is Ok && r->Ok_0.host@ == host
                    && is_host_port(r->Ok_0.sock_addr@, host, port),
                _ => r is Err,
            },
        forall|r: Result<ListenEndpoint, EndpointError>| #[trigger]
            call_ensures(bind_endpoint, (addr,), r) ==> match url_parsed(addr@) {
                Some((Some(host), Some(port), query)) => {
                    &&& r is Err ==> lacks_key(query, "cert"@) || lacks_key(query, "key"@)
                    &&& r is Ok ==> is_host_port(r->Ok_0.sock_addr@, host, port) && query.contains(
                        ("cert"@, r->Ok_0.cert_path@),
                    ) && query.contains(("key"@, r->Ok_0.key_path@))
                },
                _ => r is Err,
            },
{
    if let Some((Some(host), Some(port), _)) = url_parsed(addr@) {
        lemma_host_port(host, port);
    }
}

/// Whether no pair of a query has this key.
pub open spec fn lacks_key(query: Seq<(Seq<char>, Seq<char>)>, key: Seq<char>) -> bool {
    forall|i: int| 0 <= i < query.len() ==> (#[trigger] query[i]).0 != key
}

/// A listener has no connections at first.
pub proof fn lemma_new_listener(r: QuicClients)
    requires
        call_ensures(QuicClients::new, (), r),
    ensures
        r@.len() == 0,
{
}

/// Two byte strings are the same exactly if they have the same length and the same bytes; and one
/// starts with another exactly if its first bytes are that.
pub proof fn lemma_byte_strings(a: &[u8], b: &[u8])
    ensures
        forall|r: bool| #[trigger]
            call_ensures(bytes_eq, (a, b), r) ==> (r <==> a@.len() == b@.len() && forall|i: int|
                0 <= i < a@.len() ==> #[trigger] a@[i] == b@[i]),
        forall|r: bool| #[trigger]
            call_ensures(bytes_start_with, (a, b), r) ==> (r <==> b@.len() <= a@.len() && a@.subrange(
                0,
                b@.len() as int,
            ) == b@),
{
    assert forall|r: bool| #[trigger] call_ensures(bytes_eq, (a, b), r) implies (r <==> a@.len()
        == b@.len() && forall|i: int| 0 <= i < a@.len() ==> #[trigger] a@[i] == b@[i]) by {
        if a@.len() == b@.len() && forall|i: int| 0 <= i < a@.len() ==> #[trigger] a@[i] == b@[i] {
            assert(a@ =~= b@);
        }
    }
}

} // verus!
