use occams_rpc::error::RpcIntErr;
use occams_rpc::server::listen::{
    close_start, close_waited, get_alive_conn, local_addr, AddrError, CloseStep,
};
use occams_rpc::transport::net::{
    bind_steps, describe_socket, listen_path, stream_buf_size, AddrStep, BindStep, Ip, ParsedAddr,
    SockAddr, UnifyAddr,
};
use occams_rpc::transport::quic::{
    bind_endpoint, connect_endpoint, endpoint_of, fed, head_step, listen_endpoint_of,
    EndpointError, FedStep, HeadRead, HeadStep, PacketHead, PacketStep, QuicClients, UrlParts,
};

fn parse_ip(s: &str) -> Option<Ip> {
    let parts: Vec<u32> = s.split('.').map(|p| p.parse().ok()).collect::<Option<_>>()?;
    if parts.len() != 4 {
        return None;
    }
    Some(Ip::V4(parts.iter().fold(0, |a, p| a * 256 + p)))
}

fn parse_sock(s: &str) -> Option<SockAddr> {
    let (ip, port) = s.split_once(':')?;
    Some(SockAddr { ip: parse_ip(ip)?, port: port.parse().ok()?, flowinfo: 0, scope_id: 0 })
}

fn unify(s: &str) -> UnifyAddr {
    match UnifyAddr::from_str(s, parse_sock(s)) {
        AddrStep::Addr(a) => a,
        AddrStep::Resolve => panic!("parse address error"),
    }
}

fn same(a: &UnifyAddr, s: &str) -> bool {
    let same_path = match a {
        UnifyAddr::Path(p) => p == s,
        _ => false,
    };
    a.eq_str(ParsedAddr { socket: parse_sock(s), ip: parse_ip(s), same_path })
}

#[test]
fn test_addr_compare() {
    let uaddr_unify = unify("127.0.0.1:18555");
    let uaddr_with_port = "127.0.0.1:18555";
    let uaddr_without_port = "127.0.0.1";
    let uaddr_wrong_ip_without_port = "127.0.0.2";
    let uaddr_wrong_ip_with_port = "127.0.0.2:18555";
    let uaddr_wrong_port = "127.0.0.1:18888";

    assert!(same(&uaddr_unify, uaddr_with_port));
    assert!(same(&uaddr_unify, uaddr_without_port));
    assert!(!same(&uaddr_unify, uaddr_wrong_ip_without_port));
    assert!(!same(&uaddr_unify, uaddr_wrong_ip_with_port));
    assert!(!same(&uaddr_unify, uaddr_wrong_port));
}

#[test]
fn paths_and_names() {
    let path = unify("/tmp/sock");
    assert!(same(&path, "/tmp/sock"));
    assert!(!same(&path, "/tmp/sock2"));
    assert!(!same(&unify("127.0.0.1:1"), "host"));
    assert!(matches!(UnifyAddr::from_str("host:1", None), AddrStep::Resolve));
    let found = vec![parse_sock("10.0.0.1:1").unwrap(), parse_sock("10.0.0.2:1").unwrap()];
    assert!(same(&UnifyAddr::from_resolved(&found).unwrap(), "10.0.0.1:1"));
    assert!(UnifyAddr::from_resolved(&vec![]).is_none());
}

#[test]
fn listening_on_a_path() {
    assert_eq!(listen_path("/s"), "/s_dup");
    let steps = bind_steps("/s", true, true);
    assert_eq!(steps.len(), 5);
    assert!(matches!(&steps[0], BindStep::Remove(p) if p == "/s"));
    assert!(matches!(&steps[1], BindStep::Remove(p) if p == "/s_dup"));
    assert!(matches!(&steps[2], BindStep::Listen(p) if p == "/s_dup"));
    assert!(matches!(&steps[3], BindStep::Link { path, target } if path == "/s" && target == "/s_dup"));
    assert!(matches!(&steps[4], BindStep::Permit { path, mode: 0o666 } if path == "/s"));
    assert_eq!(bind_steps("/s", false, false).len(), 3);
    assert_eq!((stream_buf_size(0), stream_buf_size(100)), (8192, 100));
}

#[test]
fn sockets_as_text() {
    assert_eq!(describe_socket(true, Some("1.2.3.4:5")), "listener 1.2.3.4:5");
    assert_eq!(describe_socket(true, None), "tcp listener unknown");
    assert_eq!(describe_socket(false, None), "unix listener unknown");
}

#[test]
fn quic_endpoints() {
    let e = connect_endpoint("https://example.com:4433/x").unwrap();
    assert_eq!((e.host.as_str(), e.sock_addr.as_str()), ("example.com", "example.com:4433"));
    assert_eq!(connect_endpoint("no url").unwrap_err(), EndpointError::NoUrl);
    assert_eq!(connect_endpoint("https://example.com/").unwrap_err(), EndpointError::MissingPort);
    assert_eq!(connect_endpoint("data:text").unwrap_err(), EndpointError::MissingHost);
    let l = bind_endpoint("quic://0.0.0.0:4433?cert=%2Fa.pem&key=b&cert=c").unwrap();
    assert_eq!(
        (l.sock_addr.as_str(), l.cert_path.as_str(), l.key_path.as_str()),
        ("0.0.0.0:4433", "c", "b")
    );
    assert_eq!(
        bind_endpoint("quic://0.0.0.0:4433?cert=a").unwrap_err(),
        EndpointError::MissingKey
    );
    assert_eq!(bind_endpoint("quic://0.0.0.0:4433").unwrap_err(), EndpointError::MissingCert);
}

#[test]
fn quic_endpoints_from_parts() {
    let parts = |host: Option<&str>, port| {
        Some(UrlParts { host: host.map(|h| h.to_string()), port, query: vec![] })
    };
    assert_eq!(endpoint_of(None).unwrap_err(), EndpointError::NoUrl);
    assert_eq!(endpoint_of(parts(None, Some(1))).unwrap_err(), EndpointError::MissingHost);
    assert_eq!(endpoint_of(parts(Some("h"), Some(1))).unwrap().sock_addr, "h:1");
    assert_eq!(listen_endpoint_of(None).unwrap_err(), EndpointError::NoUrl);
    assert_eq!(
        listen_endpoint_of(parts(Some("h"), None)).unwrap_err(),
        EndpointError::MissingPort
    );
}

#[test]
fn quic_packets() {
    let mut c = QuicClients::new();
    let head = |id: &[u8], initial| Some(PacketHead { dcid: id.to_vec(), initial });
    assert_eq!(c.packet(None), PacketStep::Ignore);
    assert_eq!(c.packet(head(b"a", false)), PacketStep::Ignore);
    assert_eq!(c.packet(head(b"a", true)), PacketStep::Accept(0));
    assert_eq!(c.packet(head(b"b", true)), PacketStep::Accept(1));
    assert_eq!(c.packet(head(b"a", false)), PacketStep::Feed(0));
    assert_eq!(c.packet(head(b"b", true)), PacketStep::Feed(1));
    assert_eq!(fed(true, Some(4)), FedStep::Stream(4));
    assert_eq!(fed(false, Some(4)), FedStep::SendAll);
    assert_eq!(fed(true, None), FedStep::SendAll);
    assert_eq!(head_step(HeadRead::Done), HeadStep::Response);
    assert_eq!(head_step(HeadRead::WouldBlock), HeadStep::ReadSocket);
    assert_eq!(head_step(HeadRead::Failed), HeadStep::Fail(RpcIntErr::IO));
    assert_eq!(head_step(HeadRead::TimedOut), HeadStep::Fail(RpcIntErr::Timeout));
}

#[test]
fn addresses_of_listeners() {
    assert_eq!(local_addr::<i32>(Ok("1.2.3.4:5".to_string())), Ok("1.2.3.4:5".to_string()));
    assert_eq!(local_addr::<i32>(Err(AddrError::NotAvailable)), Ok("0.0.0.0:0".to_string()));
    assert_eq!(local_addr(Err(AddrError::Other(9))), Err(9));
}

#[test]
fn closing_a_server() {
    assert_eq!(get_alive_conn(3), 2);
    assert_eq!(close_start(0), CloseStep::Closed);
    assert_eq!(close_start(2), CloseStep::Sleep);
    assert_eq!(close_waited(1, false), CloseStep::Sleep);
    assert_eq!(close_waited(0, false), CloseStep::Closed);
    assert_eq!(close_waited(1, true), CloseStep::Closed);
}
