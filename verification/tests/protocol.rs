use crossfire::mpsc;
use io_buffer::Buffer;
use occams_rpc::client::task::{ClientTaskCommon, ClientTaskEncode};
use occams_rpc::client::variant::ClientTaskVariant;
use occams_rpc::codec::Codec;
use occams_rpc::error::{
    bytes_eq, bytes_start_with, decode_rpc_error, EncodedErr, RpcErrCodec, RpcError, RpcIntErr,
    RPC_ERR_PREFIX,
};
use occams_rpc::proto::{
    ReqHead, RespHead, RpcAction, RpcActionOwned, PING_ACTION, RESP_FLAG_HAS_ERRNO,
    RESP_FLAG_HAS_ERR_STRING, RPC_MAGIC, RPC_REQ_HEADER_LEN, RPC_RESP_HEADER_LEN, RPC_VERSION_1,
};
use occams_rpc::server::conn::{
    is_ping, ReaderAction, ReaderEvent, ReaderState, WriterAction, WriterEvent, WriterState,
};
use occams_rpc::server::noti::RespNoti;
use occams_rpc::server::task::{
    RpcSvrResp, ServerTaskDecode, ServerTaskDone, ServerTaskVariantFull,
};
use occams_rpc::transport::request::{read_req_from, ReqRead, ReqReader, ReqStep};
use occams_rpc::transport::response::{
    can_skip, is_head_known, recv_body_from, skip_len, start_body, Delivery, RespStep,
};

/// Messages are strings; one that starts with `!` has no encoding, and one that starts with
/// `?` does not decode.
struct TextCodec;

impl Codec<String> for TextCodec {
    fn encode_into(&self, msg: &String, buf: &mut Vec<u8>) -> Result<usize, ()> {
        if msg.starts_with('!') {
            return Err(());
        }
        buf.extend_from_slice(msg.as_bytes());
        Ok(msg.len())
    }

    fn decode(&self, buf: &[u8]) -> Result<String, ()> {
        if buf.first() == Some(&b'?') {
            return Err(());
        }
        String::from_utf8(buf.to_vec()).map_err(|_| ())
    }
}

struct Nobody;

type Task = ClientTaskVariant<Nobody, String, String, i32>;

impl From<Task> for Nobody {
    fn from(_task: Task) -> Nobody {
        Nobody
    }
}

fn client_task(seq: u64, action: RpcActionOwned, req: &str) -> Task {
    ClientTaskVariant {
        common: ClientTaskCommon { seq },
        action,
        req: req.to_string(),
        req_blob: None,
        resp: None,
        with_resp_blob: false,
        resp_blob: None,
        res: None,
        noti: None,
    }
}

/// What a client writes for a task.
fn request_of(task: &Task) -> Vec<u8> {
    let mut buf = vec![9; 3];
    let mut out = vec![];
    let blob = ReqHead::encode(&TextCodec, &mut buf, 77, task).unwrap();
    out.extend_from_slice(&buf);
    if let Some(b) = blob {
        out.extend_from_slice(b);
    }
    out
}

/// What a server writes for an answer.
fn response_of(resp: &mut RpcSvrResp) -> Vec<u8> {
    let mut buf = vec![];
    let (_, blob) = RespHead::encode(&TextCodec, &mut buf, resp);
    let mut out = buf.clone();
    if let Some(b) = blob {
        out.extend_from_slice(b);
    }
    out
}

#[test]
fn test_header_len() {
    assert_eq!(RPC_REQ_HEADER_LEN, 32);
    assert_eq!(RPC_RESP_HEADER_LEN, 20);
}

#[test]
fn request_bytes_on_the_wire() {
    let mut task = client_task(0x0102030405060708, RpcActionOwned::Num(5), "abc");
    task.req_blob = Some(vec![0xee, 0xff]);
    let out = request_of(&task);
    let mut want = vec![];
    want.extend_from_slice(&19749u16.to_le_bytes());
    want.extend_from_slice(&[1, 0]);
    want.extend_from_slice(&5u32.to_le_bytes());
    want.extend_from_slice(&[8, 7, 6, 5, 4, 3, 2, 1]);
    want.extend_from_slice(&77u64.to_le_bytes());
    want.extend_from_slice(&3u32.to_le_bytes());
    want.extend_from_slice(&2u32.to_le_bytes());
    want.extend_from_slice(b"abc");
    want.extend_from_slice(&[0xee, 0xff]);
    assert_eq!(out, want);
}

#[test]
fn named_action_follows_the_head() {
    let task = client_task(2, RpcActionOwned::Str("open".to_string()), "x");
    let out = request_of(&task);
    assert_eq!(out[4..8], (4u32 | 0x8000_0000).to_le_bytes());
    assert_eq!(&out[32..], b"openx");
    let head = ReqHead::decode_head(&out[..32]).unwrap();
    assert_eq!(head.get_action(), Err(4));
}

#[test]
fn request_without_encoding_is_refused() {
    let task = client_task(2, RpcActionOwned::Num(1), "!");
    let mut buf = vec![];
    assert!(ReqHead::encode(&TextCodec, &mut buf, 1, &task).is_err());
    assert!(task.encode_req(&TextCodec, &mut buf).is_err());
}

#[test]
fn heads_are_checked() {
    let mut buf = vec![];
    ReqHead::encode_ping(&mut buf, 3, 4);
    assert_eq!(buf.len(), 32);
    let head = ReqHead::decode_head(&buf).unwrap();
    assert_eq!(
        head,
        ReqHead {
            magic: RPC_MAGIC,
            ver: RPC_VERSION_1,
            format: 0,
            action: PING_ACTION,
            seq: 4,
            client_id: 3,
            msg_len: 0,
            blob_len: 0,
        }
    );
    assert_eq!(head.get_action(), Ok(0));
    buf[2] = 9;
    assert_eq!(ReqHead::decode_head(&buf), Err(RpcIntErr::Version));
    buf[0] ^= 1;
    assert_eq!(ReqHead::decode_head(&buf), Err(RpcIntErr::IO));

    let mut buf = vec![];
    assert_eq!(RespHead::encode_internal(&mut buf, 8, None), 8);
    let head = RespHead::decode_head(&buf).unwrap();
    assert_eq!((head.seq, head.flag, head.msg_len, head.blob_len), (8, 0, 0, 0));
    buf[2] = 0;
    assert_eq!(RespHead::decode_head(&buf), Err(RpcIntErr::Version));
    buf[1] ^= 1;
    assert_eq!(RespHead::decode_head(&buf), Err(RpcIntErr::IO));
}

#[test]
fn response_bytes_on_the_wire() {
    let mut resp = RpcSvrResp {
        seq: 0x0a0b,
        msg: Some(b"hi".to_vec()),
        blob: Some(Buffer::from(vec![7u8, 8, 9])),
        res: Some(Ok(())),
    };
    let out = response_of(&mut resp);
    let mut want = vec![];
    want.extend_from_slice(&19749u16.to_le_bytes());
    want.extend_from_slice(&[1, 0]);
    want.extend_from_slice(&0x0a0bu64.to_le_bytes());
    want.extend_from_slice(&2u32.to_le_bytes());
    want.extend_from_slice(&3u32.to_le_bytes());
    want.extend_from_slice(b"hi");
    want.extend_from_slice(&[7, 8, 9]);
    assert_eq!(out, want);
}

#[test]
fn error_responses_on_the_wire() {
    let answer = |e| RpcSvrResp { seq: 1, msg: None, blob: None, res: Some(Err(e)) };
    let out = response_of(&mut answer(EncodedErr::Num(11)));
    let head = RespHead::decode_head(&out).unwrap();
    assert_eq!((head.flag, head.msg_len, head.blob_len), (RESP_FLAG_HAS_ERRNO, 11, 0));
    for (e, text) in [
        (EncodedErr::Rpc(RpcIntErr::Method), "rpc_method_notfound"),
        (EncodedErr::Static("no such thing"), "no such thing"),
        (EncodedErr::Buf(b"bad".to_vec()), "bad"),
    ] {
        let out = response_of(&mut answer(e));
        let head = RespHead::decode_head(&out[..20]).unwrap();
        assert_eq!((head.flag, head.msg_len), (RESP_FLAG_HAS_ERR_STRING, 0));
        assert_eq!(head.blob_len as usize, text.len());
        assert_eq!(&out[20..], text.as_bytes());
    }
}

#[test]
fn answer_that_does_not_encode_becomes_an_error() {
    let (tx, _rx) = mpsc::unbounded_blocking();
    let noti: RespNoti<Nobody> = RespNoti::new(tx);
    let mut task: ServerTaskVariantFull<Nobody, String, String, i32> =
        ServerTaskVariantFull::decode_req(&TextCodec, RpcAction::Num(1), 6, b"q", None, noti)
            .unwrap();
    task.resp = Some("!".to_string());
    task._set_result(Ok(()));
    let mut buf = vec![];
    let (seq, blob) = RespHead::encode(&TextCodec, &mut buf, &mut task);
    assert_eq!((seq, blob), (6, None));
    assert_eq!(&buf[20..], b"rpc_encode");
}

#[test]
fn heads_as_text() {
    let mut buf = vec![];
    ReqHead::encode_ping(&mut buf, 3, 4);
    let mut head = ReqHead::decode_head(&buf).unwrap();
    assert_eq!(head.to_text(), "[client_id:3, seq:4, msg:0, blob:0, action:0]");
    head.action = 0x8000_0007;
    head.msg_len = 120;
    assert_eq!(head.to_text(), "[client_id:3, seq:4, msg:120, blob:0action_len:7]");
    let head = RespHead {
        magic: RPC_MAGIC,
        ver: RPC_VERSION_1,
        flag: 2,
        seq: u64::MAX,
        msg_len: 10,
        blob_len: -5,
    };
    assert_eq!(head.to_text(), "[seq:18446744073709551615, flag:2, msg:10, blob:-5]");
}

#[test]
fn a_request_arrives_as_it_was_sent() {
    let mut task = client_task(42, RpcActionOwned::Str("open".to_string()), "message");
    task.req_blob = Some(b"blob".to_vec());
    let mut data = request_of(&task);
    let len = data.len();
    data.extend_from_slice(b"next");
    match read_req_from(ReqReader::tcp(), &data) {
        ReqRead::Done(mut req, used) => {
            assert_eq!(used, len);
            let req = req.as_req();
            assert_eq!((req.seq, req.action, req.msg), (42, RpcAction::Str("open"), b"message".as_slice()));
            assert_eq!(AsRef::<[u8]>::as_ref(&req.blob.unwrap()), b"blob");
        }
        _ => panic!("not read"),
    }
    assert!(matches!(read_req_from(ReqReader::tcp(), &data[..len - 1]), ReqRead::Short));

    let task = client_task(43, RpcActionOwned::Num(7), "");
    match read_req_from(ReqReader::quic(), &request_of(&task)) {
        ReqRead::Done(req, used) => {
            assert_eq!(used, 32);
            assert_eq!((req.seq, req.action, req.msg), (43, RpcActionOwned::Num(7), vec![]));
            assert!(req.blob.is_none());
        }
        _ => panic!("not read"),
    }
}

#[test]
fn requests_that_are_refused() {
    let bad = vec![0u8; 32];
    let failed = |reader| match read_req_from(reader, &bad) {
        ReqRead::Fail(e) => e,
        _ => panic!("no failure"),
    };
    assert_eq!(failed(ReqReader::tcp()), RpcIntErr::Decode);
    assert_eq!(failed(ReqReader::new(RpcIntErr::IO, RpcIntErr::Decode)), RpcIntErr::IO);

    let task = client_task(1, RpcActionOwned::Str("ab".to_string()), "");
    let mut data = request_of(&task);
    data[32] = 0xff;
    assert!(matches!(
        read_req_from(ReqReader::tcp(), &data),
        ReqRead::Fail(RpcIntErr::Decode)
    ));
}

#[test]
fn reading_a_request_piece_by_piece() {
    let reader = ReqReader::tcp();
    assert_eq!(reader.need(), 32);
    assert_eq!(reader.read_failed(true), RpcIntErr::Timeout);
    assert_eq!(reader.read_failed(false), RpcIntErr::IO);
    let data = request_of(&client_task(1, RpcActionOwned::Str("ab".to_string()), "msg"));
    let ReqStep::More(reader) = reader.feed(&data[..32]) else { panic!("no action") };
    assert_eq!(reader.need(), 2);
    assert_eq!(reader.read_failed(true), RpcIntErr::IO);
    let ReqStep::More(reader) = reader.feed(&data[32..34]) else { panic!("no message") };
    assert_eq!(reader.need(), 3);
    let ReqStep::Done(req) = reader.feed(&data[34..37]) else { panic!("not done") };
    assert_eq!(req.msg, b"msg");
}

fn receive(resp: &mut RpcSvrResp, task: Task) -> (Task, Delivery, usize) {
    let mut data = response_of(resp);
    data.extend_from_slice(b"next");
    let head = RespHead::decode_head(&data[..20]).unwrap();
    assert_eq!(head.seq, resp.seq);
    let r = recv_body_from(&TextCodec, &head, task, &data[20..]);
    assert_eq!(20 + r.used + 4, data.len());
    (r.finished.task, r.finished.delivery, r.used)
}

#[test]
fn a_response_arrives_as_it_was_sent() {
    let ok = |msg: &str, blob: Option<&[u8]>| RpcSvrResp {
        seq: 5,
        msg: Some(msg.as_bytes().to_vec()),
        blob: blob.map(|b| Buffer::from(b.to_vec())),
        res: Some(Ok(())),
    };
    let task = || client_task(5, RpcActionOwned::Num(1), "q");
    let (t, d, used) = receive(&mut ok("answer", None), task());
    assert_eq!((t.resp.as_deref(), t.res, d, used), (Some("answer"), Some(Ok(())), Delivery::Done, 6));

    let mut with_blob = task();
    with_blob.with_resp_blob = true;
    let (t, d, _) = receive(&mut ok("answer", Some(b"blob")), with_blob);
    assert_eq!((t.resp.as_deref(), t.res, d), (Some("answer"), Some(Ok(())), Delivery::Done));
    assert_eq!(t.resp_blob, Some(b"blob".to_vec()));

    let (t, d, _) = receive(&mut ok("answer", Some(b"blob")), task());
    assert_eq!(t.res, Some(Err(RpcError::Rpc(RpcIntErr::Decode))));
    assert_eq!((t.resp, d), (None, Delivery::ErrorHandle));

    let (t, d, _) = receive(&mut ok("?", None), task());
    assert_eq!(t.res, Some(Err(RpcError::Rpc(RpcIntErr::Decode))));
    assert_eq!(d, Delivery::ErrorHandle);

    let (t, d, used) = receive(&mut ok("", None), task());
    assert_eq!((t.resp, t.res, d, used), (None, Some(Ok(())), Delivery::Done, 0));
}

#[test]
fn an_error_arrives_as_it_was_sent() {
    let err = |e| RpcSvrResp { seq: 5, msg: None, blob: None, res: Some(Err(e)) };
    let task = || client_task(5, RpcActionOwned::Num(1), "q");
    for (e, want) in [
        (EncodedErr::Num(2), RpcError::User(2)),
        (EncodedErr::Rpc(RpcIntErr::Service), RpcError::Rpc(RpcIntErr::Service)),
        (EncodedErr::Static("rpc_timeout"), RpcError::Rpc(RpcIntErr::Timeout)),
        (EncodedErr::Static("rpc_timeouts"), RpcError::Rpc(RpcIntErr::Decode)),
        (EncodedErr::Buf(b"x".to_vec()), RpcError::Rpc(RpcIntErr::Decode)),
    ] {
        let (t, d, _) = receive(&mut err(e), task());
        assert_eq!(t.res, Some(Err(want)));
        assert_eq!(d, Delivery::ErrorHandle);
    }
}

#[test]
fn a_broken_response_ends_with_io() {
    let head = |flag, msg_len, blob_len| RespHead {
        magic: RPC_MAGIC,
        ver: RPC_VERSION_1,
        flag,
        seq: 1,
        msg_len,
        blob_len,
    };
    let mut task = client_task(1, RpcActionOwned::Num(1), "q");
    task.with_resp_blob = true;
    let RespStep::ReadError(w) = start_body(&TextCodec, &head(2, 0, 4), task) else {
        panic!("no error string")
    };
    let f = w.failed::<TextCodec>();
    assert_eq!(f.task.res, Some(Err(RpcError::Rpc(RpcIntErr::IO))));
    let RespStep::ReadMsg(w) = start_body(&TextCodec, &head(0, 3, 2), f.task) else {
        panic!("no message")
    };
    assert_eq!(w.need(), 3);
    let RespStep::ReadBlob(mut w) = w.read(&TextCodec, b"abc".to_vec()) else { panic!("no blob") };
    w.room::<TextCodec>().unwrap().copy_from_slice(b"de");
    let f = w.read(&TextCodec);
    assert_eq!(f.task.res, Some(Ok(())));
    assert_eq!((f.task.resp.as_deref(), f.task.resp_blob), (Some("abc"), Some(b"de".to_vec())));

    assert_eq!(skip_len(&head(0, 3, 2)), 5);
    assert_eq!(skip_len(&head(1, 3, 0)), 0);
    assert_eq!(skip_len(&head(2, 0, 9)), 9);
    assert!(can_skip(&head(0, 3, 2)) && can_skip(&head(1, u32::MAX, -1)));
    assert!(!can_skip(&head(0, 3, -1)) && !can_skip(&head(0, 1, i32::MAX)));
    assert!(!can_skip(&head(2, 0, -1)));
    assert!(is_head_known(&head(2, 0, 0)) && is_head_known(&head(0, 0, -1)));
    assert!(!is_head_known(&head(2, 0, -1)) && !is_head_known(&head(3, 0, 0)));
}

#[test]
fn error_names() {
    let names = [
        (RpcIntErr::Unreachable, "rpc_unreachable"),
        (RpcIntErr::IO, "rpc_io_err"),
        (RpcIntErr::Timeout, "rpc_timeout"),
        (RpcIntErr::Method, "rpc_method_notfound"),
        (RpcIntErr::Service, "rpc_service_notfound"),
        (RpcIntErr::Encode, "rpc_encode"),
        (RpcIntErr::Decode, "rpc_decode"),
        (RpcIntErr::Internal, "rpc_internal_err"),
        (RpcIntErr::Version, "rpc_invalid_ver"),
    ];
    for (i, (e, name)) in names.iter().enumerate() {
        assert_eq!(e.as_str(), *name);
        assert_eq!(RpcIntErr::from_bytes(name.as_bytes()), Some(*e));
        assert!(bytes_start_with(e.as_bytes(), RPC_ERR_PREFIX.as_bytes()));
        for (other, _) in &names[i + 1..] {
            assert!(e < other);
        }
    }
    assert_eq!(RpcIntErr::from_bytes(b"rpc_"), None);
    assert_eq!(RpcIntErr::from_bytes(b""), None);
    assert!(bytes_eq(b"ab", b"ab") && !bytes_eq(b"ab", b"ac") && !bytes_eq(b"ab", b"abc"));
    assert!(!bytes_start_with(b"ab", b"abc") && !bytes_start_with(b"ab", b"b"));
}

#[test]
fn error_numbers() {
    assert!(matches!(5i32.encode(&TextCodec), EncodedErr::Num(5)));
    assert_eq!(<i32 as RpcErrCodec<TextCodec>>::decode(&TextCodec, Ok(5)), Ok(5));
    assert_eq!(<i32 as RpcErrCodec<TextCodec>>::decode(&TextCodec, Ok(u32::MAX)), Err(()));
    assert_eq!(<i32 as RpcErrCodec<TextCodec>>::decode(&TextCodec, Err(b"5")), Err(()));
    let e: RpcError<i32> = decode_rpc_error(&TextCodec, &EncodedErr::Static("5"));
    assert_eq!(e, RpcError::Rpc(RpcIntErr::Decode));
}

#[test]
fn a_ping_is_answered_under_its_id() {
    let mut ping = vec![];
    ReqHead::encode_ping(&mut ping, 1, 99);
    let ReqRead::Done(mut req, 32) = read_req_from(ReqReader::tcp(), &ping) else {
        panic!("no ping")
    };
    let req = req.as_req();
    assert!(is_ping(&req));
    let mut reader = ReaderState::Reading;
    assert_eq!(
        reader.step(ReaderEvent::Request { seq: req.seq, ping: true }),
        ReaderAction::Reply { seq: 99, err: None }
    );
    assert_eq!(reader.step(ReaderEvent::Replied { ok: true }), ReaderAction::Read);
    let mut buf = vec![];
    RespHead::encode_internal(&mut buf, 99, None);
    assert_eq!(RespHead::decode_head(&buf).unwrap().seq, 99);

    let task = client_task(1, RpcActionOwned::Num(0), "x");
    let ReqRead::Done(mut req, _) = read_req_from(ReqReader::tcp(), &request_of(&task)) else {
        panic!("no request")
    };
    assert!(!is_ping(&req.as_req()));
}

#[test]
fn a_request_that_the_dispatcher_refuses_is_answered() {
    let mut reader = ReaderState::Reading;
    assert_eq!(
        reader.step(ReaderEvent::Request { seq: 4, ping: false }),
        ReaderAction::Dispatch
    );
    assert_eq!(
        reader.step(ReaderEvent::Dispatched { ok: false }),
        ReaderAction::Reply { seq: 4, err: Some(RpcIntErr::Decode) }
    );
    assert_eq!(reader.step(ReaderEvent::Replied { ok: false }), ReaderAction::Stop);
    let mut reader = ReaderState::Dispatching { seq: 4 };
    assert_eq!(reader.step(ReaderEvent::Dispatched { ok: true }), ReaderAction::Read);
    assert_eq!(reader.step(ReaderEvent::ReadFailed), ReaderAction::Stop);
}

#[test]
fn a_writer_flushes_before_it_waits() {
    let mut w = WriterState::Waiting;
    assert_eq!(w.step(WriterEvent::Item), WriterAction::Write);
    assert_eq!(w.step(WriterEvent::Written { ok: true }), WriterAction::TryRecv);
    assert_eq!(w.step(WriterEvent::Item), WriterAction::Write);
    assert_eq!(w.step(WriterEvent::Written { ok: true }), WriterAction::TryRecv);
    assert_eq!(w.step(WriterEvent::Empty), WriterAction::Flush);
    assert_eq!(w.step(WriterEvent::Flushed { ok: true }), WriterAction::Recv);
    assert_eq!(w.step(WriterEvent::Disconnected), WriterAction::Close);
    let mut w = WriterState::Writing;
    assert_eq!(w.step(WriterEvent::Written { ok: false }), WriterAction::Stop);
    let mut w = WriterState::Draining;
    assert_eq!(w.step(WriterEvent::Disconnected), WriterAction::Flush);
    assert_eq!(w.step(WriterEvent::Flushed { ok: false }), WriterAction::Stop);
}

#[test]
fn a_call_from_end_to_end() {
    let mut task = client_task(7, RpcActionOwned::Num(3), "question");
    task.with_resp_blob = true;
    task.req_blob = Some(b"in".to_vec());
    let ReqRead::Done(mut req, _) = read_req_from(ReqReader::tcp(), &request_of(&task)) else {
        panic!("no request")
    };
    let req = req.as_req();
    let (tx, rx) = mpsc::unbounded_blocking();
    let noti: RespNoti<Parent> = RespNoti::new(tx);
    let mut server =
        Server::decode_req(&TextCodec, req.action, req.seq, req.msg, req.blob, noti).unwrap();
    assert_eq!(server.req, "question");
    assert_eq!(AsRef::<[u8]>::as_ref(server.req_blob.as_ref().unwrap()), b"in");
    server.resp = Some("reply".to_string());
    server.resp_blob = Some(Buffer::from(b"out".to_vec()));
    server.set_result(Ok(()));
    let Parent(mut server) = rx.recv().unwrap().unwrap();
    let mut buf = vec![];
    let (seq, blob) = RespHead::encode(&TextCodec, &mut buf, &mut server);
    assert_eq!(seq, 7);
    let mut data = buf.clone();
    data.extend_from_slice(blob.unwrap());
    let head = RespHead::decode_head(&data[..20]).unwrap();
    let r = recv_body_from(&TextCodec, &head, task, &data[20..]);
    assert_eq!(r.finished.task.res, Some(Ok(())));
    assert_eq!(r.finished.task.resp.as_deref(), Some("reply"));
    assert_eq!(r.finished.task.resp_blob, Some(b"out".to_vec()));
}

type Server = ServerTaskVariantFull<Parent, String, String, i32>;

struct Parent(Server);

impl From<Server> for Parent {
    fn from(task: Server) -> Parent {
        Parent(task)
    }
}
