use io_buffer::Buffer;
use nix::errno::Errno;
use occams_rpc::codec::Codec;
use occams_rpc::declare::client_task_enum::{ActionAttr, VariantDesc};
use occams_rpc::declare::server_task_enum::{
    select_variant, server_task_enum_impl, tell_action, EnumArg, ServerAction, ServerEnumError,
};
use occams_rpc::declare::syntax::ActionDesc;
use occams_rpc::error::{EncodedErr, RpcErrCodec, RpcIntErr};
use occams_rpc::proto::{RpcAction, RpcActionOwned};
use occams_rpc::server::dispatch::DispatchClosure;
use occams_rpc::server::noti::RespNoti;
use occams_rpc::server::task::{
    describe_task, RpcSvrResp, ServerTaskAction, ServerTaskDecode, ServerTaskDone,
    ServerTaskEncode, ServerTaskVariant, ServerTaskVariantFull,
};
use occams_rpc::transport::request::RpcSvrReq;
use std::sync::OnceLock;

/// A message with a plain encoding.
trait Wire: Sized {
    fn put(&self, buf: &mut Vec<u8>);
    fn get(buf: &[u8]) -> Option<Self>;
}

#[derive(Default)]
struct PlainCodec;

impl<M: Wire> Codec<M> for PlainCodec {
    fn encode_into(&self, msg: &M, buf: &mut Vec<u8>) -> Result<usize, ()> {
        let n = buf.len();
        msg.put(buf);
        Ok(buf.len() - n)
    }

    fn decode(&self, buf: &[u8]) -> Result<M, ()> {
        M::get(buf).ok_or(())
    }
}

fn encode<M: Wire>(msg: &M) -> Vec<u8> {
    let mut buf = Vec::new();
    PlainCodec.encode_into(msg, &mut buf).unwrap();
    buf
}

#[derive(Debug, Default, PartialEq)]
struct TestReqMsg {
    value: String,
    number: u32,
}

impl Wire for TestReqMsg {
    fn put(&self, buf: &mut Vec<u8>) {
        buf.extend_from_slice(&self.number.to_le_bytes());
        buf.extend_from_slice(self.value.as_bytes());
    }

    fn get(buf: &[u8]) -> Option<TestReqMsg> {
        if buf.len() < 4 {
            return None;
        }
        let number = u32::from_le_bytes(buf[0..4].try_into().ok()?);
        Some(TestReqMsg { value: String::from_utf8(buf[4..].to_vec()).ok()?, number })
    }
}

#[derive(Debug, Default, PartialEq)]
struct ReqMsg1 {
    val: u32,
}

impl Wire for ReqMsg1 {
    fn put(&self, buf: &mut Vec<u8>) {
        buf.extend_from_slice(&self.val.to_le_bytes());
    }

    fn get(buf: &[u8]) -> Option<ReqMsg1> {
        Some(ReqMsg1 { val: u32::from_le_bytes(buf.try_into().ok()?) })
    }
}

#[derive(Debug, Default, PartialEq)]
struct ReqMsg2 {
    name: String,
}

impl Wire for ReqMsg2 {
    fn put(&self, buf: &mut Vec<u8>) {
        buf.extend_from_slice(self.name.as_bytes());
    }

    fn get(buf: &[u8]) -> Option<ReqMsg2> {
        Some(ReqMsg2 { name: String::from_utf8(buf.to_vec()).ok()? })
    }
}

#[derive(Debug, Default)]
struct Msg1;

#[derive(Debug, Default)]
struct Msg2;

impl Wire for Msg1 {
    fn put(&self, _buf: &mut Vec<u8>) {}

    fn get(_buf: &[u8]) -> Option<Msg1> {
        Some(Msg1)
    }
}

impl Wire for Msg2 {
    fn put(&self, _buf: &mut Vec<u8>) {}

    fn get(_buf: &[u8]) -> Option<Msg2> {
        Some(Msg2)
    }
}

#[test]
fn test_server_task_variant_decode_req() {
    let codec = PlainCodec::default();
    let (tx, _rx) = crossfire::mpsc::unbounded_async();
    let noti: RespNoti<RpcSvrResp> = RespNoti::new(tx);

    let req_msg = TestReqMsg { value: "test_request".to_string(), number: 123 };
    let req_buf = encode(&req_msg);
    let action = RpcAction::Num(1);
    let seq = 456;
    let blob = Some(Buffer::from("test_blob".as_bytes().to_vec()));

    let decoded_task: ServerTaskVariant<RpcSvrResp, TestReqMsg, i32> =
        ServerTaskVariant::decode_req(&codec, action, seq, &req_buf, blob.clone(), noti.clone())
            .unwrap();

    assert_eq!(decoded_task.seq, seq);
    assert_eq!(decoded_task.msg, req_msg);
    assert!(decoded_task.blob.is_some());
    assert_eq!(
        AsRef::<[u8]>::as_ref(&decoded_task.blob.unwrap()),
        AsRef::<[u8]>::as_ref(&blob.unwrap())
    );
    assert!(decoded_task.res.is_none());
    assert!(decoded_task.noti.is_some());

    let decoded_task_no_blob: ServerTaskVariant<RpcSvrResp, TestReqMsg, i32> =
        ServerTaskVariant::decode_req(&codec, action, seq, &req_buf, None, noti).unwrap();
    assert!(decoded_task_no_blob.blob.is_none());
}

#[test]
fn a_message_that_does_not_decode_is_refused() {
    let codec = PlainCodec::default();
    let (tx, _rx) = crossfire::mpsc::unbounded_async();
    let noti: RespNoti<RpcSvrResp> = RespNoti::new(tx);
    let r: Result<ServerTaskVariant<RpcSvrResp, ReqMsg1, i32>, ()> =
        ServerTaskVariant::decode_req(&codec, RpcAction::Num(1), 1, b"abc", None, noti.clone());
    assert!(r.is_err());
    let r: Result<ServerTaskVariantFull<RpcSvrResp, ReqMsg1, Msg1, i32>, ()> =
        ServerTaskVariantFull::decode_req(&codec, RpcAction::Num(1), 1, b"abc", None, noti);
    assert!(r.is_err());
}

#[derive(Debug, Default, PartialEq)]
struct StaticActionTask;

type Sub1 = ServerTaskVariant<RpcSvrResp, ReqMsg1, i32>;
type Sub2 = ServerTaskVariant<RpcSvrResp, ReqMsg2, i32>;

enum ExampleServerTaskReq {
    Task1(Sub1),
    Task2(Sub2),
    Task3(StaticActionTask),
}

fn enum_arg(name: &str, value: Option<&str>) -> EnumArg {
    EnumArg { name: name.to_string(), value: value.map(|v| v.to_string()) }
}

fn enum_variant(inner: &str, actions: Vec<ActionDesc>) -> VariantDesc {
    let actions = if actions.is_empty() { vec![] } else { vec![ActionAttr::List(actions)] };
    VariantDesc { name: "V".to_string(), inner: Some(inner.to_string()), actions }
}

fn number(n: i32) -> ActionDesc {
    ActionDesc::Int(n.to_string(), Some(n))
}

fn named_action(s: &str) -> ActionDesc {
    ActionDesc::Str(s.to_string())
}

/// The actions of an enum that takes requests. A number means what is written.
fn action_table(variants: Vec<VariantDesc>) -> Vec<Vec<RpcActionOwned>> {
    let args = vec![
        enum_arg("req", None),
        enum_arg("resp_type", Some("RpcSvrResp")),
        enum_arg("error", Some("Errno")),
    ];
    let plan = server_task_enum_impl(&args, Some(&variants)).unwrap();
    assert!(plan.decode && !plan.encode);
    assert_eq!(plan.resp_type.as_deref(), Some("RpcSvrResp"));
    assert_eq!(plan.error_type.as_deref(), Some("Errno"));
    let written = |a: &ServerAction| match a {
        ServerAction::Int(s) => s.parse().unwrap(),
        _ => 0,
    };
    plan.actions
        .iter()
        .map(|v| v.iter().map(|a| a.action(written(a))).collect())
        .collect()
}

fn example_table() -> &'static Vec<Vec<RpcActionOwned>> {
    static TABLE: OnceLock<Vec<Vec<RpcActionOwned>>> = OnceLock::new();
    TABLE.get_or_init(|| {
        action_table(vec![
            enum_variant("Sub1", vec![number(1)]),
            enum_variant("Sub2", vec![named_action("sub_task_2")]),
            enum_variant("StaticActionTask", vec![named_action("static_action")]),
        ])
    })
}

impl From<Sub1> for ExampleServerTaskReq {
    fn from(task: Sub1) -> ExampleServerTaskReq {
        ExampleServerTaskReq::Task1(task)
    }
}

impl ServerTaskDecode<PlainCodec, RpcSvrResp> for ExampleServerTaskReq {
    fn decode_req(
        codec: &PlainCodec, action: RpcAction<'_>, seq: u64, msg: &[u8], blob: Option<Buffer>,
        noti: RespNoti<RpcSvrResp>,
    ) -> Result<Self, ()> {
        match select_variant(example_table(), &action) {
            Some(0) => Ok(ExampleServerTaskReq::Task1(Sub1::decode_req(
                codec, action, seq, msg, blob, noti,
            )?)),
            Some(1) => Ok(ExampleServerTaskReq::Task2(Sub2::decode_req(
                codec, action, seq, msg, blob, noti,
            )?)),
            Some(_) => Ok(ExampleServerTaskReq::Task3(StaticActionTask)),
            None => Err(()),
        }
    }
}

impl ServerTaskAction for ExampleServerTaskReq {
    fn get_action<'a>(&'a self) -> RpcAction<'a> {
        let i = match self {
            ExampleServerTaskReq::Task1(_) => 0,
            ExampleServerTaskReq::Task2(_) => 1,
            ExampleServerTaskReq::Task3(_) => 2,
        };
        tell_action(&example_table()[i], None).unwrap()
    }
}

#[test]
fn test_server_task_enum_req_macro() {
    let codec = PlainCodec::default();
    let (tx, _rx) = crossfire::mpsc::unbounded_async();
    let noti: RespNoti<RpcSvrResp> = RespNoti::new(tx);

    let req_msg_1_data = ReqMsg1 { val: 100 };
    let req_msg_1_buf = encode(&req_msg_1_data);
    let task1 = ExampleServerTaskReq::decode_req(
        &codec,
        RpcAction::Num(1),
        123,
        &req_msg_1_buf,
        None,
        noti.clone(),
    )
    .unwrap();
    if let ExampleServerTaskReq::Task1(req_task_variant) = task1 {
        assert_eq!(req_task_variant.seq, 123);
        assert_eq!(req_task_variant.msg, req_msg_1_data);
        assert!(req_task_variant.blob.is_none());
    } else {
        panic!("Decoded to wrong variant");
    }

    let req_msg_2_data = ReqMsg2 { name: "test_name".to_string() };
    let req_msg_2_buf = encode(&req_msg_2_data);
    let task2 = ExampleServerTaskReq::decode_req(
        &codec,
        RpcAction::Str("sub_task_2"),
        456,
        &req_msg_2_buf,
        None,
        noti.clone(),
    )
    .unwrap();
    assert_eq!(task2.get_action(), RpcAction::Str("sub_task_2"));
    if let ExampleServerTaskReq::Task2(req_task_variant) = task2 {
        assert_eq!(req_task_variant.seq, 456);
        assert_eq!(req_task_variant.msg, req_msg_2_data);
        assert!(req_task_variant.blob.is_none());
    } else {
        panic!("Decoded to wrong variant");
    }

    let task3 = ExampleServerTaskReq::decode_req(
        &codec,
        RpcAction::Str("static_action"),
        0,
        &[],
        None,
        noti.clone(),
    )
    .unwrap();
    assert_eq!(task3.get_action(), RpcAction::Str("static_action"));
    if let ExampleServerTaskReq::Task3(inner_task) = task3 {
        assert_eq!(inner_task, StaticActionTask);
    } else {
        panic!("Decoded to wrong variant");
    }

    let req_task_variant_from_sub = ServerTaskVariant {
        seq: 3,
        action: RpcActionOwned::Num(1),
        msg: ReqMsg1::default(),
        blob: None,
        res: None,
        noti: Some(noti.clone()),
    };
    let server_task_from_sub: ExampleServerTaskReq = req_task_variant_from_sub.into();
    assert!(matches!(server_task_from_sub, ExampleServerTaskReq::Task1(_)));
    assert_eq!(server_task_from_sub.get_action(), RpcAction::Num(1));
}

type Resp1 = ServerTaskVariant<ExampleServerTaskResp, Msg1, i32>;
type Resp2 = ServerTaskVariant<ExampleServerTaskResp, Msg2, i32>;

enum ExampleServerTaskResp {
    Task1(Resp1),
    Task2(Resp2),
}

impl ServerTaskEncode<PlainCodec> for ExampleServerTaskResp {
    fn is_answered(&self) -> bool {
        match self {
            ExampleServerTaskResp::Task1(t) => ServerTaskEncode::<PlainCodec>::is_answered(t),
            ExampleServerTaskResp::Task2(t) => ServerTaskEncode::<PlainCodec>::is_answered(t),
        }
    }

    fn encode_resp<'a>(
        &'a mut self, codec: &PlainCodec, buf: &mut Vec<u8>,
    ) -> (u64, Result<(usize, Option<&'a [u8]>), EncodedErr>) {
        match self {
            ExampleServerTaskResp::Task1(t) => t.encode_resp(codec, buf),
            ExampleServerTaskResp::Task2(t) => t.encode_resp(codec, buf),
        }
    }
}

impl ServerTaskDone<ExampleServerTaskResp, i32> for ExampleServerTaskResp {
    fn _set_result(&mut self, res: Result<(), i32>) -> RespNoti<ExampleServerTaskResp> {
        match self {
            ExampleServerTaskResp::Task1(t) => t._set_result(res),
            ExampleServerTaskResp::Task2(t) => t._set_result(res),
        }
    }
}

#[test]
fn test_server_task_enum_resp_macro() {
    let args = vec![enum_arg("resp", None), enum_arg("error", Some("Errno"))];
    let variants = vec![enum_variant("Resp1", vec![]), enum_variant("Resp2", vec![])];
    let plan = server_task_enum_impl(&args, Some(&variants)).unwrap();
    assert!(plan.encode && !plan.decode && plan.resp_type.is_none());

    let codec = PlainCodec::default();
    let (tx, rx) = crossfire::mpsc::unbounded_blocking();
    let noti: RespNoti<ExampleServerTaskResp> = RespNoti::new(tx);

    let msg1_buf = encode(&Msg1::default());
    let variant1 =
        Resp1::decode_req(&codec, RpcAction::Num(1), 123, &msg1_buf, None, noti.clone()).unwrap();
    let msg2_buf = encode(&Msg2::default());
    let variant2 =
        Resp2::decode_req(&codec, RpcAction::Num(2), 456, &msg2_buf, None, noti.clone()).unwrap();

    let mut task1_for_encode = ExampleServerTaskResp::Task1(variant1);
    assert!(!task1_for_encode.is_answered());
    task1_for_encode._set_result(Err(Errno::EPERM as i32));
    assert!(task1_for_encode.is_answered());
    let mut buf = Vec::new();
    let (seq1, resp1) = task1_for_encode.encode_resp(&codec, &mut buf);
    assert_eq!(seq1, 123);
    assert!(matches!(
        (resp1.unwrap_err(), (Errno::EPERM as i32).encode(&codec)),
        (EncodedErr::Num(1), EncodedErr::Num(1))
    ));

    let mut task2_for_encode = ExampleServerTaskResp::Task2(variant2);
    task2_for_encode._set_result(Ok(()));
    let mut buf = Vec::new();
    let (seq2, resp2) = task2_for_encode.encode_resp(&codec, &mut buf);
    assert_eq!(seq2, 456);
    assert!(resp2.is_ok());

    let mut task_for_set_result = ExampleServerTaskResp::Task1(
        Resp1::decode_req(&codec, RpcAction::Num(1), 789, &msg1_buf, None, noti.clone()).unwrap(),
    );
    let _: RespNoti<ExampleServerTaskResp> = task_for_set_result._set_result(Ok(()));

    let task_for_set_result_done = ExampleServerTaskResp::Task2(
        Resp2::decode_req(&codec, RpcAction::Num(2), 101, &msg2_buf, None, noti.clone()).unwrap(),
    );
    assert_eq!(task_for_set_result_done.set_result(Ok(())).sent(), Ok(()));
    match rx.recv().unwrap() {
        Ok(ExampleServerTaskResp::Task2(t)) => {
            assert_eq!(t.seq, 101);
            assert_eq!(t.res, Some(Ok(())));
            assert!(t.noti.is_none());
        }
        _ => panic!("wrong item"),
    }
}

enum MultiActionServerTask {
    TaskA(Sub1),
}

fn multi_table() -> &'static Vec<Vec<RpcActionOwned>> {
    static TABLE: OnceLock<Vec<Vec<RpcActionOwned>>> = OnceLock::new();
    TABLE.get_or_init(|| {
        action_table(vec![enum_variant(
            "Sub1",
            vec![number(1), number(2), named_action("action_str")],
        )])
    })
}

impl ServerTaskDecode<PlainCodec, RpcSvrResp> for MultiActionServerTask {
    fn decode_req(
        codec: &PlainCodec, action: RpcAction<'_>, seq: u64, msg: &[u8], blob: Option<Buffer>,
        noti: RespNoti<RpcSvrResp>,
    ) -> Result<Self, ()> {
        match select_variant(multi_table(), &action) {
            Some(_) => Ok(MultiActionServerTask::TaskA(Sub1::decode_req(
                codec, action, seq, msg, blob, noti,
            )?)),
            None => Err(()),
        }
    }
}

impl ServerTaskAction for MultiActionServerTask {
    fn get_action<'a>(&'a self) -> RpcAction<'a> {
        let MultiActionServerTask::TaskA(t) = self;
        tell_action(&multi_table()[0], Some(t.get_action())).unwrap()
    }
}

#[test]
fn test_server_task_enum_multiple_actions() {
    let codec = PlainCodec::default();
    let (tx, _rx) = crossfire::mpsc::unbounded_async();
    let noti: RespNoti<RpcSvrResp> = RespNoti::new(tx);
    let req_msg_data = ReqMsg1 { val: 100 };
    let req_msg_buf = encode(&req_msg_data);

    let cases =
        [(RpcAction::Num(1), 123), (RpcAction::Num(2), 456), (RpcAction::Str("action_str"), 789)];
    for (action, seq) in cases {
        let task = MultiActionServerTask::decode_req(
            &codec,
            action,
            seq,
            &req_msg_buf,
            None,
            noti.clone(),
        )
        .unwrap();
        assert_eq!(task.get_action(), action);
        let MultiActionServerTask::TaskA(req_task_variant) = task;
        assert_eq!(req_task_variant.seq, seq);
        assert_eq!(req_task_variant.msg, req_msg_data);
    }
}

#[test]
fn an_action_that_no_variant_lists_is_refused() {
    assert_eq!(select_variant(example_table(), &RpcAction::Num(2)), None);
    assert_eq!(select_variant(example_table(), &RpcAction::Str("1")), None);
    assert_eq!(select_variant(example_table(), &RpcAction::Str("static_action")), Some(2));
    let twice = action_table(vec![
        enum_variant("A", vec![number(1), number(7)]),
        enum_variant("B", vec![number(7)]),
    ]);
    assert_eq!(select_variant(&twice, &RpcAction::Num(7)), Some(0));
    assert_eq!(tell_action(&twice[0], None), None);
    assert_eq!(tell_action(&twice[1], None), Some(RpcAction::Num(7)));
}

#[test]
fn test_server_task_enum_define() {
    let args =
        vec![enum_arg("req", None), enum_arg("resp", None), enum_arg("error", Some("Errno"))];
    let variants = vec![
        enum_variant("ServerTaskVariantFull < FileServerTask , FileOpenReq >", vec![number(1)]),
        enum_variant("ServerTaskVariantFull < FileServerTask , FileReadReq >", vec![number(2)]),
    ];
    let plan = server_task_enum_impl(&args, Some(&variants)).unwrap();
    assert!(plan.decode && plan.encode && plan.resp_type.is_none());
    assert_eq!(plan.actions.len(), 2);
    assert!(matches!(&plan.actions[0][..], [ServerAction::Int(n)] if n == "1"));
    assert!(matches!(&plan.actions[1][..], [ServerAction::Int(n)] if n == "2"));
}

#[test]
fn server_enums_that_are_refused() {
    let good = || vec![enum_variant("A", vec![number(1)])];
    let refused = |args: &[EnumArg], variants: Vec<VariantDesc>| {
        let args = args.iter().map(|a| enum_arg(&a.name, a.value.as_deref())).collect();
        server_task_enum_impl(&args, Some(&variants)).unwrap_err()
    };
    let req = enum_arg("req", None);
    let to = enum_arg("resp_type", Some("R"));
    assert_eq!(refused(&[], good()), ServerEnumError::NoRole);
    assert_eq!(refused(&[req], good()), ServerEnumError::MissingRespType);
    assert_eq!(refused(&[enum_arg("resp", None)], good()), ServerEnumError::MissingError);
    assert_eq!(refused(&[to, enum_arg("debug", None)], good()), ServerEnumError::UnknownArg(1));
    let args = vec![enum_arg("req", None), enum_arg("resp_type", Some("R"))];
    assert_eq!(server_task_enum_impl(&args, None).unwrap_err(), ServerEnumError::NotEnum);
    let second = |v: VariantDesc| vec![enum_variant("A", vec![number(1)]), v];
    assert_eq!(refused(&args, second(enum_variant("B", vec![]))), ServerEnumError::MissingAction(1));
    assert_eq!(
        refused(&args, second(enum_variant("B", vec![number(2), ActionDesc::OtherLit]))),
        ServerEnumError::UnsupportedAction(1)
    );
    let mut v = enum_variant("B", vec![number(2)]);
    v.inner = None;
    let e = refused(&args, second(v));
    assert_eq!(e, ServerEnumError::NotSingleField(1));
    assert_eq!(e.message(), "Enum variants must be tuple-style with a single field");
}

type Full = ServerTaskVariantFull<FullParent, ReqMsg1, ReqMsg2, i32>;

struct FullParent(Full);

impl From<Full> for FullParent {
    fn from(task: Full) -> FullParent {
        FullParent(task)
    }
}

#[test]
fn full_variant_answers() {
    let codec = PlainCodec::default();
    let (tx, rx) = crossfire::mpsc::unbounded_blocking();
    let noti: RespNoti<FullParent> = RespNoti::new(tx);
    let mut task = Full::decode_req(
        &codec,
        RpcAction::Num(4),
        9,
        &encode(&ReqMsg1 { val: 5 }),
        None,
        noti.clone(),
    )
    .unwrap();
    assert_eq!(task.get_action(), RpcAction::Num(4));
    assert_eq!(task.req, ReqMsg1 { val: 5 });
    task.resp = Some(ReqMsg2 { name: "five".to_string() });
    task.resp_blob = Some(Buffer::from(b"blob".to_vec()));
    task.set_result(Ok(()));
    let FullParent(mut done) = rx.recv().unwrap().unwrap();
    let mut buf = vec![1, 2];
    let (seq, r) = done.encode_resp(&codec, &mut buf);
    assert_eq!(seq, 9);
    let (len, blob) = r.unwrap();
    assert_eq!((len, blob), (4, Some(b"blob".as_slice())));
    assert_eq!(buf, [1, 2, b'f', b'i', b'v', b'e']);

    done.resp = None;
    let mut buf = vec![];
    let (_, r) = done.encode_resp(&codec, &mut buf);
    assert_eq!(r.unwrap().0, 0);
    assert!(buf.is_empty());

    assert_eq!(noti.send_err(12, Some(RpcIntErr::Decode)).sent(), Ok(()));
    assert!(matches!(rx.recv().unwrap(), Err((12, Some(RpcIntErr::Decode)))));
    drop(rx);
    assert_eq!(noti.send_err(13, None).sent(), Err(()));
}

#[test]
fn encoded_answers_are_taken_as_they_are() {
    let mut resp = RpcSvrResp {
        seq: 3,
        msg: Some(b"msg".to_vec()),
        blob: None,
        res: Some(Ok(())),
    };
    let mut buf = vec![];
    let (seq, r) = resp.encode_resp(&PlainCodec, &mut buf);
    assert_eq!(seq, 3);
    assert_eq!(r.unwrap(), (3, None));
    assert_eq!(buf, b"msg");
    assert!(resp.res.is_none());
    resp.res = Some(Err(EncodedErr::Static("bad")));
    let (_, r) = resp.encode_resp(&PlainCodec, &mut buf);
    assert!(matches!(r.unwrap_err(), EncodedErr::Static("bad")));
    assert_eq!(buf, b"msg");
    assert_eq!((resp.seq, resp.msg, resp.res.is_none()), (3, Some(b"msg".to_vec()), true));
}

#[test]
fn dispatch_decodes_and_hands_over() {
    let (tx, _rx) = crossfire::mpsc::unbounded_async();
    let noti: RespNoti<RpcSvrResp> = RespNoti::new(tx);
    let dispatch: DispatchClosure<Sub1, RpcSvrResp, _> =
        DispatchClosure::new(|t: Sub1| (t.seq, t.msg.val));
    let msg = encode(&ReqMsg1 { val: 77 });
    let req = |msg| RpcSvrReq { seq: 5, action: RpcAction::Num(1), msg, blob: None };
    assert_eq!(dispatch.dispatch_req(&PlainCodec, req(&msg), noti.clone()), Ok((5, 77)));
    assert_eq!(dispatch.dispatch_req(&PlainCodec, req(b"no"), noti), Err(()));
}

#[test]
fn tasks_as_text() {
    assert_eq!(describe_task(7, "Num(1)", "Msg1", None), "task seq=7 action=Num(1) Msg1");
    assert_eq!(describe_task(7, "Num(1)", "Msg1", Some(Ok(()))), "task seq=7 action=Num(1) Msg1 ok");
    assert_eq!(
        describe_task(10, "Str(\"a\")", "Msg1", Some(Err("EPERM"))),
        "task seq=10 action=Str(\"a\") Msg1 err: EPERM"
    );
}
