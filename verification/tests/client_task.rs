use crossfire::mpsc;
use nix::errno::Errno;
use occams_rpc::client::task::{
    ClientTask, ClientTaskAction, ClientTaskCommon, ClientTaskDecode, ClientTaskDone,
    ClientTaskEncode, ClientTaskGetResult,
};
use occams_rpc::client::variant::{describe_task, ClientTaskEnumVariant, ClientTaskVariant};
use occams_rpc::codec::Codec;
use occams_rpc::declare::client_task::{
    client_task_impl, ActionPlan, ClientTaskPlan, FieldDesc, TaskArg,
};
use occams_rpc::declare::client_task_enum::{
    client_task_enum_impl, ActionAttr, VariantAction, VariantDesc,
};
use occams_rpc::declare::syntax::{ActionDesc, ArgDesc, PathDesc, SegmentDesc, TypeDesc};
use occams_rpc::error::{EncodedErr, RpcErrCodec, RpcError, RpcIntErr};
use occams_rpc::proto::{RpcAction, RpcActionOwned};

/// A message with a plain encoding.
trait Wire: Sized {
    fn put(&self, buf: &mut Vec<u8>);
    fn get(buf: &[u8]) -> Option<Self>;
}

#[derive(Default)]
struct PlainCodec;

impl<M: Wire> Codec<M> for PlainCodec {
    fn encode_into(&self, msg: &M, buf: &mut Vec<u8>) -> Result<usize, ()> {
        let n = buf.len();
        msg.put(buf);
        Ok(buf.len() - n)
    }

    fn decode(&self, buf: &[u8]) -> Result<M, ()> {
        M::get(buf).ok_or(())
    }
}

impl Wire for () {
    fn put(&self, _buf: &mut Vec<u8>) {}

    fn get(_buf: &[u8]) -> Option<()> {
        Some(())
    }
}

impl Wire for u32 {
    fn put(&self, buf: &mut Vec<u8>) {
        buf.extend_from_slice(&self.to_le_bytes());
    }

    fn get(buf: &[u8]) -> Option<u32> {
        Some(u32::from_le_bytes(buf.try_into().ok()?))
    }
}

impl Wire for String {
    fn put(&self, buf: &mut Vec<u8>) {
        buf.extend_from_slice(self.as_bytes());
    }

    fn get(buf: &[u8]) -> Option<String> {
        String::from_utf8(buf.to_vec()).ok()
    }
}

#[derive(Default, Debug, PartialEq, Clone)]
struct FileIOReq {
    inode: u64,
    offset: i64,
}

impl Wire for FileIOReq {
    fn put(&self, buf: &mut Vec<u8>) {
        buf.extend_from_slice(&self.inode.to_le_bytes());
        buf.extend_from_slice(&self.offset.to_le_bytes());
    }

    fn get(buf: &[u8]) -> Option<FileIOReq> {
        if buf.len() != 16 {
            return None;
        }
        Some(FileIOReq {
            inode: u64::from_le_bytes(buf[0..8].try_into().ok()?),
            offset: i64::from_le_bytes(buf[8..16].try_into().ok()?),
        })
    }
}

#[derive(Default, Debug, PartialEq)]
struct FileIOResp {
    read_size: u64,
}

impl Wire for FileIOResp {
    fn put(&self, buf: &mut Vec<u8>) {
        buf.extend_from_slice(&self.read_size.to_le_bytes());
    }

    fn get(buf: &[u8]) -> Option<FileIOResp> {
        Some(FileIOResp { read_size: u64::from_le_bytes(buf.try_into().ok()?) })
    }
}

/// Where tasks go back to that nobody waits for.
struct Nobody;

impl<Q, P> From<ClientTaskVariant<Nobody, Q, P, i32>> for Nobody {
    fn from(_task: ClientTaskVariant<Nobody, Q, P, i32>) -> Nobody {
        Nobody
    }
}

type Plain<Q, P> = ClientTaskVariant<Nobody, Q, P, i32>;

fn plain<Q, P>(seq: u64, action: RpcActionOwned, req: Q) -> Plain<Q, P> {
    ClientTaskVariant {
        common: ClientTaskCommon { seq },
        action,
        req,
        req_blob: None,
        resp: None,
        with_resp_blob: false,
        resp_blob: None,
        res: None,
        noti: None,
    }
}

fn encode<M: Wire>(msg: &M) -> Vec<u8> {
    let mut buf = Vec::new();
    PlainCodec.encode_into(msg, &mut buf).unwrap();
    buf
}

fn decode<M: Wire>(buf: &[u8]) -> M {
    PlainCodec.decode(buf).unwrap()
}

// Declarations as plain values.

fn arg(ty: TypeDesc, text: &str) -> ArgDesc {
    ArgDesc { ty: Some(ty), text: text.to_string() }
}

fn named(ident: &str) -> TypeDesc {
    TypeDesc::Path(PathDesc {
        qself: false,
        leading_colon: false,
        segments: vec![SegmentDesc { ident: ident.to_string(), args: None }],
    })
}

fn generic(ident: &str, args: Vec<ArgDesc>) -> TypeDesc {
    TypeDesc::Path(PathDesc {
        qself: false,
        leading_colon: false,
        segments: vec![SegmentDesc { ident: ident.to_string(), args: Some(args) }],
    })
}

fn option(inner: &str) -> TypeDesc {
    generic("Option", vec![arg(named(inner), inner)])
}

fn res_type(error: &str) -> TypeDesc {
    let rpc_error = generic("RpcError", vec![arg(named(error), error)]);
    let unit = TypeDesc::Tuple { empty: true };
    let result = generic(
        "Result",
        vec![arg(unit, "()"), arg(rpc_error, &format!("RpcError<{}>", error))],
    );
    generic("Option", vec![arg(result, &format!("Result<(), RpcError<{}>>", error))])
}

fn noti_type(to: &str) -> TypeDesc {
    let mtx = generic("MTx", vec![arg(named(to), to)]);
    generic("Option", vec![arg(mtx, &format!("MTx<{}>", to))])
}

fn field(name: &str, ty: TypeDesc, role: &str) -> FieldDesc {
    let roles = if role.is_empty() { vec![] } else { vec![role.to_string()] };
    FieldDesc { name: name.to_string(), ty, roles }
}

fn basic_fields(req: &str, resp: &str) -> Vec<FieldDesc> {
    vec![
        field("common", named("ClientTaskCommon"), "common"),
        field("req", named(req), "req"),
        field("resp", option(resp), "resp"),
    ]
}

fn plan(args: Vec<TaskArg>, fields: Vec<FieldDesc>) -> ClientTaskPlan {
    client_task_impl(&args, &fields).expect("plan")
}

#[test]
fn test_client_task_macro() {
    let p = plan(vec![], basic_fields("FileIOReq", "FileIOResp"));
    assert_eq!((p.common, p.req, p.resp), (0, 1, 2));
    assert!(!p.debug && p.req_blob.is_none() && p.resp_blob.is_none() && p.done.is_none());
    assert!(matches!(p.action, ActionPlan::Absent));

    let mut task: Plain<FileIOReq, FileIOResp> =
        plain(123, RpcActionOwned::Num(0), FileIOReq { inode: 1, offset: 100 });
    let codec = PlainCodec::default();

    assert_eq!(task.common.seq(), 123);
    task.common.seq = 456;
    assert_eq!(task.common.seq(), 456);
    ClientTask::<PlainCodec>::set_seq(&mut task, 789);
    assert_eq!(ClientTask::<PlainCodec>::seq(&task), 789);

    let mut req_buf = Vec::new();
    task.encode_req(&codec, &mut req_buf).expect("encode");
    let req_copy: FileIOReq = decode(&req_buf);
    assert_eq!(task.req, req_copy);

    let resp = FileIOResp { read_size: 1024 };
    let resp_buffer = encode(&resp);
    let result = task.decode_resp(&codec, &resp_buffer);
    assert!(result.is_ok());
    assert_eq!(task.resp, Some(resp));
}

#[test]
fn test_client_task_macro_with_req_blob() {
    let mut fields = basic_fields("FileIOReq", "FileIOResp");
    fields.push(field("blob", named("Vec"), "req_blob"));
    assert_eq!(plan(vec![], fields).req_blob, Some(3));

    let req_data = FileIOReq { inode: 2, offset: 200 };
    let blob_data = vec![1, 2, 3, 4, 5];

    let mut task: Plain<FileIOReq, FileIOResp> =
        plain(123, RpcActionOwned::Num(0), req_data.clone());
    task.req_blob = Some(blob_data.clone());

    let retrieved_blob = ClientTaskEncode::<PlainCodec>::get_req_blob(&task);
    assert_eq!(retrieved_blob, Some(blob_data.as_slice()));
    let codec = PlainCodec::default();

    let mut encoded_req_only = Vec::new();
    task.encode_req(&codec, &mut encoded_req_only).expect("encode");
    let req_copy: FileIOReq = decode(&encoded_req_only);
    assert_eq!(task.req, req_copy);

    let mut task_decode: Plain<FileIOReq, FileIOResp> =
        plain(123, RpcActionOwned::Num(0), req_data.clone());
    task_decode.req_blob = Some(blob_data.clone());
    let resp = FileIOResp { read_size: 2048 };
    let resp_buffer = encode(&resp);
    let result = task_decode.decode_resp(&codec, &resp_buffer);
    assert!(result.is_ok());
    assert_eq!(task_decode.resp, Some(resp));
}

#[test]
fn test_client_task_macro_with_resp_blob() {
    let mut fields = basic_fields("FileIOReq", "FileIOResp");
    fields.push(field("resp_blob", generic("Option", vec![]), "resp_blob"));
    assert_eq!(plan(vec![], fields).resp_blob, Some(3));

    let req_data = FileIOReq { inode: 3, offset: 300 };
    let resp_data = FileIOResp { read_size: 4096 };
    let initial_resp_blob = Some(vec![6, 7, 8, 9, 10]);

    let mut task: Plain<FileIOReq, FileIOResp> =
        plain(123, RpcActionOwned::Num(0), req_data.clone());
    task.with_resp_blob = true;
    task.resp_blob = initial_resp_blob;

    assert!(ClientTaskDecode::<PlainCodec>::reserve_resp_blob(&mut task, 20).is_some());
    assert_eq!(task.resp_blob.as_ref().map(|b| b.len()), Some(20));

    let codec = PlainCodec::default();

    let mut encoded_req_only = Vec::new();
    task.encode_req(&codec, &mut encoded_req_only).expect("encode");
    let req_copy: FileIOReq = decode(&encoded_req_only);
    assert_eq!(task.req, req_copy);

    let resp_buffer = encode(&resp_data);
    let result = task.decode_resp(&codec, &resp_buffer);
    assert!(result.is_ok());
    assert_eq!(task.resp, Some(resp_data));
}

#[test]
fn task_without_resp_blob_takes_none() {
    let mut task: Plain<(), ()> = plain(1, RpcActionOwned::Num(1), ());
    assert!(ClientTaskDecode::<PlainCodec>::reserve_resp_blob(&mut task, 20).is_none());
    assert!(task.resp_blob.is_none());
    task.with_resp_blob = true;
    ClientTaskDecode::<PlainCodec>::reserve_resp_blob(&mut task, 3).unwrap().copy_from_slice(b"abc");
    assert_eq!(task.resp_blob, Some(b"abc".to_vec()));
}

#[test]
fn test_client_task_macro_field_action() {
    let mut fields = basic_fields("MyReq", "MyResp");
    fields.push(field("action_num", named("u8"), "action"));
    assert!(matches!(
        plan(vec![], fields).action,
        ActionPlan::Field { field: 3, string: false }
    ));
    let mut fields = basic_fields("MyReq", "MyResp");
    fields.push(field("action_str", named("String"), "action"));
    assert!(matches!(
        plan(vec![], fields).action,
        ActionPlan::Field { field: 3, string: true }
    ));

    let mut num_plan = basic_fields("MyReq", "MyResp");
    num_plan.push(field("action_num", named("u8"), "action"));
    let num_plan = plan(vec![], num_plan).action;
    let told = num_plan.action(Some(RpcAction::Num(5)));
    let task_num: Plain<u32, u32> = plain(1, told.unwrap().to_owned_action(), 10);
    assert_eq!(task_num.get_action(), RpcAction::Num(5));
    assert_eq!(num_plan.action(Some(RpcAction::Str("5"))), None);
    assert_eq!(num_plan.action(None), None);

    let mut str_plan = basic_fields("MyReq", "MyResp");
    str_plan.push(field("action_str", named("String"), "action"));
    let str_plan = plan(vec![], str_plan).action;
    let told = str_plan.action(Some(RpcAction::Str("my_action")));
    let task_str: Plain<u32, u32> = plain(2, told.unwrap().to_owned_action(), 20);
    assert_eq!(task_str.get_action(), RpcAction::Str("my_action"));
    assert_eq!(str_plan.action(Some(RpcAction::Num(5))), None);
}

fn static_plan(action: ActionDesc) -> ActionPlan {
    plan(vec![TaskArg::Action(action)], basic_fields("MyReq", "MyResp")).action
}

fn static_action(action: ActionPlan, enum_value: i32) -> RpcActionOwned {
    action.action(Some(RpcAction::Num(enum_value))).expect("static action").to_owned_action()
}

#[test]
fn test_client_task_macro_static_action() {
    let num = ActionDesc::Int("10".to_string(), Some(10));
    let task_num: Plain<u32, u32> = plain(1, static_action(static_plan(num), 0), 10);
    assert_eq!(task_num.get_action(), RpcAction::Num(10));

    let name = ActionDesc::Str("static_str_action".to_string());
    let task_str: Plain<u32, u32> = plain(2, static_action(static_plan(name), 0), 20);
    assert_eq!(task_str.get_action(), RpcAction::Str("static_str_action"));

    let open = ActionDesc::Path("Action::Open".to_string());
    let task_enum: Plain<u32, u32> = plain(3, static_action(static_plan(open), 1), 30);
    assert_eq!(task_enum.get_action(), RpcAction::Num(1));

    let num = ActionDesc::Int("100".to_string(), Some(100));
    let new_task_num: Plain<u32, u32> = plain(4, static_action(static_plan(num), 0), 40);
    assert_eq!(new_task_num.get_action(), RpcAction::Num(100));

    let name = ActionDesc::Str("new_static_str_action".to_string());
    let new_task_str: Plain<u32, u32> = plain(5, static_action(static_plan(name), 0), 50);
    assert_eq!(new_task_str.get_action(), RpcAction::Str("new_static_str_action"));

    let write = ActionDesc::Path("Action::Write".to_string());
    let new_task_enum: Plain<u32, u32> = plain(6, static_action(static_plan(write), 3), 60);
    assert_eq!(new_task_enum.get_action(), RpcAction::Num(3));
}

type DoneVariant = ClientTaskVariant<TaskWithDone, (), (), i32>;

struct TaskWithDone(DoneVariant);

impl From<DoneVariant> for TaskWithDone {
    fn from(task: DoneVariant) -> TaskWithDone {
        TaskWithDone(task)
    }
}

fn done_task(seq: u64, noti: Option<crossfire::MTx<TaskWithDone>>) -> DoneVariant {
    ClientTaskVariant {
        common: ClientTaskCommon { seq },
        action: RpcActionOwned::Num(0),
        req: (),
        req_blob: None,
        resp: None,
        with_resp_blob: false,
        resp_blob: None,
        res: None,
        noti,
    }
}

fn result_of(task: &DoneVariant) -> Result<(), &RpcError<i32>> {
    ClientTaskGetResult::<PlainCodec>::get_result(task)
}

#[test]
fn test_client_task_macro_with_done() {
    let mut fields = basic_fields("()", "()");
    fields.push(field("res", res_type("Errno"), "res"));
    fields.push(field("noti", noti_type("Self"), "noti"));
    let done = plan(vec![], fields).done.expect("done");
    assert_eq!((done.res, done.noti), (3, 4));
    assert_eq!((done.error_type.as_str(), done.noti_type.as_str()), ("Errno", "Self"));

    let (done_tx, done_rx) = mpsc::unbounded_blocking();
    let mut task_ok = done_task(1, Some(done_tx.clone()));
    assert_eq!(result_of(&task_ok), Err(&RpcError::Rpc(RpcIntErr::Internal)));

    ClientTaskDone::<PlainCodec>::set_ok(&mut task_ok);
    let receipt = ClientTaskDone::<PlainCodec>::done(task_ok);
    assert_eq!(receipt.unwrap().sent(), Ok(()));

    let received_task_ok = done_rx.recv().unwrap().0;
    assert_eq!(received_task_ok.common.seq, 1);
    assert_eq!(received_task_ok.res, Some(Ok(())));
    assert!(received_task_ok.noti.is_none());
    assert_eq!(result_of(&received_task_ok), Ok(()));

    let codec = PlainCodec::default();
    let mut task_err = done_task(2, Some(done_tx.clone()));
    assert_eq!(result_of(&task_err), Err(&RpcError::Rpc(RpcIntErr::Internal)));

    let custom_error = Errno::EAGAIN as i32;
    let encoded_error = custom_error.encode(&codec);
    task_err.set_custom_error(&codec, encoded_error);
    ClientTaskDone::<PlainCodec>::done(task_err);

    let received_task_err = done_rx.recv().unwrap().0;
    assert_eq!(received_task_err.common.seq, 2);
    assert_eq!(received_task_err.res, Some(Err(RpcError::User(custom_error))));
    assert!(received_task_err.noti.is_none());
    assert_eq!(result_of(&received_task_err), Err(&RpcError::User(custom_error)));
}

#[test]
fn errors_of_a_response() {
    let codec = PlainCodec::default();
    let mut task = done_task(1, None);
    task.set_custom_error(&codec, EncodedErr::Rpc(RpcIntErr::Version));
    assert_eq!(result_of(&task), Err(&RpcError::Rpc(RpcIntErr::Version)));
    task.set_custom_error(&codec, EncodedErr::Num(7));
    assert_eq!(result_of(&task), Err(&RpcError::User(7)));
    task.set_custom_error(&codec, EncodedErr::Num(0x8000_0000));
    assert_eq!(result_of(&task), Err(&RpcError::Rpc(RpcIntErr::Decode)));
    task.set_custom_error(&codec, EncodedErr::Static("seven"));
    assert_eq!(result_of(&task), Err(&RpcError::Rpc(RpcIntErr::Decode)));
    task.set_custom_error(&codec, EncodedErr::Buf(vec![7]));
    assert_eq!(result_of(&task), Err(&RpcError::Rpc(RpcIntErr::Decode)));
    ClientTaskDone::<PlainCodec>::set_rpc_error(&mut task, RpcIntErr::Timeout);
    assert_eq!(result_of(&task), Err(&RpcError::Rpc(RpcIntErr::Timeout)));
    assert!(ClientTaskDone::<PlainCodec>::done(task).is_none());
}

#[test]
fn a_task_that_nobody_receives_is_dropped() {
    let (tx, rx) = mpsc::unbounded_blocking();
    drop(rx);
    let task = done_task(1, Some(tx));
    let receipt = ClientTaskDone::<PlainCodec>::done(task);
    assert_eq!(receipt.unwrap().sent(), Err(()));
}

fn debug_text(name: &str, task: &Plain<FileIOReq, FileIOResp>) -> String {
    let req = format!("{:?}", task.req);
    let resp = task.resp.as_ref().map(|r| format!("{:?}", r));
    describe_task(name, task.common.seq, &req, resp.as_deref())
}

#[test]
fn test_client_task_macro_with_debug() {
    assert!(plan(vec![TaskArg::Debug], basic_fields("FileIOReq", "FileIOResp")).debug);
    let task1: Plain<FileIOReq, FileIOResp> =
        plain(1, RpcActionOwned::Num(0), FileIOReq { inode: 10, offset: 100 });
    let debug_output1 = debug_text("TaskWithDebug", &task1);
    assert!(debug_output1.contains("TaskWithDebug(seq=1 req=FileIOReq { inode: 10, offset: 100 }"));
    assert!(!debug_output1.contains(" resp="));

    let mut task2: Plain<FileIOReq, FileIOResp> =
        plain(2, RpcActionOwned::Num(0), FileIOReq { inode: 20, offset: 200 });
    task2.resp = Some(FileIOResp { read_size: 512 });
    let debug_output2 = debug_text("TaskWithDebug", &task2);
    assert!(debug_output2.contains("TaskWithDebug(seq=2 req=FileIOReq { inode: 20, offset: 200 } resp=FileIOResp { read_size: 512 })"));

    let args = vec![
        TaskArg::Action(ActionDesc::Int("123".to_string(), Some(123))),
        TaskArg::Debug,
    ];
    let p = plan(args, basic_fields("()", "()"));
    assert!(p.debug);
    let task3: Plain<(), ()> = plain(3, static_action(p.action, 0), ());
    let debug_output3 = describe_task("TaskWithDebugAndAction", 3, &format!("{:?}", ()), None);
    assert!(debug_output3.contains("TaskWithDebugAndAction(seq=3 req=()"));
    assert_eq!(debug_output3, "TaskWithDebugAndAction(seq=3 req=())");
    assert_eq!(task3.get_action(), RpcAction::Num(123));
}

#[test]
fn test_client_task_define() {
    let declared = |action: &str, blob: FieldDesc| {
        let args =
            vec![TaskArg::Action(ActionDesc::Path(action.to_string())), TaskArg::Debug];
        let mut fields = basic_fields("FileIOReq", "FileIOResp");
        fields.push(blob);
        fields.push(field("res", res_type("Errno"), "res"));
        fields.push(field("noti", noti_type("Self"), "noti"));
        plan(args, fields)
    };
    let write = declared("FileAction::Write", field("req_blob", named("Vec"), "req_blob"));
    assert!(write.debug);
    assert!(matches!(&write.action, ActionPlan::Path(p) if p == "FileAction::Write"));
    assert_eq!((write.req_blob, write.resp_blob), (Some(3), None));
    assert!(write.done.is_some());
    let read = declared(
        "FileAction::Read",
        field("resp_blob", generic("Option", vec![]), "resp_blob"),
    );
    assert!(matches!(&read.action, ActionPlan::Path(p) if p == "FileAction::Read"));
    assert_eq!((read.req_blob, read.resp_blob), (None, Some(3)));
    assert!(read.done.is_some());
}

// An enum of tasks.

type TaskA = ClientTaskVariant<MyTask, String, String, i32>;
type TaskB = ClientTaskVariant<MyTask, u32, u32, i32>;
type TaskC = ClientTaskVariant<MyTask, (), (), i32>;

enum MyTask {
    A(ClientTaskEnumVariant<TaskA>),
    B(ClientTaskEnumVariant<TaskB>),
    C(ClientTaskEnumVariant<TaskC>),
}

impl From<TaskA> for MyTask {
    fn from(inner: TaskA) -> MyTask {
        MyTask::A(ClientTaskEnumVariant::from(inner))
    }
}

impl From<TaskB> for MyTask {
    fn from(inner: TaskB) -> MyTask {
        MyTask::B(ClientTaskEnumVariant::from(inner))
    }
}

impl From<TaskC> for MyTask {
    fn from(inner: TaskC) -> MyTask {
        MyTask::C(ClientTaskEnumVariant::from(inner))
    }
}

fn in_enum<N, Q, P>(
    action: RpcActionOwned, req: Q, noti: crossfire::MTx<N>,
) -> ClientTaskVariant<N, Q, P, i32> {
    ClientTaskVariant {
        common: ClientTaskCommon::default(),
        action,
        req,
        req_blob: None,
        resp: None,
        with_resp_blob: false,
        resp_blob: None,
        res: None,
        noti: Some(noti),
    }
}

#[test]
fn test_client_task_enum_delegation() {
    let (tx, rx) = mpsc::unbounded_blocking();
    let task_a: TaskA = in_enum(RpcActionOwned::Num(1), "hello".to_string(), tx.clone());
    let task_b: TaskB = in_enum(RpcActionOwned::Str("task_b".to_string()), 123, tx.clone());
    let mut task_c: TaskC = in_enum(RpcActionOwned::Num(3), (), tx.clone());
    task_c.req_blob = Some(vec![1, 2, 3]);
    task_c.with_resp_blob = true;
    task_c.resp_blob = Some(vec![]);

    let enum_task_a: MyTask = task_a.into();
    let MyTask::A(mut a) = enum_task_a else { panic!("Wrong enum variant") };
    ClientTask::<PlainCodec>::set_seq(&mut a, 10);
    assert_eq!(ClientTask::<PlainCodec>::seq(&a), 10);
    assert_eq!(a.get_action(), RpcAction::Num(1));

    let enum_task_b: MyTask = task_b.into();
    let MyTask::B(mut b) = enum_task_b else { panic!("Wrong enum variant") };
    assert_eq!(b.get_action(), RpcAction::Str("task_b"));
    let enum_task_c: MyTask = task_c.into();
    let MyTask::C(mut c) = enum_task_c else { panic!("Wrong enum variant") };
    assert_eq!(c.get_action(), RpcAction::Num(3));

    assert_eq!(
        ClientTaskGetResult::<PlainCodec>::get_result(&a),
        Err(&RpcError::Rpc(RpcIntErr::Internal))
    );
    ClientTaskDone::<PlainCodec>::set_ok(&mut a);
    ClientTaskDone::<PlainCodec>::done(a);
    let received = rx.recv().unwrap();
    let MyTask::A(received) = received else { panic!("Wrong enum variant") };
    assert_eq!(ClientTaskGetResult::<PlainCodec>::get_result(&received), Ok(()));

    let codec = PlainCodec::default();
    let mut msg_buf = Vec::new();
    b.encode_req(&codec, &mut msg_buf).expect("encode_req ok");
    b.inner.resp = None;
    assert!(b.decode_resp(&codec, &msg_buf).is_ok());
    assert_eq!(b.inner.resp, Some(123));

    assert_eq!(
        ClientTaskEncode::<PlainCodec>::get_req_blob(&c),
        Some(vec![1, 2, 3].as_slice())
    );
    assert!(ClientTaskDecode::<PlainCodec>::reserve_resp_blob(&mut c, 10).is_some());
}

fn variant(name: &str, inner: &str, actions: Vec<ActionAttr>) -> VariantDesc {
    VariantDesc { name: name.to_string(), inner: Some(inner.to_string()), actions }
}

#[test]
fn test_client_task_enum_with_action_attribute() {
    let variants = vec![
        variant(
            "A",
            "TaskActionOverwrite",
            vec![ActionAttr::List(vec![ActionDesc::Int("100".to_string(), Some(100))])],
        ),
        variant(
            "B",
            "TaskBWithAction",
            vec![ActionAttr::List(vec![ActionDesc::Str("action_b".to_string())])],
        ),
        variant("C", "TaskActionDelegate", vec![]),
    ];
    let p = client_task_enum_impl(Some("Errno".to_string()), Some(&variants)).expect("plan");
    assert_eq!(p.error_type, "Errno");
    assert_eq!(p.actions.len(), 3);

    // The number that is written stands in the attribute of the first variant.
    let given = |i: usize, written: i32| {
        p.actions[i].action(Some(RpcAction::Num(written))).map(|a| a.to_owned_action())
    };
    let enum_task_a: ClientTaskEnumVariant<Plain<String, String>> = ClientTaskEnumVariant {
        inner: plain(0, RpcActionOwned::Num(999), "hello".to_string()),
        action: given(0, 100),
    };
    assert_eq!(enum_task_a.get_action(), RpcAction::Num(100));

    let enum_task_b: ClientTaskEnumVariant<Plain<u32, u32>> = ClientTaskEnumVariant {
        inner: plain(0, RpcActionOwned::Str("task_b".to_string()), 123),
        action: given(1, 999),
    };
    assert_eq!(enum_task_b.get_action(), RpcAction::Str("action_b"));

    let enum_task_c: ClientTaskEnumVariant<Plain<String, String>> = ClientTaskEnumVariant {
        inner: plain(0, RpcActionOwned::Num(999), "hello".to_string()),
        action: None,
    };
    assert_eq!(enum_task_c.get_action(), RpcAction::Num(999));
    assert_eq!(p.actions[2].action(Some(enum_task_c.get_action())), Some(RpcAction::Num(999)));
    assert_eq!(p.actions[2].action(None), None);
    assert_eq!(p.actions[0].action(Some(RpcAction::Str("100"))), None);
}

#[test]
fn test_client_task_enum_define() {
    let args = |n: Option<i32>| match n {
        Some(n) => vec![TaskArg::Action(ActionDesc::Int(n.to_string(), Some(n))), TaskArg::Debug],
        None => vec![TaskArg::Debug],
    };
    let fields = |req: &str| {
        let mut f = basic_fields(req, "()");
        f.push(field("res", res_type("Errno"), "res"));
        f.push(field("noti", noti_type("FileTask"), "noti"));
        f
    };
    let open = plan(args(None), fields("String"));
    assert!(matches!(open.action, ActionPlan::Absent));
    assert_eq!(open.done.unwrap().noti_type, "FileTask");
    assert!(matches!(plan(args(Some(2)), fields("()")).action, ActionPlan::Num(2)));

    let variants = vec![
        variant(
            "Open",
            "FileOpenTask",
            vec![ActionAttr::List(vec![ActionDesc::Path("FileAction::Open".to_string())])],
        ),
        variant("Close", "FileCloseTask", vec![]),
    ];
    let p = client_task_enum_impl(Some("Errno".to_string()), Some(&variants)).expect("plan");
    assert!(matches!(&p.actions[0], VariantAction::Path(s) if s == "FileAction::Open"));
    assert!(matches!(p.actions[1], VariantAction::Inner));
}

type GenericTask<T> = ClientTaskVariant<MyEnumTask<T>, (), (), i32>;

enum MyEnumTask<T: Send + 'static> {
    VariantA(ClientTaskEnumVariant<GenericTask<T>>, std::marker::PhantomData<T>),
}

impl<T: Send + 'static> From<GenericTask<T>> for MyEnumTask<T> {
    fn from(inner: GenericTask<T>) -> MyEnumTask<T> {
        MyEnumTask::VariantA(
            ClientTaskEnumVariant { inner, action: None },
            std::marker::PhantomData,
        )
    }
}

#[test]
fn test_client_task_enum_with_generic_struct() {
    let (tx, rx) = mpsc::unbounded_blocking();
    let task: GenericTask<u32> = in_enum(RpcActionOwned::Num(1), (), tx);

    let enum_task: MyEnumTask<u32> = task.into();
    let MyEnumTask::VariantA(mut a, _) = enum_task;
    assert_eq!(a.get_action(), RpcAction::Num(1));

    ClientTaskDone::<PlainCodec>::set_ok(&mut a);
    ClientTaskDone::<PlainCodec>::done(a);

    let received = rx.recv().unwrap();
    assert!(matches!(received, MyEnumTask::VariantA(_, _)));
}
