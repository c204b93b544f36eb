use crossfire::mpsc;
use occams_rpc::client::caller::{ClientCallerBlocking, PoolSender};
use occams_rpc::client::failover::{ErrorHandle, FailoverPool, FailoverTask, SendReq};
use occams_rpc::client::pool::{
    cleanup_task, ClientPool, PoolWorker, WorkAction, WorkEvent, WorkState, WorkerAction,
    WorkerEvent, WorkerState,
};
use occams_rpc::client::stream::{
    ClientStreamInner, PingReq, RecvEvent, RecvStep, SendTask, Written,
};
use occams_rpc::client::task::{
    ClientTask, ClientTaskAction, ClientTaskCommon, ClientTaskDecode, ClientTaskDone,
};
use occams_rpc::client::timer::{ClientTaskItem, ClientTaskTimer, TakeTask};
use occams_rpc::client::variant::ClientTaskVariant;
use occams_rpc::codec::Codec;
use occams_rpc::error::{EncodedErr, RpcError, RpcIntErr};
use occams_rpc::proto::{ReqHead, RpcAction, RpcActionOwned};
use std::sync::Arc;

struct UnitCodec;

impl Codec<u8> for UnitCodec {
    fn encode_into(&self, msg: &u8, buf: &mut Vec<u8>) -> Result<usize, ()> {
        if *msg == 0 {
            return Err(());
        }
        buf.push(*msg);
        Ok(1)
    }

    fn decode(&self, buf: &[u8]) -> Result<u8, ()> {
        buf.first().copied().ok_or(())
    }
}

type Task = ClientTaskVariant<Back, u8, u8, i32>;

struct Back(Task);

impl From<Task> for Back {
    fn from(task: Task) -> Back {
        Back(task)
    }
}

fn task(seq: u64) -> Task {
    ClientTaskVariant {
        common: ClientTaskCommon { seq },
        action: RpcActionOwned::Num(1),
        req: 7,
        req_blob: None,
        resp: None,
        with_resp_blob: false,
        resp_blob: None,
        res: None,
        noti: None,
    }
}

type Timer = ClientTaskTimer<UnitCodec, Task, ()>;
type Stream = ClientStreamInner<UnitCodec, Task, ()>;

fn item(seq: u64) -> ClientTaskItem<Task, ()> {
    ClientTaskItem { task: Some(task(seq)), upstream: None }
}

fn seqs(tasks: &[Task]) -> Vec<u64> {
    let mut s: Vec<u64> = tasks.iter().map(|t| t.common.seq).collect();
    s.sort();
    s
}

fn error_of(task: &Task) -> RpcIntErr {
    match task.res {
        Some(Err(RpcError::Rpc(e))) => e,
        _ => panic!("no error"),
    }
}

#[test]
fn a_registered_task_is_found_once() {
    let mut timer: Timer = ClientTaskTimer::new("c".to_string(), 3, 0);
    assert_eq!(timer.conn_id(), "c");
    assert_eq!(timer.pending_bound(), 1000);
    assert!(matches!(timer.take_task(1), TakeTask::Wait));
    timer.add_pending();
    timer.add_pending();
    assert_eq!(*timer.pending_task_count_ref(), 2);
    assert!(timer.poll_sent_task(vec![item(1), item(2)]));
    assert!(!timer.poll_sent_task(vec![]));
    assert_eq!(*timer.pending_task_count_ref(), 0);
    assert!(!timer.check_pending_tasks_empty());
    match timer.take_task(1) {
        TakeTask::Found(i) => assert_eq!(i.task.unwrap().common.seq, 1),
        _ => panic!("not found"),
    }
    assert!(matches!(timer.take_task(1), TakeTask::Gone));
    assert!(timer.adjust_task_queue().is_empty());
    match timer.take_task(2) {
        TakeTask::Found(i) => assert_eq!(i.task.unwrap().common.seq, 2),
        _ => panic!("not found"),
    }
    assert!(timer.check_pending_tasks_empty());
    assert!(matches!(timer.take_task(3), TakeTask::Wait));
    timer.stop_reg_task();
    assert!(matches!(timer.take_task(3), TakeTask::Gone));
}

#[test]
fn tasks_time_out_after_their_seconds() {
    let mut timer: Timer = ClientTaskTimer::new("c".to_string(), 2, 10);
    assert_eq!(timer.pending_bound(), 20);
    timer.got_pending_task(item(5));
    timer.got_pending_task(item(6));
    assert!(timer.adjust_task_queue().is_empty());
    timer.got_pending_task(item(7));
    assert!(timer.adjust_task_queue().is_empty());
    let out = timer.adjust_task_queue();
    assert_eq!(seqs(&out), [5, 6]);
    assert!(out.iter().all(|t| error_of(t) == RpcIntErr::Timeout));
    assert!(matches!(timer.take_task(4), TakeTask::Gone));
    assert!(matches!(timer.take_task(5), TakeTask::Gone));
    assert_eq!(seqs(&timer.adjust_task_queue()), [7]);
    assert!(timer.check_pending_tasks_empty());
}

#[test]
fn a_task_times_out_whatever_else_happens() {
    let mut timer: Timer = ClientTaskTimer::new("c".to_string(), 2, 10);
    timer.got_pending_task(item(1));
    timer.got_pending_task(item(2));
    assert!(matches!(timer.take_task(2), TakeTask::Found(_)));
    assert!(timer.adjust_task_queue().is_empty());
    timer.got_pending_task(item(3));
    assert!(matches!(timer.take_task(3), TakeTask::Found(_)));
    assert!(timer.adjust_task_queue().is_empty());
    timer.got_pending_task(item(4));
    assert!(!timer.check_pending_tasks_empty());
    let out = timer.adjust_task_queue();
    assert_eq!((seqs(&out), error_of(&out[0])), (vec![1], RpcIntErr::Timeout));
    assert!(matches!(timer.take_task(1), TakeTask::Gone));
    assert!(timer.adjust_task_queue().is_empty());
    assert!(!timer.check_pending_tasks_empty());
    match timer.take_task(4) {
        TakeTask::Found(i) => assert_eq!(i.task.unwrap().common.seq, 4),
        _ => panic!("not found"),
    }
    assert!(timer.check_pending_tasks_empty());
}

#[test]
fn the_lowest_id_may_be_zero() {
    let mut timer: Timer = ClientTaskTimer::new("c".to_string(), 0, 10);
    timer.poll_sent_task(vec![item(2), item(0), item(3)]);
    assert_eq!(seqs(&timer.adjust_task_queue()), [0, 2, 3]);
    timer.poll_sent_task(vec![item(1), item(4)]);
    assert!(matches!(timer.take_task(1), TakeTask::Found(_)));
}

#[test]
fn a_task_that_was_sent_reaches_its_channel() {
    let (tx, rx) = mpsc::unbounded_blocking();
    let mut s = stream();
    let mut buf = vec![];
    let mut issued = task(0);
    issued.noti = Some(tx);
    let SendTask::Write { task: t, .. } = s.send_task(&UnitCodec, &mut buf, issued, true, false)
    else {
        panic!("not written")
    };
    s.timer_mut().got_pending_task(ClientTaskItem { task: Some(t), upstream: None });
    let TakeTask::Found(i) = s.timer_mut().take_task(1) else { panic!("not found") };
    let mut t = i.task.unwrap();
    assert!(t.decode_resp(&UnitCodec, &[8]).is_ok());
    ClientTaskDone::<UnitCodec>::set_ok(&mut t);
    ClientTaskDone::<UnitCodec>::done(t);
    let back = rx.recv().unwrap().0;
    assert_eq!((back.common.seq, back.resp, back.res), (1, Some(8), Some(Ok(()))));
}

#[test]
fn a_broken_connection_ends_all_tasks() {
    let mut timer: Timer = ClientTaskTimer::new("c".to_string(), 5, 10);
    timer.got_pending_task(item(1));
    timer.adjust_task_queue();
    timer.got_pending_task(item(2));
    timer.adjust_task_queue();
    timer.got_pending_task(item(3));
    let out = timer.clean_pending_tasks();
    assert_eq!(out.iter().map(|t| t.common.seq).collect::<Vec<_>>(), [3, 2, 1]);
    assert!(out.iter().all(|t| error_of(t) == RpcIntErr::IO));
    assert!(timer.check_pending_tasks_empty());
}

fn stream() -> Stream {
    ClientStreamInner::new(11, "to x".to_string(), 2, 0)
}

#[test]
fn requests_get_increasing_ids() {
    let mut s = stream();
    assert_eq!(s.thresholds(), 128);
    let mut buf = vec![];
    for want in 1..4u64 {
        match s.send_task(&UnitCodec, &mut buf, task(0), false, want == 2) {
            SendTask::Write { task, flush } => {
                assert_eq!(ClientTask::<UnitCodec>::seq(&task), want);
                assert_eq!(flush, want == 2);
                let head = ReqHead::decode_head(&buf[..32]).unwrap();
                assert_eq!((head.seq, head.client_id, head.msg_len), (want, 11, 1));
                match s.request_written(task, true) {
                    Written::Register(t) => s
                        .timer_mut()
                        .got_pending_task(ClientTaskItem { task: Some(t), upstream: None }),
                    Written::Failed(_) => panic!("failed"),
                }
            }
            _ => panic!("not written"),
        }
    }
    assert!(!s.tasks_on_their_way());
    assert_eq!(s.send_ping_req(&mut buf, false), PingReq::Write);
    let head = ReqHead::decode_head(&buf).unwrap();
    assert_eq!((head.seq, head.get_action()), (4, Ok(0)));
    assert_eq!(s.send_ping_req(&mut buf, true), PingReq::Skipped);
}

#[test]
fn sending_that_fails() {
    let mut s = stream();
    let mut buf = vec![];
    let SendTask::Write { task: t, .. } = s.send_task(&UnitCodec, &mut buf, task(0), false, false)
    else {
        panic!("not written")
    };
    assert!(s.tasks_on_their_way());
    let Written::Failed(t) = s.request_written(t, false) else { panic!("registered") };
    assert_eq!(error_of(&t), RpcIntErr::IO);
    assert!(!s.tasks_on_their_way());
    assert!(s.is_closed() && s.has_err());
    let SendTask::Refused(t) = s.send_task(&UnitCodec, &mut buf, task(9), true, false) else {
        panic!("not refused")
    };
    assert_eq!((t.common.seq, error_of(&t)), (9, RpcIntErr::IO));
    assert_eq!(s.send_ping_req(&mut buf, false), PingReq::Refused);

    let mut s = stream();
    let mut bad = task(0);
    bad.req = 0;
    let SendTask::Unencodable(t) = s.send_task(&UnitCodec, &mut buf, bad, false, false) else {
        panic!("encoded")
    };
    assert_eq!((t.common.seq, t.req, error_of(&t)), (1, 0, RpcIntErr::Encode));
    assert!(!s.tasks_on_their_way());
    assert!(s.is_closed() && s.has_err());

    let mut s = stream();
    s.ping_failed();
    assert!(s.is_closed() && !s.has_err());
    let mut s = stream();
    s.flush_failed();
    assert!(s.is_closed() && s.has_err());
}

#[test]
fn the_receiver_waits_for_the_last_response() {
    let mut s = stream();
    assert_eq!(s.recv_step(), RecvStep::ReadOrClose);
    s.timer_mut().got_pending_task(item(1));
    assert!(s.recv_event(RecvStep::ReadOrClose, RecvEvent::Response));
    assert!(!s.is_closed());
    assert!(s.recv_event(RecvStep::ReadOrClose, RecvEvent::Closed));
    assert!(s.is_closed());
    assert_eq!(s.recv_step(), RecvStep::ReadRemaining);
    assert!(matches!(s.timer_mut().take_task(1), TakeTask::Found(_)));
    assert_eq!(s.recv_step(), RecvStep::Stop);

    let mut s = stream();
    s.timer_mut().got_pending_task(item(1));
    s.close();
    assert_eq!(s.recv_step(), RecvStep::ReadRemaining);
    assert!(s.time_reach().is_empty());
    assert!(s.time_reach().is_empty());
    let out = s.time_reach();
    assert_eq!(seqs(&out), [1]);
    assert_eq!(error_of(&out[0]), RpcIntErr::Timeout);
    assert_eq!(s.recv_step(), RecvStep::Stop);

    let mut s = stream();
    s.timer_mut().got_pending_task(item(1));
    s.set_error_and_exit();
    assert!(!s.recv_event(RecvStep::ReadOrClose, RecvEvent::Failed));
    let out = s.receive_failed();
    assert_eq!((seqs(&out), error_of(&out[0])), (vec![1], RpcIntErr::IO));
    assert!(s.is_closed());
    assert_eq!(s.recv_step(), RecvStep::Stop);
}

#[test]
fn pool_sizes_and_names() {
    let p = ClientPool::new("h:1", 0, 0);
    assert_eq!((p.channel_size(), p.get_addr(), p.conn_id()), (128, "h:1", "to h:1"));
    assert!(p.is_healthy());
    assert_eq!(ClientPool::new("h:1", 10, 0).channel_size(), 10);
    assert_eq!(ClientPool::new("h:1", 10, 50).channel_size(), 50);
    assert_eq!(ClientPool::new("h:1", 100, 50).channel_size(), 100);
}

#[test]
fn a_monitor_hands_over_when_tasks_overlap() {
    let mut pool = ClientPool::new("h:1", 0, 0);
    let mut m = PoolWorker::new(pool.spawn());
    assert_eq!(m.worker_id, 0);
    assert_eq!(m.step(&mut pool, WorkerEvent::Connect { ok: true }), WorkerAction::Recv);
    assert_eq!(m.step(&mut pool, WorkerEvent::NoTask), WorkerAction::Ping);
    assert_eq!(m.step(&mut pool, WorkerEvent::Ping { ok: true }), WorkerAction::Recv);
    assert_eq!(m.step(&mut pool, WorkerEvent::Task { inflight: 0 }), WorkerAction::Send);
    assert_eq!(m.step(&mut pool, WorkerEvent::Sent { ok: true }), WorkerAction::Recv);
    assert_eq!(
        m.step(&mut pool, WorkerEvent::Task { inflight: 1 }),
        WorkerAction::SpawnMonitorSend
    );
    assert_eq!(m.worker_id, 1);
    assert_eq!(pool.get_healthy_workers(), 0);
    assert_eq!(m.step(&mut pool, WorkerEvent::Sent { ok: true }), WorkerAction::Work);
    assert_eq!((pool.get_workers(), pool.get_healthy_workers()), (2, 1));
    let mut m2 = PoolWorker::new(0);
    assert_eq!(m2.step(&mut pool, WorkerEvent::Connect { ok: true }), WorkerAction::SleepPing);
    assert_eq!(m2.step(&mut pool, WorkerEvent::Ping { ok: false }), WorkerAction::Connect);
    assert!(!pool.is_healthy());
    assert_eq!(m.step(&mut pool, WorkerEvent::WorkFailed), WorkerAction::Exit);
    assert_eq!(pool.get_healthy_workers(), 0);
    assert_eq!(m.state, WorkerState::Exited);
    pool.worker_exited();
    assert_eq!(m2.step(&mut pool, WorkerEvent::Connect { ok: true }), WorkerAction::Recv);
}

#[test]
fn a_worker_flushes_in_batches() {
    let mut w = WorkState::Waiting;
    assert_eq!(w.step(WorkEvent::Task), WorkAction::Send);
    assert_eq!(w.step(WorkEvent::Sent { ok: true }), WorkAction::TryRecv);
    assert_eq!(w.step(WorkEvent::Task), WorkAction::Send);
    assert_eq!(w.step(WorkEvent::Sent { ok: true }), WorkAction::TryRecv);
    assert_eq!(w.step(WorkEvent::Empty), WorkAction::Flush);
    assert_eq!(w.step(WorkEvent::Flushed { ok: true }), WorkAction::Recv);
    assert_eq!(w.step(WorkEvent::Task), WorkAction::Send);
    assert_eq!(w.step(WorkEvent::Sent { ok: false }), WorkAction::Fail);
    let mut w = WorkState::Flushing;
    assert_eq!(w.step(WorkEvent::Flushed { ok: false }), WorkAction::Fail);
    assert_eq!(w, WorkState::Failed);
}

#[test]
fn a_pool_without_a_server() {
    let mut pool = ClientPool::new("h:1", 0, 0);
    let mut m = PoolWorker::new(pool.spawn());
    assert_eq!(
        m.step(&mut pool, WorkerEvent::Connect { ok: false }),
        WorkerAction::CleanupSleepConnect
    );
    assert!(!pool.is_healthy());
    assert_eq!(error_of(&cleanup_task::<UnitCodec, Task>(task(1))), RpcIntErr::Unreachable);
    assert_eq!(m.step(&mut pool, WorkerEvent::Connect { ok: true }), WorkerAction::Recv);
    assert_eq!(m.step(&mut pool, WorkerEvent::Task { inflight: 0 }), WorkerAction::Send);
    assert_eq!(
        m.step(&mut pool, WorkerEvent::Sent { ok: false }),
        WorkerAction::CleanupSleepConnect
    );
    assert_eq!(m.step(&mut pool, WorkerEvent::Connect { ok: true }), WorkerAction::Recv);
    assert_eq!(m.step(&mut pool, WorkerEvent::NoTask), WorkerAction::Ping);
    assert_eq!(m.step(&mut pool, WorkerEvent::Ping { ok: false }), WorkerAction::CleanupConnect);
}

fn servers(n: usize) -> Vec<String> {
    (0..n).map(|i| format!("s{}", i)).collect()
}

fn failover(n: usize, round_robin: bool, retry_limit: usize) -> FailoverPool<String> {
    FailoverPool::new(servers(n), |a| format!("to {}", a), round_robin, retry_limit, 64)
}

fn sent<T>(r: SendReq<T>) -> (usize, FailoverTask<T>) {
    match r {
        SendReq::Send { pool, task } => (pool, task),
        SendReq::Done(_) => panic!("not sent"),
    }
}

#[test]
fn servers_take_turns() {
    let mut f = failover(3, true, 2);
    assert_eq!(f.pool_channel_size(), 64);
    let healthy = vec![true; 3];
    let mut got = vec![];
    for _ in 0..6 {
        assert!(f.can_send());
        got.push(sent(f.send_req::<UnitCodec, Task>(task(0), &healthy)).0);
    }
    assert_eq!(got, [0, 1, 2, 0, 1, 2]);
    let mut f = failover(3, false, 2);
    for _ in 0..3 {
        assert_eq!(sent(f.send_req::<UnitCodec, Task>(task(0), &vec![false, true, true])).0, 1);
    }
}

#[test]
fn a_failed_task_moves_on() {
    let mut f = failover(3, false, 2);
    let (pool, mut t) = sent(f.send_req::<UnitCodec, Task>(task(4), &vec![true; 3]));
    assert_eq!(pool, 0);
    assert_eq!(t.get_action(), RpcAction::Num(1));
    assert_eq!(ClientTask::<UnitCodec>::seq(&t), 4);
    let mut visited = vec![];
    loop {
        ClientTaskDone::<UnitCodec>::set_rpc_error(&mut t, RpcIntErr::IO);
        match f.error_handle(t) {
            ErrorHandle::Retry(again) => {
                assert!(f.can_retry(&again));
                let (pool, again) = sent(f.retry(again, &vec![true; 3]));
                visited.push(pool);
                t = again;
            }
            ErrorHandle::Done(back) => {
                assert_eq!(error_of(&back), RpcIntErr::IO);
                break;
            }
        }
    }
    assert_eq!(visited, [1, 2]);
}

#[test]
fn errors_that_are_not_tried_again() {
    let mut f = failover(2, false, 9);
    let (_, mut t) = sent(f.send_req::<UnitCodec, Task>(task(4), &vec![true; 2]));
    ClientTaskDone::<UnitCodec>::set_rpc_error(&mut t, RpcIntErr::Method);
    let ErrorHandle::Done(_) = f.error_handle(t) else { panic!("tried again") };
    let (_, mut t) = sent(f.send_req::<UnitCodec, Task>(task(4), &vec![true; 2]));
    t.set_custom_error(&UnitCodec, EncodedErr::Num(3));
    let ErrorHandle::Done(t) = f.error_handle(t) else { panic!("tried again") };
    assert_eq!(t.res, Some(Err(RpcError::User(3))));
}

#[test]
fn no_server_is_left() {
    let mut f = failover(2, false, 9);
    let SendReq::Done(t) = f.send_req::<UnitCodec, Task>(task(4), &vec![false; 2]) else {
        panic!("sent")
    };
    assert_eq!(error_of(&t), RpcIntErr::Unreachable);
    let (_, mut t) = sent(f.send_req::<UnitCodec, Task>(task(4), &vec![true; 2]));
    ClientTaskDone::<UnitCodec>::set_rpc_error(&mut t, RpcIntErr::Timeout);
    let SendReq::Done(t) = f.retry(t, &vec![false; 2]) else { panic!("sent") };
    assert_eq!(error_of(&t), RpcIntErr::Timeout);
    f.close();
    assert!(f.pools().is_none());
    let SendReq::Done(_) = f.send_req::<UnitCodec, Task>(task(4), &vec![]) else { panic!("sent") };
}

#[test]
fn a_new_list_of_servers() {
    let mut f = failover(3, false, 9);
    let addrs = |s: &[&str]| s.iter().map(|a| a.to_string()).collect::<Vec<_>>();
    let list = |f: &FailoverPool<String>| {
        f.pools().unwrap().iter().map(|p| format!("{}={}", p.addr, p.pool)).collect::<Vec<_>>()
    };
    assert_eq!(list(&f), ["s0=to s0", "s1=to s1", "s2=to s2"]);
    let plan = f.plan_update(&addrs(&["s2", "new", "s2", "s0"]));
    assert_eq!(plan, [Some(2), None, None, Some(0)]);
    assert_eq!(f.plan_update(&addrs(&["s0", "s1", "s2"])), [Some(0), Some(1), Some(2)]);
    let (pool, mut t) = sent(f.send_req::<UnitCodec, Task>(task(4), &vec![false, true, true]));
    assert_eq!((pool, f.version()), (1, 1));
    let gone = f.update_addrs(addrs(&["s2", "new", "s2", "s0"]), |a| format!("again to {}", a));
    assert_eq!(gone, ["to s1"]);
    assert_eq!(
        list(&f),
        ["s2=to s2", "new=again to new", "s2=again to s2", "s0=to s0"]
    );
    assert_eq!(f.version(), 2);
    ClientTaskDone::<UnitCodec>::set_rpc_error(&mut t, RpcIntErr::IO);
    assert_eq!(sent(f.retry(t, &vec![true; 4])).0, 0);
    assert_eq!(f.close().len(), 4);
    assert!(f.close().is_empty());
}

#[test]
fn a_sender_hands_tasks_to_its_channel() {
    let (tx, rx) = mpsc::unbounded_blocking();
    let sender = Arc::new(PoolSender(tx));
    assert_eq!(sender.send_req_blocking(Back(task(8))).sent(), Ok(()));
    assert_eq!(rx.recv().unwrap().0.common.seq, 8);
    drop(rx);
    assert_eq!(sender.send_req_blocking(Back(task(9))).sent(), Err(()));
}
