//! The state of a client connection.
//!
//! A connection has a sender, which writes requests one after another, and a receiver, which
//! reads responses and lets time pass. Both work on [`ClientStreamInner`]; what has to be
//! written, read or handed back is said by what its methods return.

use crate::client::task::{rpc_failed, same_response, ClientTask, ClientTaskState};
use crate::client::timer::{batch_failed, batches_failed, spec_bound, ClientTaskTimer, TimerSpec};
use crate::error::{RpcError, RpcIntErr};
use crate::proto::{ReqHead, PING_ACTION};
use vstd::prelude::*;

verus! {

/// How many tasks may be in flight where the configuration says nothing.
pub const DEFAULT_THRESHOLDS: usize = 128;

/// The state of a connection.
pub struct StreamSpec<T, G> {
    pub client_id: u64,
    /// The ID that the next request gets.
    pub seq: u64,
    /// Nothing more is sent. Set by the sender or the receiver when it ends.
    pub closed: bool,
    /// The connection is broken, so that no more responses will come.
    pub has_err: bool,
    pub timer: TimerSpec<T, G>,
}

/// The state of a connection, shared by its sender and its receiver.
pub struct ClientStreamInner<C, T, G> {
    client_id: u64,
    seq: u64,
    closed: bool,
    has_err: bool,
    thresholds: usize,
    timer: ClientTaskTimer<C, T, G>,
}

/// What to do with a task that was to be sent.
pub enum SendTask<T> {
    /// The connection is closed: hand the task to the error handler and report `IO`.
    Refused(T),
    /// The request has no encoding: hand the task to the error handler and report `IO`.
    Unencodable(T),
    /// Write what was encoded and the blob of the task, and flush if asked to.
    Write { task: T, flush: bool },
}

/// What to do with a task whose request was to be written.
pub enum Written<T> {
    /// Count the task as in flight and register it.
    Register(T),
    /// Hand the task to the error handler and report `IO`.
    Failed(T),
}

/// What to do about a ping.
#[derive(Clone, Copy, Debug, PartialEq, Eq, Structural)]
pub enum PingReq {
    /// The connection is closed: report `IO`.
    Refused,
    /// Nothing: responses are on their way anyway.
    Skipped,
    /// Write what was encoded, and flush.
    Write,
}

/// What the receiver does next.
#[derive(Clone, Copy, Debug, PartialEq, Eq, Structural)]
pub enum RecvStep {
    /// Wait for a response, or for the sender to close the connection.
    ReadOrClose,
    /// Wait for a response for a limited time: the connection is closed, but tasks still wait.
    ReadRemaining,
    /// End with the error `IO`.
    Stop,
}

/// What came of reading a response.
#[derive(Clone, Copy, Debug, PartialEq, Eq, Structural)]
pub enum RecvEvent {
    Response,
    Closed,
    Failed,
}

/// Whether `b` is task `a` with the ID `seq` and nothing else changed.
pub open spec fn with_seq<C, T: ClientTaskState<C>>(a: T, b: T, seq: u64) -> bool {
    &&& numbered::<C, T>(a, b, seq)
    &&& b.result() == a.result()
}

/// Whether `b` is task `a` with the ID `seq` and nothing else changed but, maybe, the result.
pub open spec fn numbered<C, T: ClientTaskState<C>>(a: T, b: T, seq: u64) -> bool {
    &&& b.common().seq == seq
    &&& b.action() == a.action()
    &&& b.req_blob() == a.req_blob()
    &&& b.takes_blob() == a.takes_blob()
    &&& b.way() == a.way()
    &&& same_response::<C, T>(a, b)
    &&& forall|codec: &C| #[trigger] b.req_msg(codec) == a.req_msg(codec)
}

impl<T, G> StreamSpec<T, G> {
    /// The state once the connection broke while sending.
    pub open spec fn broken(self) -> StreamSpec<T, G> {
        StreamSpec { closed: true, has_err: true, ..self }
    }

    /// The state once no more tasks will be registered.
    pub open spec fn stopped(self) -> StreamSpec<T, G> {
        StreamSpec { timer: TimerSpec { stopped: true, ..self.timer }, ..self }
    }
}

impl<C, T: ClientTask<C>, G> ClientStreamInner<C, T, G> {
    pub closed spec fn view(&self) -> StreamSpec<T, G> {
        StreamSpec {
            client_id: self.client_id,
            seq: self.seq,
            closed: self.closed,
            has_err: self.has_err,
            timer: self.timer@,
        }
    }

    pub closed spec fn wf(&self) -> bool {
        self.timer.wf()
    }

    /// How many tasks may be in flight.
    pub closed spec fn limit(&self) -> usize {
        self.thresholds
    }

    /// The state of a new connection, on which a task may wait for `task_timeout` seconds and
    /// `thresholds` tasks may be in flight.
    pub fn new(client_id: u64, conn_id: String, task_timeout: usize, thresholds: usize) -> (r: Self)
        requires
            2 * thresholds <= usize::MAX,
        ensures
            r.wf(),
            r.limit() == if thresholds == 0 {
                DEFAULT_THRESHOLDS
            } else {
                thresholds
            },
            r@ == (StreamSpec {
                client_id,
                seq: 1,
                closed: false,
                has_err: false,
                timer: TimerSpec::<T, G> {
                    sent: Map::empty(),
                    delayed: Seq::empty(),
                    timeout: task_timeout as nat,
                    min_delay_seq: 0,
                    processed_seq: 0,
                    stopped: false,
                    pending: 0,
                    bound: spec_bound(r.limit()),
                    name: conn_id@,
                },
            }),
    {
        let thresholds: usize = if thresholds == 0 {
            DEFAULT_THRESHOLDS
        } else {
            thresholds
        };
        ClientStreamInner {
            client_id,
            seq: 1,
            closed: false,
            has_err: false,
            thresholds,
            timer: ClientTaskTimer::new(conn_id, task_timeout, thresholds),
        }
    }

    /// How many tasks may be in flight.
    pub fn thresholds(&self) -> (r: usize)
        ensures
            r == self.limit(),
    {
        self.thresholds
    }

    pub fn is_closed(&self) -> (r: bool)
        ensures
            r == self@.closed,
    {
        self.closed
    }

    pub fn has_err(&self) -> (r: bool)
        ensures
            r == self@.has_err,
    {
        self.has_err
    }

    fn seq_update(&mut self) -> (r: u64)
        ensures
            r == old(self)@.seq,
            final(self)@ == (StreamSpec { seq: old(self)@.seq.wrapping_add(1), ..old(self)@ }),
            old(self).wf() ==> final(self).wf(),
            final(self).limit() == old(self).limit(),
    {
        let seq: u64 = self.seq;
        self.seq = self.seq.wrapping_add(1);
        seq
    }

    /// Starts to send a task: gives it an ID and encodes its request into `buf`. Flushing is
    /// forced where the limit of tasks in flight is nearly reached. A task whose request has no
    /// encoding ends with the error `Encode`; it is not counted as on its way, and the connection
    /// counts as broken.
    pub fn send_task(
        &mut self,
        codec: &C,
        buf: &mut Vec<u8>,
        task: T,
        need_flush: bool,
        nearly_full: bool,
    ) -> (r: SendTask<T>)
        requires
            old(self).wf(),
        ensures
            final(self).wf(),
            final(self).limit() == old(self).limit(),
            ({
                let s = old(self)@;
                let sending = StreamSpec {
                    seq: s.seq.wrapping_add(1),
                    timer: TimerSpec { pending: s.timer.pending.wrapping_add(1), ..s.timer },
                    ..s
                };
                let frame = ReqHead::frame(
                    s.client_id,
                    s.seq,
                    task.action(),
                    task.req_msg(codec),
                    task.req_blob(),
                );
                if s.closed {
                    &&& r matches SendTask::Refused(t)
                    &&& rpc_failed::<C, T>(task, t, RpcIntErr::IO)
                    &&& final(self)@ == s
                } else if frame is None {
                    &&& r matches SendTask::Unencodable(t)
                    &&& numbered::<C, T>(task, t, s.seq)
                    &&& t.result() == Some(
                        Err::<(), RpcError<T::Err>>(RpcError::Rpc(RpcIntErr::Encode)),
                    )
                    &&& final(self)@ == (StreamSpec {
                        seq: s.seq.wrapping_add(1),
                        ..s
                    }).broken()
                } else {
                    &&& r matches SendTask::Write { task: t, flush }
                    &&& with_seq::<C, T>(task, t, s.seq)
                    &&& flush == (need_flush || nearly_full)
                    &&& final(buf)@ == frame->Some_0
                    &&& final(self)@ == sending
                }
            }),
    {
        let mut task = task;
        self.timer.add_pending();
        if self.closed {
            task.set_rpc_error(RpcIntErr::IO);
            self.timer.sub_pending();
            proof {
                let p = old(self)@.timer.pending;
                assert(p.wrapping_add(1).wrapping_sub(1) == p);
            }
            return SendTask::Refused(task);
        }
        let seq: u64 = self.seq_update();
        task.set_seq(seq);
        let encoded = ReqHead::encode(codec, buf, self.client_id, &task).is_ok();
        if !encoded {
            self.closed = true;
            self.has_err = true;
            self.timer.sub_pending();
            let ghost before = task;
            task.set_rpc_error(RpcIntErr::Encode);
            proof {
                let p = old(self)@.timer.pending;
                assert(p.wrapping_add(1).wrapping_sub(1) == p);
                assert forall|c: &C| #[trigger] task.req_msg(c) == before.req_msg(c) by {
                    assert(before.req_msg(c) == before.req_msg(c));
                }
            }
            return SendTask::Unencodable(task);
        }
        SendTask::Write { task, flush: need_flush || nearly_full }
    }

    /// Ends sending a task, after its request was written or writing failed.
    pub fn request_written(&mut self, task: T, ok: bool) -> (r: Written<T>)
        requires
            old(self).wf(),
        ensures
            final(self).wf(),
            final(self).limit() == old(self).limit(),
            if ok {
                r == Written::Register(task) && final(self)@ == old(self)@
            } else {
                let s = old(self)@.broken().stopped();
                &&& r matches Written::Failed(t)
                &&& rpc_failed::<C, T>(task, t, RpcIntErr::IO)
                &&& final(self)@ == (StreamSpec {
                    timer: TimerSpec { pending: s.timer.pending.wrapping_sub(1), ..s.timer },
                    ..s
                })
            },
    {
        if ok {
            return Written::Register(task);
        }
        let mut task = task;
        self.closed = true;
        self.has_err = true;
        self.timer.sub_pending();
        self.timer.stop_reg_task();
        task.set_rpc_error(RpcIntErr::IO);
        Written::Failed(task)
    }

    /// Takes note that flushing failed. `IO` is to be reported.
    pub fn flush_failed(&mut self)
        requires
            old(self).wf(),
        ensures
            final(self).wf(),
            final(self).limit() == old(self).limit(),
            final(self)@ == old(self)@.broken().stopped(),
    {
        self.closed = true;
        self.has_err = true;
        self.timer.stop_reg_task();
    }

    /// Puts a ping into `buf`. It is refused where the connection is closed, and skipped where
    /// the limit of tasks in flight is reached (`full`). A ping is always flushed, has no task,
    /// and is not counted.
    pub fn send_ping_req(&mut self, buf: &mut Vec<u8>, full: bool) -> (r: PingReq)
        requires
            old(self).wf(),
        ensures
            final(self).wf(),
            final(self).limit() == old(self).limit(),
            r == if old(self)@.closed {
                PingReq::Refused
            } else if full {
                PingReq::Skipped
            } else {
                PingReq::Write
            },
            if r == PingReq::Write {
                &&& final(buf)@ == ReqHead::spec_new(
                    old(self)@.client_id,
                    PING_ACTION,
                    old(self)@.seq,
                    0,
                    0,
                ).bytes()
                &&& final(self)@ == (StreamSpec {
                    seq: old(self)@.seq.wrapping_add(1),
                    ..old(self)@
                })
            } else {
                final(self)@ == old(self)@ && final(buf)@ == old(buf)@
            },
    {
        if self.closed {
            return PingReq::Refused;
        }
        if full {
            return PingReq::Skipped;
        }
        let seq: u64 = self.seq_update();
        ReqHead::encode_ping(buf, self.client_id, seq);
        PingReq::Write
    }

    /// Takes note that a ping could not be written. `IO` is to be reported.
    pub fn ping_failed(&mut self)
        requires
            old(self).wf(),
        ensures
            final(self).wf(),
            final(self).limit() == old(self).limit(),
            final(self)@ == (StreamSpec { closed: true, ..old(self)@ }),
    {
        self.closed = true;
    }

    /// Makes the receiver end, where a probe found the server unreachable.
    pub fn set_error_and_exit(&mut self)
        requires
            old(self).wf(),
        ensures
            final(self).wf(),
            final(self).limit() == old(self).limit(),
            final(self)@ == (StreamSpec { has_err: true, ..old(self)@ }),
    {
        self.has_err = true;
    }

    /// Closes the connection from the side of the sender. The receiver goes on until no task
    /// waits any more.
    pub fn close(&mut self)
        requires
            old(self).wf(),
        ensures
            final(self).wf(),
            final(self).limit() == old(self).limit(),
            final(self)@ == (StreamSpec { closed: true, ..old(self)@ }).stopped(),
    {
        self.timer.stop_reg_task();
        self.closed = true;
    }

    /// What the receiver does next.
    pub fn recv_step(&self) -> (r: RecvStep)
        ensures
            r == if !self@.closed {
                RecvStep::ReadOrClose
            } else if self@.has_err || self@.timer.idle() {
                RecvStep::Stop
            } else {
                RecvStep::ReadRemaining
            },
    {
        if self.closed {
            if self.timer.check_pending_tasks_empty() || self.has_err {
                RecvStep::Stop
            } else {
                RecvStep::ReadRemaining
            }
        } else {
            RecvStep::ReadOrClose
        }
    }

    /// Takes note of what came of reading, and says whether the receiver goes on. Where it
    /// does not, it ends with the error `IO`.
    pub fn recv_event(&mut self, step: RecvStep, event: RecvEvent) -> (r: bool)
        requires
            old(self).wf(),
            step != RecvStep::Stop,
            step == RecvStep::ReadRemaining ==> event != RecvEvent::Closed,
        ensures
            final(self).wf(),
            final(self).limit() == old(self).limit(),
            r == (event != RecvEvent::Failed),
            ({
                let closes = match step {
                    RecvStep::ReadOrClose => event == RecvEvent::Closed,
                    _ => event == RecvEvent::Failed,
                };
                final(self)@ == if closes {
                    StreamSpec { closed: true, ..old(self)@ }
                } else {
                    old(self)@
                }
            }),
    {
        match step {
            RecvStep::ReadOrClose => match event {
                RecvEvent::Failed => false,
                RecvEvent::Closed => {
                    self.closed = true;
                    true
                },
                RecvEvent::Response => true,
            },
            _ => match event {
                RecvEvent::Failed => {
                    self.closed = true;
                    false
                },
                _ => true,
            },
        }
    }

    /// Ends the receiver: closes the connection, and ends every waiting task with the error
    /// `IO`. The tasks are to go to the error handler.
    pub fn receive_failed(&mut self) -> (out: Vec<T>)
        requires
            old(self).wf(),
        ensures
            final(self).wf(),
            final(self).limit() == old(self).limit(),
            batches_failed::<C, T, G>(old(self)@.timer.batches(), out@, RpcIntErr::IO),
            final(self)@ == (StreamSpec {
                closed: true,
                timer: old(self)@.timer.cleaned(),
                ..old(self)@
            }),
    {
        self.closed = true;
        self.timer.clean_pending_tasks()
    }

    /// Whether tasks may still arrive that have to be ended after the receiver has.
    pub fn tasks_on_their_way(&self) -> (r: bool)
        ensures
            r == (self@.timer.pending > 0),
    {
        *self.timer.pending_task_count_ref() > 0
    }

    /// Lets a second pass. The tasks that time out are to go to the error handler.
    pub fn time_reach(&mut self) -> (out: Vec<T>)
        requires
            old(self).wf(),
        ensures
            final(self).wf(),
            final(self).limit() == old(self).limit(),
            batch_failed::<C, T, G>(old(self)@.timer.expiring(), out@, RpcIntErr::Timeout),
            old(self)@.timer.second_later(final(self)@.timer),
            final(self)@ == (StreamSpec { timer: final(self)@.timer, ..old(self)@ }),
    {
        self.timer.adjust_task_queue()
    }

    /// The tasks that wait.
    pub fn timer_mut(&mut self) -> (r: &mut ClientTaskTimer<C, T, G>)
        requires
            old(self).wf(),
        ensures
            r@ == old(self)@.timer,
            r.wf(),
            final(r).wf() ==> final(self).wf(),
            final(self).limit() == old(self).limit(),
            final(self)@ == (StreamSpec { timer: final(r)@, ..old(self)@ }),
    {
        &mut self.timer
    }
}

/// The ID of the `n`-th request from now on, where the next one gets `first`.
pub open spec fn id_of(first: u64, n: nat) -> u64
    decreases n,
{
    if n == 0 {
        first
    } else {
        id_of(first, (n - 1) as nat).wrapping_add(1)
    }
}

/// No two requests of a connection have the same ID, unless so many lie between them that the
/// IDs have come all the way round.
pub proof fn lemma_ids_are_unique(first: u64, i: nat, j: nat)
    requires
        i < j,
        j - i <= u64::MAX,
    ensures
        id_of(first, i) != id_of(first, j),
{
    lemma_id(first, i);
    lemma_id(first, j);
    let n = u64::MAX as int + 1;
    let a = (first + i) % n;
    let b = (first + j) % n;
    if a == b {
        let q = (first + j) / n - (first + i) / n;
        assert(first + i == n * ((first + i) / n) + a) by (nonlinear_arith)
            requires
                n > 0,
                a == (first + i) % n,
        ;
        assert(first + j == n * ((first + j) / n) + b) by (nonlinear_arith)
            requires
                n > 0,
                b == (first + j) % n,
        ;
        assert(j - i == n * q);
        assert(false) by (nonlinear_arith)
            requires
                0 < n * q < n,
        ;
    }
}

proof fn lemma_id(first: u64, n: nat)
    ensures
        id_of(first, n) == (first + n) % (u64::MAX as int + 1),
    decreases n,
{
    if n > 0 {
        lemma_id(first, (n - 1) as nat);
    }
}

} // verus!
