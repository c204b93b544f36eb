//! A pool of connections to one server.
//!
//! One of its workers is the monitor: it pings the server, and while it is alone it sends the
//! tasks too. As soon as a task comes while another is in flight, the monitor becomes an
//! ordinary worker and a new monitor takes its place.

use crate::client::task::{rpc_failed, ClientTask};
use crate::error::RpcIntErr;
use vstd::prelude::*;

verus! {

/// How many tasks may wait in the channel of a pool where nothing is configured.
pub const DEFAULT_CHANNEL_SIZE: usize = 128;

/// What the workers of a pool share.
#[derive(Debug)]
pub struct ClientPool {
    addr: String,
    conn_id: String,
    channel_size: usize,
    is_ok: bool,
    worker_count: usize,
    connected_worker_count: usize,
}

/// What the workers of a pool share.
pub struct PoolSpec {
    pub addr: Seq<char>,
    /// The name of the connections, for messages about them.
    pub conn_id: Seq<char>,
    /// How many tasks may wait in the channel.
    pub channel_size: usize,
    /// Whether no connection has failed so far.
    pub is_ok: bool,
    pub workers: usize,
    /// How many workers are running as ordinary ones, on a connection of theirs.
    pub connected: usize,
}

impl View for ClientPool {
    type V = PoolSpec;

    closed spec fn view(&self) -> PoolSpec {
        PoolSpec {
            addr: self.addr@,
            conn_id: self.conn_id@,
            channel_size: self.channel_size,
            is_ok: self.is_ok,
            workers: self.worker_count,
            connected: self.connected_worker_count,
        }
    }
}

/// The size of the channel of a pool: at least as many tasks as may be in flight on a
/// connection, or a default where neither is configured.
pub open spec fn spec_channel_size(channel_size: usize, thresholds: usize) -> usize {
    if thresholds > 0 {
        if channel_size < thresholds {
            thresholds
        } else {
            channel_size
        }
    } else if channel_size == 0 {
        DEFAULT_CHANNEL_SIZE
    } else {
        channel_size
    }
}

impl ClientPool {
    /// A pool without workers. The first is to be spawned right away.
    pub fn new(addr: &str, channel_size: usize, thresholds: usize) -> (r: ClientPool)
        ensures
            r@ == (PoolSpec {
                addr: addr@,
                conn_id: "to "@ + addr@,
                channel_size: spec_channel_size(channel_size, thresholds),
                is_ok: true,
                workers: 0,
                connected: 0,
            }),
    {
        let channel_size: usize = if thresholds > 0 {
            if channel_size < thresholds {
                thresholds
            } else {
                channel_size
            }
        } else if channel_size == 0 {
            DEFAULT_CHANNEL_SIZE
        } else {
            channel_size
        };
        let mut conn_id: String = "to ".to_owned();
        conn_id.append(addr);
        ClientPool {
            addr: addr.to_owned(),
            conn_id,
            channel_size,
            is_ok: true,
            worker_count: 0,
            connected_worker_count: 0,
        }
    }

    pub fn is_healthy(&self) -> (r: bool)
        ensures
            r == self@.is_ok,
    {
        self.is_ok
    }

    pub fn get_addr(&self) -> (r: &str)
        ensures
            r@ == self@.addr,
    {
        self.addr.as_str()
    }

    pub fn conn_id(&self) -> (r: &str)
        ensures
            r@ == self@.conn_id,
    {
        self.conn_id.as_str()
    }

    pub fn channel_size(&self) -> (r: usize)
        ensures
            r == self@.channel_size,
    {
        self.channel_size
    }

    /// How many workers there are.
    pub fn get_workers(&self) -> (r: usize)
        ensures
            r == self@.workers,
    {
        self.worker_count
    }

    /// How many workers are running as ordinary ones, on a connection of theirs.
    pub fn get_healthy_workers(&self) -> (r: usize)
        ensures
            r == self@.connected,
    {
        self.connected_worker_count
    }

    /// Counts one more worker, and returns its ID: 0 for the monitor.
    pub fn spawn(&mut self) -> (r: usize)
        ensures
            r == old(self)@.workers,
            final(self)@ == (PoolSpec {
                workers: old(self)@.workers.wrapping_add(1),
                ..old(self)@
            }),
    {
        let worker_id: usize = self.worker_count;
        self.worker_count = self.worker_count.wrapping_add(1);
        worker_id
    }

    /// Counts one worker less, once it has ended.
    pub fn worker_exited(&mut self)
        ensures
            final(self)@ == (PoolSpec {
                workers: old(self)@.workers.wrapping_sub(1),
                ..old(self)@
            }),
    {
        self.worker_count = self.worker_count.wrapping_sub(1);
    }
}

/// Ends a task that was waiting in the channel of a pool whose server cannot be reached. It
/// is to go to the error handler.
pub fn cleanup_task<C, T: ClientTask<C>>(task: T) -> (r: T)
    ensures
        rpc_failed::<C, T>(task, r, RpcIntErr::Unreachable),
{
    let mut task = task;
    task.set_rpc_error(RpcIntErr::Unreachable);
    task
}

/// What a worker is waiting for.
#[derive(Clone, Copy, Debug, PartialEq, Eq, Structural)]
pub enum WorkerState {
    Connecting,
    /// For a task, as a monitor that is alone.
    Waiting,
    /// For a ping to go out, as a monitor that is alone or not.
    Pinging { alone: bool },
    /// For a task to go out.
    Sending,
    /// For its connection to fail, as an ordinary worker.
    Working,
    Exited,
}

/// What happened to a worker.
#[derive(Clone, Copy, Debug, PartialEq, Eq, Structural)]
pub enum WorkerEvent {
    /// It connected, or failed to.
    Connect { ok: bool },
    /// No task came for a second.
    NoTask,
    /// A task came, while some are in flight.
    Task { inflight: usize },
    /// A ping went out, or failed to.
    Ping { ok: bool },
    /// The task went out, or failed to.
    Sent { ok: bool },
    /// Its connection failed.
    WorkFailed,
}

/// What a worker does next.
#[derive(Clone, Copy, Debug, PartialEq, Eq, Structural)]
pub enum WorkerAction {
    Connect,
    /// End the tasks in the channel, then connect.
    CleanupConnect,
    /// End the tasks in the channel, wait a second, then connect.
    CleanupSleepConnect,
    /// Wait a second, then ping.
    SleepPing,
    Ping,
    /// Wait for a task, for a second at most.
    Recv,
    /// Send the task that came, and flush.
    Send,
    /// Spawn another worker as the monitor, then send the task that came, and flush.
    SpawnMonitorSend,
    /// Send task after task, and flush whenever none is left.
    Work,
    /// End.
    Exit,
}

/// A worker of a pool.
#[derive(Clone, Copy, Debug, PartialEq, Eq, Structural)]
pub struct PoolWorker {
    /// 0 for the monitor.
    pub worker_id: usize,
    pub state: WorkerState,
}

/// Whether `event` can happen to a worker in this state.
pub open spec fn event_fits(state: WorkerState, event: WorkerEvent) -> bool {
    match state {
        WorkerState::Connecting => event is Connect,
        WorkerState::Waiting => event is NoTask || event is Task,
        WorkerState::Pinging { .. } => event is Ping,
        WorkerState::Sending => event is Sent,
        WorkerState::Working => event is WorkFailed,
        WorkerState::Exited => false,
    }
}

impl PoolWorker {
    /// What a monitor does next: it sends tasks itself while there is no other worker.
    pub open spec fn spec_monitor(self, pool: PoolSpec) -> (PoolWorker, PoolSpec, WorkerAction) {
        if pool.workers > 1 {
            (
                PoolWorker { state: WorkerState::Pinging { alone: false }, ..self },
                pool,
                WorkerAction::SleepPing,
            )
        } else {
            (PoolWorker { state: WorkerState::Waiting, ..self }, pool, WorkerAction::Recv)
        }
    }

    /// What a worker does after `event`.
    pub open spec fn spec_step(self, pool: PoolSpec, event: WorkerEvent) -> (
        PoolWorker,
        PoolSpec,
        WorkerAction,
    ) {
        let failed = PoolSpec { is_ok: false, ..pool };
        let reconnect = PoolWorker { state: WorkerState::Connecting, ..self };
        let working = PoolWorker { state: WorkerState::Working, ..self };
        let started = PoolSpec { connected: pool.connected.wrapping_add(1), ..pool };
        let ended = PoolSpec { connected: pool.connected.wrapping_sub(1), ..failed };
        let exited = PoolWorker { state: WorkerState::Exited, ..self };
        match event {
            WorkerEvent::Connect { ok } => if !ok {
                (reconnect, failed, WorkerAction::CleanupSleepConnect)
            } else if self.worker_id == 0 {
                self.spec_monitor(pool)
            } else {
                (working, started, WorkerAction::Work)
            },
            WorkerEvent::NoTask => (
                PoolWorker { state: WorkerState::Pinging { alone: true }, ..self },
                pool,
                WorkerAction::Ping,
            ),
            WorkerEvent::Task { inflight } => if inflight > 0 && pool.workers == 1 {
                (
                    PoolWorker { worker_id: 1, state: WorkerState::Sending },
                    PoolSpec { workers: 2, ..pool },
                    WorkerAction::SpawnMonitorSend,
                )
            } else {
                (PoolWorker { state: WorkerState::Sending, ..self }, pool, WorkerAction::Send)
            },
            WorkerEvent::Ping { ok } => if ok {
                self.spec_monitor(pool)
            } else if self.state == (WorkerState::Pinging { alone: true }) {
                (reconnect, failed, WorkerAction::CleanupConnect)
            } else {
                (reconnect, failed, WorkerAction::Connect)
            },
            WorkerEvent::Sent { ok } => if ok && self.worker_id == 0 {
                self.spec_monitor(pool)
            } else if ok {
                (working, started, WorkerAction::Work)
            } else if self.worker_id == 0 {
                (reconnect, failed, WorkerAction::CleanupSleepConnect)
            } else {
                (exited, failed, WorkerAction::Exit)
            },
            WorkerEvent::WorkFailed => (exited, ended, WorkerAction::Exit),
        }
    }

    /// A worker that is about to connect. It is to be started with `Connect`.
    pub fn new(worker_id: usize) -> (r: PoolWorker)
        ensures
            r == (PoolWorker { worker_id, state: WorkerState::Connecting }),
    {
        PoolWorker { worker_id, state: WorkerState::Connecting }
    }

    fn monitor(&mut self, pool: &mut ClientPool) -> (r: WorkerAction)
        ensures
            (*final(self), final(pool)@, r) == old(self).spec_monitor(old(pool)@),
    {
        if pool.worker_count > 1 {
            self.state = WorkerState::Pinging { alone: false };
            WorkerAction::SleepPing
        } else {
            self.state = WorkerState::Waiting;
            WorkerAction::Recv
        }
    }

    fn work(&mut self, pool: &mut ClientPool) -> (r: WorkerAction)
        ensures
            *final(self) == (PoolWorker { state: WorkerState::Working, ..*old(self) }),
            final(pool)@ == (PoolSpec {
                connected: old(pool)@.connected.wrapping_add(1),
                ..old(pool)@
            }),
            r == WorkerAction::Work,
    {
        self.state = WorkerState::Working;
        pool.connected_worker_count = pool.connected_worker_count.wrapping_add(1);
        WorkerAction::Work
    }

    /// Takes note of what happened, and says what to do next.
    pub fn step(&mut self, pool: &mut ClientPool, event: WorkerEvent) -> (r: WorkerAction)
        requires
            event_fits(old(self).state, event),
        ensures
            (*final(self), final(pool)@, r) == old(self).spec_step(old(pool)@, event),
    {
        match event {
            WorkerEvent::Connect { ok } => {
                if !ok {
                    pool.is_ok = false;
                    return WorkerAction::CleanupSleepConnect;
                }
                if self.worker_id == 0 {
                    return self.monitor(pool);
                }
                self.work(pool)
            },
            WorkerEvent::NoTask => {
                self.state = WorkerState::Pinging { alone: true };
                WorkerAction::Ping
            },
            WorkerEvent::Task { inflight } => {
                self.state = WorkerState::Sending;
                if inflight > 0 && pool.worker_count == 1 {
                    // It may take a while to connect, so this worker goes on with its
                    // connection and the new one becomes the monitor.
                    pool.worker_count = 2;
                    self.worker_id = 1;
                    return WorkerAction::SpawnMonitorSend;
                }
                WorkerAction::Send
            },
            WorkerEvent::Ping { ok } => {
                if ok {
                    return self.monitor(pool);
                }
                pool.is_ok = false;
                let alone = match self.state {
                    WorkerState::Pinging { alone } => alone,
                    _ => false,
                };
                self.state = WorkerState::Connecting;
                // The tasks in the channel are left to the other workers, if there are any.
                if alone {
                    WorkerAction::CleanupConnect
                } else {
                    WorkerAction::Connect
                }
            },
            WorkerEvent::Sent { ok } => {
                if ok {
                    if self.worker_id == 0 {
                        return self.monitor(pool);
                    }
                    return self.work(pool);
                }
                pool.is_ok = false;
                if self.worker_id == 0 {
                    self.state = WorkerState::Connecting;
                    return WorkerAction::CleanupSleepConnect;
                }
                self.state = WorkerState::Exited;
                WorkerAction::Exit
            },
            WorkerEvent::WorkFailed => {
                pool.is_ok = false;
                pool.connected_worker_count = pool.connected_worker_count.wrapping_sub(1);
                self.state = WorkerState::Exited;
                WorkerAction::Exit
            },
        }
    }
}

/// What an ordinary worker is waiting for.
#[derive(Clone, Copy, Debug, PartialEq, Eq, Structural)]
pub enum WorkState {
    /// For a task.
    Waiting,
    /// To learn whether there is another task.
    Draining,
    /// For a task to go out.
    Sending,
    Flushing,
    Failed,
}

/// What happened to an ordinary worker.
#[derive(Clone, Copy, Debug, PartialEq, Eq, Structural)]
pub enum WorkEvent {
    /// A task came.
    Task,
    /// There is no other task for now.
    Empty,
    Sent { ok: bool },
    Flushed { ok: bool },
}

/// What an ordinary worker does next.
#[derive(Clone, Copy, Debug, PartialEq, Eq, Structural)]
pub enum WorkAction {
    /// Wait for a task.
    Recv,
    /// See whether there is another task.
    TryRecv,
    /// Send the task that came, without flushing.
    Send,
    Flush,
    /// End, as the connection failed.
    Fail,
}

impl WorkState {
    /// Whether `event` can happen in this state.
    pub open spec fn fits(self, event: WorkEvent) -> bool {
        match self {
            WorkState::Waiting => event is Task,
            WorkState::Draining => event is Task || event is Empty,
            WorkState::Sending => event is Sent,
            WorkState::Flushing => event is Flushed,
            WorkState::Failed => false,
        }
    }

    /// What an ordinary worker does after `event`.
    pub open spec fn spec_step(self, event: WorkEvent) -> (WorkState, WorkAction) {
        match event {
            WorkEvent::Task => (WorkState::Sending, WorkAction::Send),
            WorkEvent::Empty => (WorkState::Flushing, WorkAction::Flush),
            WorkEvent::Sent { ok: true } => (WorkState::Draining, WorkAction::TryRecv),
            WorkEvent::Flushed { ok: true } => (WorkState::Waiting, WorkAction::Recv),
            _ => (WorkState::Failed, WorkAction::Fail),
        }
    }

    /// Takes note of what happened, and says what to do next.
    pub fn step(&mut self, event: WorkEvent) -> (r: WorkAction)
        requires
            old(self).fits(event),
        ensures
            (*final(self), r) == old(self).spec_step(event),
    {
        let (next, action) = match event {
            WorkEvent::Task => (WorkState::Sending, WorkAction::Send),
            WorkEvent::Empty => (WorkState::Flushing, WorkAction::Flush),
            WorkEvent::Sent { ok } => if ok {
                (WorkState::Draining, WorkAction::TryRecv)
            } else {
                (WorkState::Failed, WorkAction::Fail)
            },
            WorkEvent::Flushed { ok } => if ok {
                (WorkState::Waiting, WorkAction::Recv)
            } else {
                (WorkState::Failed, WorkAction::Fail)
            },
        };
        *self = next;
        action
    }
}

/// The state of an ordinary worker after it has gone through `events`.
pub open spec fn work_after(events: Seq<WorkEvent>) -> WorkState
    decreases events.len(),
{
    if events.len() == 0 {
        WorkState::Waiting
    } else {
        work_after(events.drop_last()).spec_step(events.last()).0
    }
}

/// Whether each of `events` can happen when it does.
pub open spec fn work_fits(events: Seq<WorkEvent>) -> bool
    decreases events.len(),
{
    events.len() == 0 || (work_fits(events.drop_last()) && work_after(events.drop_last()).fits(
        events.last(),
    ))
}

/// Whether a request went out that was not flushed yet, after `events`.
pub open spec fn work_unflushed(events: Seq<WorkEvent>) -> bool
    decreases events.len(),
{
    if events.len() == 0 {
        false
    } else {
        match events.last() {
            WorkEvent::Sent { .. } => true,
            WorkEvent::Flushed { .. } => false,
            _ => work_unflushed(events.drop_last()),
        }
    }
}

/// Requests are flushed in batches: an ordinary worker goes on to wait for a task only once all
/// that it sent is flushed, and does not flush while there is another task to send.
pub proof fn lemma_work_flushes(events: Seq<WorkEvent>)
    requires
        work_fits(events),
    ensures
        work_after(events) is Waiting ==> !work_unflushed(events),
        work_after(events) is Flushing ==> work_unflushed(events) && events.last() is Empty,
        work_after(events) is Draining ==> work_unflushed(events),
    decreases events.len(),
{
    if events.len() > 0 {
        lemma_work_flushes(events.drop_last());
    }
}

/// The worker that a spawned monitor starts as.
pub open spec fn new_monitor() -> PoolWorker {
    PoolWorker { worker_id: 0, state: WorkerState::Connecting }
}

/// Whether a worker is a monitor that has not ended.
pub open spec fn is_monitor(w: PoolWorker) -> bool {
    w.worker_id == 0 && w.state != WorkerState::Exited
}

/// Whether a worker is in a state in which it can be: only a monitor waits for tasks or pings,
/// and a monitor never runs as an ordinary worker.
pub open spec fn worker_ok(w: PoolWorker) -> bool {
    match w.state {
        WorkerState::Waiting => w.worker_id == 0,
        WorkerState::Pinging { .. } => w.worker_id == 0,
        WorkerState::Working => w.worker_id > 0,
        WorkerState::Exited => w.worker_id > 0,
        _ => true,
    }
}

/// A pool always keeps its monitor: a monitor never ends, and where it becomes an ordinary
/// worker it spawns another.
pub proof fn lemma_monitor_stays(w: PoolWorker, pool: PoolSpec, event: WorkerEvent)
    requires
        worker_ok(w),
        event_fits(w.state, event),
    ensures
        ({
            let (w2, pool2, action) = w.spec_step(pool, event);
            &&& worker_ok(w2)
            &&& action == WorkerAction::SpawnMonitorSend ==> is_monitor(w) && !is_monitor(w2)
            &&& action != WorkerAction::SpawnMonitorSend ==> is_monitor(w) == is_monitor(w2)
            &&& is_monitor(w) ==> action != WorkerAction::Exit
            &&& worker_ok(new_monitor()) && is_monitor(new_monitor())
        }),
{
}

/// A worker counts as running exactly while it does: the count goes up by one as it starts to, and
/// down by one as it ends.
pub proof fn lemma_running_workers_are_counted(w: PoolWorker, pool: PoolSpec, event: WorkerEvent)
    requires
        event_fits(w.state, event),
    ensures
        ({
            let (w2, pool2, action) = w.spec_step(pool, event);
            &&& !(w.state is Working && w2.state is Working)
            &&& pool2.connected == if w2.state is Working {
                pool.connected.wrapping_add(1)
            } else if w.state is Working {
                pool.connected.wrapping_sub(1)
            } else {
                pool.connected
            }
        }),
{
}

/// A healthy pool stays so until connecting, pinging, sending or an ordinary worker fails.
pub proof fn lemma_health(w: PoolWorker, pool: PoolSpec, event: WorkerEvent)
    requires
        pool.is_ok,
    ensures
        w.spec_step(pool, event).1.is_ok == match event {
            WorkerEvent::Connect { ok } => ok,
            WorkerEvent::Ping { ok } => ok,
            WorkerEvent::Sent { ok } => ok,
            WorkerEvent::WorkFailed => false,
            _ => true,
        },
{
}

} // verus!
