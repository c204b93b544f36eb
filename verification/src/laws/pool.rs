//! The workers of a pool.

use crate::client::pool::{
    cleanup_task, event_fits, ClientPool, PoolSpec, PoolWorker, WorkAction, WorkEvent, WorkState,
    WorkerAction, WorkerEvent, WorkerState,
};
use crate::client::task::ClientTask;
use crate::error::RpcIntErr;
use crate::laws::client::failed;
use vstd::prelude::*;

verus! {

/// Whether something that a worker did has failed.
pub open spec fn is_failure(event: WorkerEvent) -> bool {
    match event {
        WorkerEvent::Connect { ok } => !ok,
        WorkerEvent::Ping { ok } => !ok,
        WorkerEvent::Sent { ok } => !ok,
        WorkerEvent::WorkFailed => true,
        WorkerEvent::NoTask => false,
        WorkerEvent::Task { .. } => false,
    }
}

/// Whether something that a worker did on its connection went well, so that it goes on.
pub open spec fn goes_on(event: WorkerEvent) -> bool {
    !is_failure(event) && !(event is NoTask) && !(event is Task)
}

/// Whenever a monitor on a connection goes on, after it connected, pinged or sent a task, it
/// waits for a task as long as no other worker is there, and else only pings, after a second. It
/// is the same whatever it did before.
pub proof fn lemma_monitor_goes_on(event: WorkerEvent)
    requires
        goes_on(event),
    ensures
        forall|w: &mut PoolWorker, p: &mut ClientPool, r: WorkerAction| #[trigger]
            call_ensures(PoolWorker::step, (w, p, event), r) && event_fits((*w).state, event)
                && (*w).worker_id == 0 ==> {
                let next = *final(w);
                &&& next.worker_id == 0
                &&& (*p)@.workers <= 1 ==> next.state is Waiting && r is Recv
                &&& (*p)@.workers > 1 ==> next.state == (WorkerState::Pinging { alone: false }) && r
                    is SleepPing
                &&& (*final(p))@ == (*p)@
            },
{
}

/// A ping that went well leads on in the same way for a monitor whether it was alone or not: what
/// counts is how many workers there are now.
pub proof fn lemma_ping_leads_on()
    ensures
        forall|w: &mut PoolWorker, p: &mut ClientPool, r: WorkerAction| #[trigger]
            call_ensures(PoolWorker::step, (w, p, WorkerEvent::Ping { ok: true }), r) ==> {
                &&& (*p)@.workers <= 1 ==> (*final(w)).state is Waiting && r is Recv
                &&& (*p)@.workers > 1 ==> (*final(w)).state == (WorkerState::Pinging {
                    alone: false,
                }) && r is SleepPing
                &&& (*final(w)).worker_id == (*w).worker_id
                &&& (*final(p))@ == (*p)@
            },
{
}

/// An ordinary worker whose connection is ready, and one that has just been a monitor and sent its
/// task, works from then on, and counts as running.
pub proof fn lemma_worker_goes_on(event: WorkerEvent)
    requires
        goes_on(event),
        !(event is Ping),
    ensures
        forall|w: &mut PoolWorker, p: &mut ClientPool, r: WorkerAction| #[trigger]
            call_ensures(PoolWorker::step, (w, p, event), r) && (*w).worker_id > 0 ==> {
                &&& (*final(w)).state is Working && r is Work
                &&& (*final(w)).worker_id == (*w).worker_id
                &&& (*p)@.connected < usize::MAX ==> (*final(p))@.connected == (*p)@.connected + 1
                &&& (*final(p))@.workers == (*p)@.workers
                &&& (*final(p))@.is_ok == (*p)@.is_ok
            },
{
}

/// A monitor to which no task comes pings, and counts as alone.
pub proof fn lemma_monitor_pings()
    ensures
        forall|w: &mut PoolWorker, p: &mut ClientPool, r: WorkerAction| #[trigger]
            call_ensures(PoolWorker::step, (w, p, WorkerEvent::NoTask), r) ==> {
                &&& (*final(w)).state == (WorkerState::Pinging { alone: true }) && r is Ping
                &&& (*final(w)).worker_id == (*w).worker_id
                &&& (*final(p))@ == (*p)@
            },
{
}

/// A task that comes to a monitor is sent. Where others are in flight and there is no other
/// worker, a new monitor takes over, and the worker goes on as the first ordinary one; else
/// nothing changes for the pool.
pub proof fn lemma_task_comes(inflight: usize)
    ensures
        forall|w: &mut PoolWorker, p: &mut ClientPool, r: WorkerAction| #[trigger]
            call_ensures(PoolWorker::step, (w, p, WorkerEvent::Task { inflight }), r) ==> {
                let over = inflight > 0 && (*p)@.workers == 1;
                &&& (*final(w)).state is Sending
                &&& r is SpawnMonitorSend <==> over
                &&& r is Send <==> !over
                &&& over ==> (*final(w)).worker_id == 1 && (*final(p))@.workers == 2
                &&& !over ==> (*final(w)).worker_id == (*w).worker_id && (*final(p))@.workers
                    == (*p)@.workers
                &&& (*final(p))@.is_ok == (*p)@.is_ok
                &&& (*final(p))@.connected == (*p)@.connected
            },
{
}

/// What a failure leads to. The pool is not healthy any more. A monitor connects again: where it
/// could not connect or not send, after it has ended the tasks that wait and a second has passed;
/// where it could not ping, at once, and it ends the tasks that wait only if it was alone. An
/// ordinary worker that could not connect tries again like a monitor; one that could not send, or
/// whose connection failed, ends.
pub proof fn lemma_worker_fails(event: WorkerEvent)
    requires
        is_failure(event),
    ensures
        forall|w: &mut PoolWorker, p: &mut ClientPool, r: WorkerAction| #[trigger]
            call_ensures(PoolWorker::step, (w, p, event), r) ==> {
                let ends = event is WorkFailed || (event is Sent && (*w).worker_id > 0);
                &&& !(*final(p))@.is_ok
                &&& (*final(w)).worker_id == (*w).worker_id
                &&& (*final(p))@.workers == (*p)@.workers
                &&& (*final(w)).state is Exited <==> ends
                &&& r is Exit <==> ends
                &&& !ends ==> (*final(w)).state is Connecting
                &&& r is CleanupSleepConnect <==> event is Connect || (event is Sent && !ends)
                &&& r is CleanupConnect <==> event is Ping && (*w).state == (WorkerState::Pinging {
                    alone: true,
                })
                &&& r is Connect <==> event is Ping && (*w).state != (WorkerState::Pinging {
                    alone: true,
                })
                &&& event is WorkFailed && (*p)@.connected > 0 ==> (*final(p))@.connected
                    == (*p)@.connected - 1
                &&& !(event is WorkFailed) ==> (*final(p))@.connected == (*p)@.connected
            },
{
}

/// A worker waits for what it was told to do: the action that a step gives and the state that it
/// leaves belong together, so that what happens next can happen to the worker. What the pool is
/// called, where it leads and how many tasks may wait never changes, and health is never regained.
pub proof fn lemma_worker_waits_for_its_action(event: WorkerEvent)
    ensures
        forall|w: &mut PoolWorker, p: &mut ClientPool, r: WorkerAction| #[trigger]
            call_ensures(PoolWorker::step, (w, p, event), r) ==> {
                let s = (*final(w)).state;
                &&& s is Connecting <==> r is Connect || r is CleanupConnect || r
                    is CleanupSleepConnect
                &&& s is Waiting <==> r is Recv
                &&& s is Pinging <==> r is Ping || r is SleepPing
                &&& s is Sending <==> r is Send || r is SpawnMonitorSend
                &&& s is Working <==> r is Work
                &&& s is Exited <==> r is Exit
                &&& (*final(p))@.addr == (*p)@.addr && (*final(p))@.conn_id == (*p)@.conn_id
                &&& (*final(p))@.channel_size == (*p)@.channel_size
                &&& (*final(p))@.is_ok <==> (*p)@.is_ok && !is_failure(event)
            },
{
}

/// What can happen to a worker is what it waits for.
pub proof fn lemma_what_can_happen(w: PoolWorker, event: WorkerEvent)
    ensures
        w.state is Connecting ==> (event_fits(w.state, event) <==> event is Connect),
        w.state is Waiting ==> (event_fits(w.state, event) <==> event is NoTask || event is Task),
        w.state is Pinging ==> (event_fits(w.state, event) <==> event is Ping),
        w.state is Sending ==> (event_fits(w.state, event) <==> event is Sent),
        w.state is Working ==> (event_fits(w.state, event) <==> event is WorkFailed),
        w.state is Exited ==> !event_fits(w.state, event),
{
}

/// Whatever fits the state of a worker can be handed to it.
pub proof fn lemma_step_can_be_taken(w: &mut PoolWorker, p: &mut ClientPool, event: WorkerEvent)
    requires
        (*w).state is Connecting ==> event is Connect,
        (*w).state is Waiting ==> event is NoTask || event is Task,
        (*w).state is Pinging ==> event is Ping,
        (*w).state is Sending ==> event is Sent,
        (*w).state is Working ==> event is WorkFailed,
        !((*w).state is Exited),
    ensures
        call_requires(PoolWorker::step, (w, p, event)),
{
}

/// A new worker is about to connect, under its ID.
pub proof fn lemma_new_worker(id: usize, r: PoolWorker)
    requires
        call_ensures(PoolWorker::new, (id,), r),
    ensures
        r.worker_id == id,
        r.state is Connecting,
{
}

/// An ordinary worker sends each task that comes, looks for another after each, flushes once
/// there is none, and waits for the next after that. It fails where sending or flushing does, and
/// only there.
pub proof fn lemma_work_steps(event: WorkEvent)
    ensures
        forall|s: &mut WorkState, r: WorkAction| #[trigger]
            call_ensures(WorkState::step, (s, event), r) ==> {
                let bad = event == (WorkEvent::Sent { ok: false }) || event == (
                WorkEvent::Flushed { ok: false });
                let next = *final(s);
                &&& r is Send <==> event is Task
                &&& r is Flush <==> event is Empty
                &&& r is TryRecv <==> event is Sent && !bad
                &&& r is Recv <==> event is Flushed && !bad
                &&& r is Fail <==> bad
                &&& next is Sending <==> r is Send
                &&& next is Flushing <==> r is Flush
                &&& next is Draining <==> r is TryRecv
                &&& next is Waiting <==> r is Recv
                &&& next is Failed <==> r is Fail
            },
{
}

/// A new pool is healthy and has no workers; its connections are named after where they lead. Its
/// channel takes at least as many tasks as may be in flight on a connection and as are asked for,
/// no more than the greater of the two, and 128 where nothing is configured.
pub proof fn lemma_new_pool(addr: &str, channel_size: usize, thresholds: usize, r: ClientPool)
    requires
        call_ensures(ClientPool::new, (addr, channel_size, thresholds), r),
    ensures
        r@.is_ok && r@.workers == 0 && r@.connected == 0,
        r@.addr == addr@,
        r@.conn_id.len() == addr@.len() + 3,
        r@.conn_id.subrange(3, r@.conn_id.len() as int) == addr@,
        r@.conn_id[0] == 't' && r@.conn_id[1] == 'o' && r@.conn_id[2] == ' ',
        channel_size > 0 || thresholds > 0 ==> r@.channel_size >= channel_size
            && r@.channel_size >= thresholds && (r@.channel_size == channel_size || r@.channel_size
            == thresholds),
        channel_size == 0 && thresholds == 0 ==> r@.channel_size == 128,
{
    reveal_strlit("to ");
    assert(r@.conn_id.subrange(3, r@.conn_id.len() as int) =~= addr@);
}

/// Workers are counted: each gets as its ID how many there were, the first being the monitor, and
/// one that ends is no longer counted. A worker that comes and ends leaves the pool as it was.
pub proof fn lemma_workers_are_counted()
    ensures
        forall|p: &mut ClientPool, r: usize| #[trigger]
            call_ensures(ClientPool::spawn, (p,), r) ==> r == (*p)@.workers && ((*p)@.workers
                < usize::MAX ==> (*final(p))@ == (PoolSpec {
                workers: (r + 1) as usize,
                ..(*p)@
            })),
        forall|p: &mut ClientPool| #[trigger]
            call_ensures(ClientPool::worker_exited, (p,), ()) && (*p)@.workers > 0
                ==> (*final(p))@ == (PoolSpec { workers: ((*p)@.workers - 1) as usize, ..(*p)@ }),
        forall|p: &mut ClientPool, r: usize, q: &mut ClientPool|
            #![trigger
                call_ensures(ClientPool::spawn, (p,), r),
                call_ensures(ClientPool::worker_exited, (q,), ())]
            call_ensures(ClientPool::spawn, (p,), r) && *q == *final(p) && call_ensures(
                ClientPool::worker_exited,
                (q,),
                (),
            ) ==> (*final(q))@ == (*p)@,
{
    assert forall|p: &mut ClientPool, r: usize, q: &mut ClientPool|
        #![trigger
            call_ensures(ClientPool::spawn, (p,), r),
            call_ensures(ClientPool::worker_exited, (q,), ())]
        call_ensures(ClientPool::spawn, (p,), r) && *q == *final(p) && call_ensures(
            ClientPool::worker_exited,
            (q,),
            (),
        ) implies (*final(q))@ == (*p)@ by {
        let n = (*p)@.workers;
        assert(n.wrapping_add(1).wrapping_sub(1) == n);
    }
}

/// A task whose server cannot be reached ends with `Unreachable`, and keeps its way back.
pub proof fn lemma_task_is_cleaned_up<C, T: ClientTask<C>>(task: T, r: T)
    requires
        call_ensures(cleanup_task::<C, T>, (task,), r),
    ensures
        failed::<C, T>(task, r, RpcIntErr::Unreachable),
{
}

/// What a pool says of itself.
pub proof fn lemma_state_of_pool(p: ClientPool)
    ensures
        forall|r: bool| #[trigger]
            call_ensures(ClientPool::is_healthy, (&p,), r) ==> (r <==> p@.is_ok),
        forall|r: &str| #[trigger] call_ensures(ClientPool::get_addr, (&p,), r) ==> r@ == p@.addr,
        forall|r: &str| #[trigger] call_ensures(ClientPool::conn_id, (&p,), r) ==> r@ == p@.conn_id,
        forall|r: usize| #[trigger]
            call_ensures(ClientPool::channel_size, (&p,), r) ==> r == p@.channel_size,
        forall|r: usize| #[trigger]
            call_ensures(ClientPool::get_workers, (&p,), r) ==> r == p@.workers,
        forall|r: usize| #[trigger]
            call_ensures(ClientPool::get_healthy_workers, (&p,), r) ==> r == p@.connected,
{
}

} // verus!
