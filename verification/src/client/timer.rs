//! The tasks of a connection that wait for their responses.
//!
//! A task is registered once its request is on its way. It then waits in the batch of the
//! current second; each second that batch moves to the front of a queue of earlier batches,
//! and the batch that has been there longest times out.

use crate::client::task::{rpc_failed, ClientTask, ClientTaskState};
use crate::error::RpcIntErr;
use crate::fxmap::{fx_insert, fx_keys, fx_remove};
use rustc_hash::FxHashMap;
use std::collections::VecDeque;
use std::marker::PhantomData;
use vstd::prelude::*;

verus! {

/// A registered task, with what is held back until it is finished.
pub struct ClientTaskItem<T, G> {
    pub task: Option<T>,
    pub upstream: Option<G>,
}

/// Tasks that were registered in the same second.
pub struct DelayTasksBatch<T, G> {
    tasks: FxHashMap<u64, ClientTaskItem<T, G>>,
}

/// The tasks of a second, by their IDs.
pub type Batch<T, G> = Map<u64, ClientTaskItem<T, G>>;

/// What a timer holds.
pub struct TimerSpec<T, G> {
    /// Tasks of the current second.
    pub sent: Batch<T, G>,
    /// Tasks of past seconds, the last one first.
    pub delayed: Seq<Batch<T, G>>,
    /// How many seconds a task may wait.
    pub timeout: nat,
    /// A task with a lower ID counts as timed out.
    pub min_delay_seq: u64,
    /// The ID of the task that was registered last.
    pub processed_seq: u64,
    /// Whether no more tasks will be registered.
    pub stopped: bool,
    /// How many tasks are on their way to being registered.
    pub pending: u64,
    /// How many tasks may be on their way to being registered.
    pub bound: usize,
    /// The name of the connection, for messages about it.
    pub name: Seq<char>,
}

/// Keeps the tasks of a connection until their responses come or their time is over.
pub struct ClientTaskTimer<C, T, G> {
    conn_id: String,
    pending_task_count: u64,
    sent_tasks: FxHashMap<u64, ClientTaskItem<T, G>>,
    delay_tasks_queue: VecDeque<DelayTasksBatch<T, G>>,
    min_delay_seq: u64,
    task_timeout: usize,
    processed_seq: u64,
    reg_stopped: bool,
    pending_bound: usize,
    _phan: PhantomData<C>,
}

/// Whether every item of a batch holds the task with its ID.
pub open spec fn batch_ok<C, T: ClientTaskState<C>, G>(b: Batch<T, G>) -> bool {
    forall|k: u64| #[trigger]
        b.contains_key(k) ==> b[k].task is Some && b[k].task->0.common().seq == k
}

/// Whether `out` holds the tasks of batch `b`, each exactly once, after they failed with `e`.
pub open spec fn batch_failed<C, T: ClientTaskState<C>, G>(
    b: Batch<T, G>,
    out: Seq<T>,
    e: RpcIntErr,
) -> bool {
    exists|keys: Seq<u64>| #[trigger] batch_failed_as::<C, T, G>(b, keys, out, e)
}

/// As `batch_failed`, with the IDs in the order of the tasks.
pub open spec fn batch_failed_as<C, T: ClientTaskState<C>, G>(
    b: Batch<T, G>,
    keys: Seq<u64>,
    out: Seq<T>,
    e: RpcIntErr,
) -> bool {
    &&& keys.no_duplicates()
    &&& keys.to_set() == b.dom()
    &&& out.len() == keys.len()
    &&& forall|i: int|
        #![trigger out[i]]
        0 <= i < out.len() ==> rpc_failed::<C, T>(b[keys[i]].task->0, out[i], e)
}

/// Whether `out` holds the tasks of all batches `bs`, batch by batch, after they failed with
/// `e`.
pub open spec fn batches_failed<C, T: ClientTaskState<C>, G>(
    bs: Seq<Batch<T, G>>,
    out: Seq<T>,
    e: RpcIntErr,
) -> bool
    decreases bs.len(),
{
    if bs.len() == 0 {
        out.len() == 0
    } else {
        exists|n: int|
            0 <= n <= out.len() && #[trigger] batch_failed::<C, T, G>(
                bs.last(),
                out.subrange(n, out.len() as int),
                e,
            ) && batches_failed::<C, T, G>(bs.drop_last(), out.subrange(0, n), e)
    }
}

impl<T, G> TimerSpec<T, G> {
    /// The batch that times out with the next second, if the queue is full by then.
    pub open spec fn expiring(self) -> Batch<T, G> {
        if self.delayed.len() < self.timeout {
            Map::empty()
        } else if self.delayed.len() == 0 {
            self.sent
        } else {
            self.delayed.last()
        }
    }

    /// Whether `min` is the lowest ID of the tasks that time out with the next second, or what
    /// it was before where there are none.
    pub open spec fn lowest_expired(self, min: u64) -> bool {
        let b = self.expiring();
        if b =~= Map::<u64, ClientTaskItem<T, G>>::empty() {
            min == self.min_delay_seq
        } else {
            &&& b.contains_key(min)
            &&& forall|k: u64| #[trigger] b.contains_key(k) ==> min <= k
        }
    }

    /// The queue a second later.
    pub open spec fn shifted(self) -> Seq<Batch<T, G>> {
        let all = seq![self.sent] + self.delayed;
        if all.len() > self.timeout {
            all.drop_last()
        } else {
            all
        }
    }

    /// Whether `next` is the timer a second later.
    pub open spec fn second_later(self, next: TimerSpec<T, G>) -> bool {
        &&& next == (TimerSpec {
            sent: Map::empty(),
            delayed: self.shifted(),
            min_delay_seq: next.min_delay_seq,
            ..self
        })
        &&& self.lowest_expired(next.min_delay_seq)
    }

    /// Whether looking for the task with this ID gives `r` and leaves `next`.
    pub open spec fn taken(self, seq: u64, r: TakeTask<T, G>, next: TimerSpec<T, G>) -> bool {
        if seq < self.min_delay_seq || (seq > self.processed_seq && self.stopped) {
            r is Gone && next == self
        } else if seq > self.processed_seq {
            r is Wait && next == self
        } else if self.sent.contains_key(seq) {
            &&& r == TakeTask::Found(self.sent[seq])
            &&& next == (TimerSpec { sent: self.sent.remove(seq), ..self })
        } else {
            ||| r is Gone && self.absent(seq) && next == self
            ||| exists|i: int| #[trigger]
                first_with(self.delayed, seq, i) && r == TakeTask::Found(self.delayed[i][seq])
                    && next == (TimerSpec {
                    delayed: self.delayed.update(i, self.delayed[i].remove(seq)),
                    ..self
                })
        }
    }

    /// The timer without any task.
    pub open spec fn cleaned(self) -> TimerSpec<T, G> {
        TimerSpec { sent: Map::empty(), delayed: emptied(self.delayed.len()), ..self }
    }

    /// The timer with one more task.
    pub open spec fn registered<C>(self, item: ClientTaskItem<T, G>) -> TimerSpec<
        T,
        G,
    > where T: ClientTaskState<C> {
        let seq = item.task->0.common().seq;
        TimerSpec {
            sent: self.sent.insert(seq, item),
            processed_seq: seq,
            pending: self.pending.wrapping_sub(1),
            ..self
        }
    }

    /// The timer with more tasks, one after another.
    pub open spec fn registered_all<C>(self, items: Seq<ClientTaskItem<T, G>>) -> TimerSpec<
        T,
        G,
    > where T: ClientTaskState<C>
        decreases items.len(),
    {
        if items.len() == 0 {
            self
        } else {
            self.registered_all::<C>(items.drop_last()).registered::<C>(items.last())
        }
    }

    /// Whether no task is waiting.
    pub open spec fn idle(self) -> bool {
        &&& self.sent.is_empty()
        &&& forall|i: int| 0 <= i < self.delayed.len() ==> (#[trigger] self.delayed[i]).is_empty()
    }

    /// All batches, that of the current second first.
    pub open spec fn batches(self) -> Seq<Batch<T, G>> {
        seq![self.sent] + self.delayed
    }

    /// Whether a task waits under the ID `seq`, in `item`.
    pub open spec fn holds(self, seq: u64, item: ClientTaskItem<T, G>) -> bool {
        exists|i: int|
            #![trigger self.batches()[i]]
            0 <= i < self.batches().len() && self.batches()[i].contains_key(seq)
                && self.batches()[i][seq] == item
    }

    /// Whether the IDs of the waiting tasks are in order: those of a later second are higher, so
    /// that no two tasks have the same one, and none is out of reach.
    pub open spec fn ordered(self) -> bool {
        &&& self.min_delay_seq <= self.processed_seq
        &&& forall|i: int, k: u64|
            0 <= i < self.batches().len() && #[trigger] self.batches()[i].contains_key(k)
                ==> self.min_delay_seq <= k <= self.processed_seq
        &&& forall|i: int, j: int, a: u64, b: u64|
            0 <= i < j < self.batches().len() && #[trigger] self.batches()[i].contains_key(a)
                && #[trigger] self.batches()[j].contains_key(b) ==> b < a
    }

    /// Whether `event` turns the timer into `next`.
    pub open spec fn leads<C>(self, event: TimerEvent<T, G>, next: TimerSpec<T, G>) -> bool where
        T: ClientTaskState<C>,
     {
        match event {
            TimerEvent::Registered(item) => item.task is Some && next == self.registered::<C>(item),
            TimerEvent::Taken(seq, r) => self.taken(seq, r, next),
            TimerEvent::Second => self.second_later(next),
            TimerEvent::Cleaned => next == self.cleaned(),
            TimerEvent::Counted => next == (TimerSpec {
                pending: next.pending,
                stopped: next.stopped,
                ..self
            }),
        }
    }

    /// Whether `seq` is in no batch.
    pub open spec fn absent(self, seq: u64) -> bool {
        &&& !self.sent.contains_key(seq)
        &&& forall|j: int|
            0 <= j < self.delayed.len() ==> !(#[trigger] self.delayed[j]).contains_key(seq)
    }
}

/// What happens to a timer.
pub enum TimerEvent<T, G> {
    /// A task is registered.
    Registered(ClientTaskItem<T, G>),
    /// The task with this ID is looked for.
    Taken(u64, TakeTask<T, G>),
    /// A second passes.
    Second,
    /// Every waiting task is ended.
    Cleaned,
    /// A task starts or stops being on its way, or no more will be registered.
    Counted,
}

impl<T, G> TimerEvent<T, G> {
    /// Whether the task that waits under the ID `seq` is left alone, except by time.
    pub open spec fn spares<C>(self, seq: u64) -> bool where T: ClientTaskState<C> {
        match self {
            TimerEvent::Registered(item) => item.task->0.common().seq != seq,
            TimerEvent::Taken(k, r) => k == seq ==> !(r is Found),
            TimerEvent::Second => true,
            TimerEvent::Cleaned => false,
            TimerEvent::Counted => true,
        }
    }
}

/// How many tasks may be on their way to being registered: twice as many as may be in flight, or
/// 1000 where that is not limited.
pub open spec fn spec_bound(thresholds: usize) -> usize {
    if thresholds == 0 {
        1000
    } else {
        (2 * thresholds) as usize
    }
}

/// What becomes of looking for a task.
pub enum TakeTask<T, G> {
    /// The task, which is no longer registered.
    Found(ClientTaskItem<T, G>),
    /// No such task waits.
    Gone,
    /// The task may still be on its way to being registered.
    Wait,
}

/// What the batches of a queue hold.
spec fn batches<T, G>(q: Seq<DelayTasksBatch<T, G>>) -> Seq<Batch<T, G>> {
    q.map_values(|b: DelayTasksBatch<T, G>| b.tasks@)
}

/// Takes the task with this ID out of the first batch that holds it.
fn remove_delayed<T, G>(q: &mut VecDeque<DelayTasksBatch<T, G>>, seq: u64) -> (r: Option<
    ClientTaskItem<T, G>,
>)
    ensures
        match r {
            None => {
                &&& batches(final(q)@) == batches(old(q)@)
                &&& forall|j: int|
                    0 <= j < old(q)@.len() ==> !(#[trigger] batches(old(q)@)[j]).contains_key(seq)
            },
            Some(x) => exists|i: int| #[trigger]
                first_with(batches(old(q)@), seq, i) && x == batches(old(q)@)[i][seq] && batches(
                    final(q)@,
                ) == batches(old(q)@).update(i, batches(old(q)@)[i].remove(seq)),
        },
{
    let ghost d0 = batches(q@);
    let ghost mut done: Seq<Batch<T, G>> = Seq::empty();
    let ghost mut w: int = 0;
    let n: usize = q.len();
    let mut found: Option<ClientTaskItem<T, G>> = None;
    let mut i: usize = 0;
    proof {
        assert(d0.subrange(0, n as int) + done =~= d0);
        assert(d0.subrange(0, 0) =~= done);
    }
    // Each batch leaves at the front and comes back at the end, so that a full turn keeps
    // their order.
    while i < n
        invariant
            i <= n == d0.len(),
            q@.len() == n,
            done.len() == i,
            batches(q@) == d0.subrange(i as int, n as int) + done,
            match found {
                None => {
                    &&& done == d0.subrange(0, i as int)
                    &&& forall|j: int| 0 <= j < i ==> !(#[trigger] d0[j]).contains_key(seq)
                },
                Some(x) => {
                    &&& w < i
                    &&& first_with(d0, seq, w)
                    &&& x == d0[w][seq]
                    &&& done == d0.update(w, d0[w].remove(seq)).subrange(0, i as int)
                },
            },
        decreases n - i,
    {
        let ghost q0 = q@;
        if let Some(b) = q.pop_front() {
            let mut b = b;
            proof {
                assert(batches(q0)[0] == d0[i as int]);
                assert(b.tasks@ == d0[i as int]);
                assert(batches(q@) =~= batches(q0).subrange(1, n as int));
            }
            let ghost b0 = b.tasks@;
            let ghost before = found;
            if found.is_none() {
                found = fx_remove(&mut b.tasks, seq);
                proof {
                    if found is Some {
                        w = i as int;
                    } else {
                        assert(b.tasks@ =~= b0);
                    }
                }
            }
            let ghost q1 = q@;
            let ghost bv = b.tasks@;
            q.push_back(b);
            proof {
                done = done.push(bv);
                assert(batches(q@) =~= batches(q1).push(bv));
                assert(batches(q@) =~= d0.subrange(i + 1, n as int) + done);
                let upd = d0.update(w, d0[w].remove(seq));
                assert(found is None ==> done =~= d0.subrange(0, i + 1));
                assert(found is Some ==> done =~= upd.subrange(0, i + 1));
            }
        }
        i += 1;
    }
    proof {
        assert(d0.subrange(n as int, n as int) + done =~= done);
        assert(d0.subrange(0, n as int) =~= d0);
        if found is Some {
            let upd = d0.update(w, d0[w].remove(seq));
            assert(upd.subrange(0, n as int) =~= upd);
        }
    }
    found
}

/// Whether batch `i` is the first that holds `seq`.
pub open spec fn first_with<T, G>(bs: Seq<Batch<T, G>>, seq: u64, i: int) -> bool {
    &&& 0 <= i < bs.len()
    &&& bs[i].contains_key(seq)
    &&& forall|j: int| 0 <= j < i ==> !(#[trigger] bs[j]).contains_key(seq)
}

/// Takes every task out of `m`, sets its error to `e` and appends it to `out`.
fn fail_batch<C, T: ClientTask<C>, G>(
    m: &mut FxHashMap<u64, ClientTaskItem<T, G>>,
    e: RpcIntErr,
) -> (out: Vec<T>)
    requires
        batch_ok::<C, T, G>(old(m)@),
    ensures
        final(m)@ == Map::<u64, ClientTaskItem<T, G>>::empty(),
        batch_failed::<C, T, G>(old(m)@, out@, e),
{
    let ghost m0 = m@;
    let keys: Vec<u64> = fx_keys(m);
    let mut out: Vec<T> = Vec::new();
    let mut i: usize = 0;
    while i < keys.len()
        invariant
            i <= keys.len(),
            out.len() == i,
            keys@.no_duplicates(),
            keys@.to_set() == m0.dom(),
            batch_ok::<C, T, G>(m0),
            forall|k: u64| #[trigger]
                m@.contains_key(k) ==> m0.contains_key(k) && m@[k] == m0[k] && !keys@.subrange(
                    0,
                    i as int,
                ).contains(k),
            forall|j: int| i <= j < keys.len() ==> m@.contains_key(#[trigger] keys[j]),
            forall|j: int|
                #![trigger out[j]]
                0 <= j < i ==> rpc_failed::<C, T>(m0[keys[j]].task->0, out[j], e),
        decreases keys.len() - i,
    {
        let k: u64 = keys[i];
        proof {
            assert(keys@.to_set().contains(k));
        }
        if let Some(item) = fx_remove(m, k) {
            if let Some(task) = item.task {
                let mut task = task;
                task.set_rpc_error(e);
                out.push(task);
            }
        }
        proof {
            let head = keys@.subrange(0, i + 1);
            assert(head =~= keys@.subrange(0, i as int).push(k));
            assert forall|x: u64| head.contains(x) implies keys@.subrange(0, i as int).contains(x)
                || x == k by {}
        }
        i += 1;
    }
    proof {
        assert forall|k: u64| !m@.contains_key(k) by {
            if m@.contains_key(k) {
                assert(keys@.to_set().contains(k));
                assert(keys@.subrange(0, keys.len() as int) =~= keys@);
            }
        }
        assert(m@ =~= Map::<u64, ClientTaskItem<T, G>>::empty());
        assert(batch_failed_as::<C, T, G>(m0, keys@, out@, e));
    }
    out
}

impl<C, T: ClientTask<C>, G> ClientTaskTimer<C, T, G> {
    /// What the timer holds.
    pub closed spec fn view(&self) -> TimerSpec<T, G> {
        TimerSpec {
            sent: self.sent_tasks@,
            delayed: batches(self.delay_tasks_queue@),
            timeout: self.task_timeout as nat,
            min_delay_seq: self.min_delay_seq,
            processed_seq: self.processed_seq,
            stopped: self.reg_stopped,
            pending: self.pending_task_count,
            bound: self.pending_bound,
            name: self.conn_id@,
        }
    }

    /// Every batch holds tasks under their own IDs, and no more seconds are kept than a task
    /// may wait.
    pub open spec fn wf(&self) -> bool {
        &&& batch_ok::<C, T, G>(self@.sent)
        &&& forall|i: int|
            0 <= i < self@.delayed.len() ==> batch_ok::<C, T, G>(#[trigger] self@.delayed[i])
        &&& self@.delayed.len() <= self@.timeout
    }

    /// A timer without tasks, in which a task may wait for `task_timeout` seconds. Twice as
    /// many tasks as `thresholds` (500 where that is 0) may be on their way.
    pub fn new(conn_id: String, task_timeout: usize, thresholds: usize) -> (r: Self)
        requires
            2 * thresholds <= usize::MAX,
        ensures
            r.wf(),
            r@.ordered(),
            r@ == (TimerSpec::<T, G> {
                sent: Map::empty(),
                delayed: Seq::empty(),
                timeout: task_timeout as nat,
                min_delay_seq: 0,
                processed_seq: 0,
                stopped: false,
                pending: 0,
                bound: spec_bound(thresholds),
                name: conn_id@,
            }),
    {
        let thresholds: usize = if thresholds == 0 {
            500
        } else {
            thresholds
        };
        let r = ClientTaskTimer {
            conn_id,
            pending_task_count: 0,
            sent_tasks: FxHashMap::default(),
            delay_tasks_queue: VecDeque::new(),
            min_delay_seq: 0,
            task_timeout,
            processed_seq: 0,
            reg_stopped: false,
            pending_bound: thresholds * 2,
            _phan: PhantomData,
        };
        assert(r@.delayed =~= Seq::<Batch<T, G>>::empty());
        r
    }

    /// How many tasks may be on their way to being registered.
    pub fn pending_bound(&self) -> (r: usize)
        ensures
            r == self@.bound,
    {
        self.pending_bound
    }

    /// How many tasks are on their way to being registered.
    pub fn pending_task_count_ref(&self) -> (r: &u64)
        ensures
            *r == self@.pending,
    {
        &self.pending_task_count
    }

    /// The name of the connection, for messages about it.
    pub fn conn_id(&self) -> (r: &str)
        ensures
            r@ == self@.name,
    {
        self.conn_id.as_str()
    }

    /// Counts a task that is on its way to being registered.
    pub fn add_pending(&mut self)
        ensures
            final(self)@ == (TimerSpec {
                pending: old(self)@.pending.wrapping_add(1),
                ..old(self)@
            }),
            old(self).wf() ==> final(self).wf(),
    {
        self.pending_task_count = self.pending_task_count.wrapping_add(1);
    }

    /// Takes back the count of a task that will not be registered.
    pub fn sub_pending(&mut self)
        ensures
            final(self)@ == (TimerSpec {
                pending: old(self)@.pending.wrapping_sub(1),
                ..old(self)@
            }),
            old(self).wf() ==> final(self).wf(),
    {
        self.pending_task_count = self.pending_task_count.wrapping_sub(1);
    }

    /// Registers a task.
    pub fn got_pending_task(&mut self, task_item: ClientTaskItem<T, G>)
        requires
            task_item.task is Some,
        ensures
            final(self)@ == old(self)@.registered::<C>(task_item),
            old(self).wf() ==> final(self).wf(),
    {
        self.pending_task_count = self.pending_task_count.wrapping_sub(1);
        let seq: u64 = match &task_item.task {
            Some(t) => t.seq(),
            None => 0,
        };
        self.processed_seq = seq;
        fx_insert(&mut self.sent_tasks, seq, task_item);
    }

    /// Registers the tasks that have arrived, in this order, and says whether there were any.
    pub fn poll_sent_task(&mut self, items: Vec<ClientTaskItem<T, G>>) -> (r: bool)
        requires
            forall|i: int| 0 <= i < items@.len() ==> (#[trigger] items@[i]).task is Some,
        ensures
            final(self)@ == old(self)@.registered_all::<C>(items@),
            r == (items@.len() > 0),
            old(self).wf() ==> final(self).wf(),
    {
        let got = items.len() > 0;
        let ghost all = items@;
        assert(all.subrange(0, 0) =~= Seq::<ClientTaskItem<T, G>>::empty());
        for item in iter: items
            invariant
                iter.seq() == all,
                forall|i: int| 0 <= i < all.len() ==> (#[trigger] all[i]).task is Some,
                self@ == old(self)@.registered_all::<C>(all.subrange(0, iter.index())),
                old(self).wf() ==> self.wf(),
        {
            proof {
                let next = all.subrange(0, iter.index() + 1);
                assert(next.drop_last() =~= all.subrange(0, iter.index()));
                assert(next.last() == item);
            }
            self.got_pending_task(item);
        }
        assert(all.subrange(0, all.len() as int) =~= all);
        got
    }

    /// Says that no more tasks will be registered.
    pub fn stop_reg_task(&mut self)
        ensures
            final(self)@ == (TimerSpec { stopped: true, ..old(self)@ }),
            old(self).wf() ==> final(self).wf(),
    {
        self.reg_stopped = true;
    }

    /// Looks for the task with this ID and takes it out. No other task is ever found.
    pub fn take_task(&mut self, seq: u64) -> (r: TakeTask<T, G>)
        requires
            old(self).wf(),
        ensures
            final(self).wf(),
            r matches TakeTask::Found(item) ==> item.task matches Some(t) && t.common().seq == seq,
            old(self)@.taken(seq, r, final(self)@),
    {
        if seq < self.min_delay_seq {
            // It timed out before.
            return TakeTask::Gone;
        }
        if seq > self.processed_seq {
            if self.reg_stopped {
                return TakeTask::Gone;
            }
            return TakeTask::Wait;
        }
        if let Some(item) = fx_remove(&mut self.sent_tasks, seq) {
            return TakeTask::Found(item);
        }
        proof {
            assert(self.sent_tasks@ =~= old(self).sent_tasks@);
        }
        match remove_delayed(&mut self.delay_tasks_queue, seq) {
            Some(item) => TakeTask::Found(item),
            None => TakeTask::Gone,
        }
    }

    /// Whether no task is waiting.
    pub fn check_pending_tasks_empty(&self) -> (r: bool)
        ensures
            r == self@.idle(),
    {
        if !self.sent_tasks.is_empty() {
            return false;
        }
        let n: usize = self.delay_tasks_queue.len();
        let mut i: usize = 0;
        while i < n
            invariant
                i <= n == self.delay_tasks_queue@.len(),
                self@.delayed.len() == n,
                self@.delayed == batches(self.delay_tasks_queue@),
                self@.sent.is_empty(),
                forall|j: int| 0 <= j < i ==> (#[trigger] self@.delayed[j]).is_empty(),
            decreases n - i,
        {
            let b = &self.delay_tasks_queue[i];
            assert(self@.delayed[i as int] == b.tasks@);
            if !b.tasks.is_empty() {
                return false;
            }
            i += 1;
        }
        true
    }

    /// Ends every waiting task with the error `IO`, for a connection that broke. The tasks
    /// are to go to the error handler, in this order.
    pub fn clean_pending_tasks(&mut self) -> (out: Vec<T>)
        requires
            old(self).wf(),
        ensures
            batches_failed::<C, T, G>(old(self)@.batches(), out@, RpcIntErr::IO),
            final(self).wf(),
            final(self)@ == old(self)@.cleaned(),
    {
        let mut out: Vec<T> = fail_batch(&mut self.sent_tasks, RpcIntErr::IO);
        let ghost v0 = old(self)@;
        let ghost d0 = v0.delayed;
        let n: usize = self.delay_tasks_queue.len();
        let mut i: usize = 0;
        proof {
            let none = Seq::<Batch<T, G>>::empty();
            assert(batches_failed::<C, T, G>(none, Seq::<T>::empty(), RpcIntErr::IO));
            lemma_batches_push::<C, T, G>(none, Seq::empty(), v0.sent, out@, RpcIntErr::IO);
            assert(Seq::<T>::empty() + out@ =~= out@);
            assert(none.push(v0.sent) =~= seq![v0.sent] + d0.subrange(0, 0));
            assert(batches(self.delay_tasks_queue@) =~= d0.subrange(0, n as int) + emptied(0));
        }
        // Each batch leaves at the front and comes back at the end, so that a full turn keeps
        // their order.
        while i < n
            invariant
                i <= n == d0.len(),
                self.delay_tasks_queue@.len() == n,
                forall|j: int| 0 <= j < n ==> batch_ok::<C, T, G>(#[trigger] d0[j]),
                batches(self.delay_tasks_queue@) == d0.subrange(i as int, n as int) + emptied(
                    i as nat,
                ),
                batches_failed::<C, T, G>(
                    seq![v0.sent] + d0.subrange(0, i as int),
                    out@,
                    RpcIntErr::IO,
                ),
                self.sent_tasks@ == Map::<u64, ClientTaskItem<T, G>>::empty(),
                self.task_timeout == v0.timeout,
                self.min_delay_seq == v0.min_delay_seq,
                self.processed_seq == v0.processed_seq,
                self.reg_stopped == v0.stopped,
                self.pending_task_count == v0.pending,
                self.pending_bound == v0.bound,
                self.conn_id@ == v0.name,
            decreases n - i,
        {
            let ghost q0 = self.delay_tasks_queue@;
            if let Some(b) = self.delay_tasks_queue.pop_front() {
                let mut b = b;
                proof {
                    assert(batches(q0)[0] == d0[i as int]);
                    assert(b.tasks@ == d0[i as int]);
                    assert(batches(self.delay_tasks_queue@) =~= batches(q0).subrange(1, n as int));
                }
                let mut failed: Vec<T> = fail_batch(&mut b.tasks, RpcIntErr::IO);
                proof {
                    let bs = seq![v0.sent] + d0.subrange(0, i as int);
                    lemma_batches_push::<C, T, G>(
                        bs,
                        out@,
                        d0[i as int],
                        failed@,
                        RpcIntErr::IO,
                    );
                    assert(bs.push(d0[i as int]) =~= seq![v0.sent] + d0.subrange(0, i + 1));
                }
                out.append(&mut failed);
                let ghost q1 = self.delay_tasks_queue@;
                let ghost bv = b.tasks@;
                self.delay_tasks_queue.push_back(b);
                proof {
                    assert(batches(self.delay_tasks_queue@) =~= batches(q1).push(bv));
                    assert(batches(self.delay_tasks_queue@) =~= d0.subrange(i + 1, n as int)
                        + emptied::<T, G>((i + 1) as nat));
                }
            }
            i += 1;
        }
        proof {
            assert(d0.subrange(0, n as int) =~= d0);
            assert(self@.delayed =~= emptied::<T, G>(n as nat));
        }
        out
    }

    /// Lets a second pass: the tasks of the current second join those of past seconds, and
    /// those that have waited too long end with the error `Timeout`. The tasks are to go to
    /// the error handler.
    pub fn adjust_task_queue(&mut self) -> (out: Vec<T>)
        requires
            old(self).wf(),
        ensures
            final(self).wf(),
            batch_failed::<C, T, G>(old(self)@.expiring(), out@, RpcIntErr::Timeout),
            old(self)@.second_later(final(self)@),
    {
        let ghost v0 = self@;
        let ghost all = seq![v0.sent] + v0.delayed;
        let mut tasks: FxHashMap<u64, ClientTaskItem<T, G>> = FxHashMap::default();
        std::mem::swap(&mut self.sent_tasks, &mut tasks);
        self.delay_tasks_queue.push_front(DelayTasksBatch { tasks });
        assert(batches(self.delay_tasks_queue@) =~= all);
        let mut out: Vec<T> = Vec::new();
        proof {
            let none = Seq::<u64>::empty();
            assert(none.to_set() =~= Map::<u64, ClientTaskItem<T, G>>::empty().dom());
            assert(batch_failed_as::<C, T, G>(Map::empty(), none, out@, RpcIntErr::Timeout));
        }
        if self.delay_tasks_queue.len() > self.task_timeout {
            let ghost q0 = self.delay_tasks_queue@;
            if let Some(b) = self.delay_tasks_queue.pop_back() {
                let mut b = b;
                proof {
                    assert(b.tasks@ == all.last());
                    assert(batches(self.delay_tasks_queue@) =~= all.drop_last());
                    assert(b.tasks@ == v0.expiring());
                }
                if !b.tasks.is_empty() {
                    let keys: Vec<u64> = fx_keys(&b.tasks);
                    proof {
                        let k = choose|k: u64| b.tasks@.contains_key(k);
                        if keys@.len() == 0 {
                            assert(keys@.to_set() =~= Set::<u64>::empty());
                            assert(b.tasks@ =~= Map::<u64, ClientTaskItem<T, G>>::empty());
                        }
                    }
                    let min: u64 = min_seq(&keys);
                    proof {
                        assert(keys@.to_set().contains(min));
                        assert forall|k: u64| b.tasks@.contains_key(k) implies keys@.contains(
                            k,
                        ) by {
                            assert(keys@.to_set().contains(k));
                        }
                    }
                    out = fail_batch(&mut b.tasks, RpcIntErr::Timeout);
                    self.min_delay_seq = min;
                } else {
                    assert(b.tasks@ =~= Map::<u64, ClientTaskItem<T, G>>::empty());
                }
            }
        }
        assert(self@.delayed =~= v0.shifted());
        out
    }
}

/// The lowest ID.
fn min_seq(keys: &Vec<u64>) -> (r: u64)
    requires
        keys@.len() > 0,
    ensures
        keys@.contains(r),
        forall|i: int| 0 <= i < keys@.len() ==> r <= #[trigger] keys@[i],
{
    let mut min: u64 = keys[0];
    let mut i: usize = 1;
    while i < keys.len()
        invariant
            1 <= i <= keys@.len(),
            keys@.contains(min),
            forall|j: int| 0 <= j < i ==> min <= #[trigger] keys@[j],
        decreases keys@.len() - i,
    {
        if min > keys[i] {
            min = keys[i];
        }
        i += 1;
    }
    min
}

/// Batches that have been emptied.
pub open spec fn emptied<T, G>(n: nat) -> Seq<Batch<T, G>> {
    Seq::new(n, |i: int| Map::empty())
}

proof fn lemma_batches_push<C, T: ClientTaskState<C>, G>(
    bs: Seq<Batch<T, G>>,
    out: Seq<T>,
    b: Batch<T, G>,
    failed: Seq<T>,
    e: RpcIntErr,
)
    requires
        batches_failed::<C, T, G>(bs, out, e),
        batch_failed::<C, T, G>(b, failed, e),
    ensures
        batches_failed::<C, T, G>(bs.push(b), out + failed, e),
{
    let all = out + failed;
    let n = out.len() as int;
    assert(bs.push(b).drop_last() =~= bs);
    assert(all.subrange(0, n) =~= out);
    assert(all.subrange(n, all.len() as int) =~= failed);
    assert(batch_failed::<C, T, G>(
        bs.push(b).last(),
        all.subrange(n, all.len() as int),
        e,
    ));
}

/// How many seconds pass in the course of `events`.
pub open spec fn seconds<T, G>(events: Seq<TimerEvent<T, G>>) -> nat
    decreases events.len(),
{
    if events.len() == 0 {
        0
    } else {
        seconds(events.drop_last()) + if events.last() is Second {
            1nat
        } else {
            0nat
        }
    }
}

/// Whether `events` take a timer from the first of `states` to the last, one after another.
pub open spec fn history<C, T: ClientTaskState<C>, G>(
    states: Seq<TimerSpec<T, G>>,
    events: Seq<TimerEvent<T, G>>,
) -> bool {
    &&& states.len() == events.len() + 1
    &&& forall|i: int|
        #![trigger events[i]]
        0 <= i < events.len() ==> states[i].leads::<C>(events[i], states[i + 1])
}

/// Whether each task is registered with a higher ID than the one before.
pub open spec fn in_order<C, T: ClientTaskState<C>, G>(
    states: Seq<TimerSpec<T, G>>,
    events: Seq<TimerEvent<T, G>>,
) -> bool {
    forall|i: int|
        #![trigger events[i]]
        0 <= i < events.len() ==> (events[i] matches TimerEvent::Registered(item)
            ==> item.task->0.common().seq > states[i].processed_seq)
}

/// A task that gets no response times out after as many seconds as it may wait, whatever else is
/// registered and taken meanwhile: it is kept for that many seconds, is among those that end with
/// `Timeout` in the next one and in no other, and waits no longer from then on.
pub proof fn lemma_timeout<C, T: ClientTaskState<C>, G>(
    states: Seq<TimerSpec<T, G>>,
    events: Seq<TimerEvent<T, G>>,
    seq: u64,
)
    requires
        history::<C, T, G>(states, events),
        states[0].delayed.len() <= states[0].timeout,
        states[0].sent.contains_key(seq),
        forall|j: int|
            0 <= j < states[0].delayed.len() ==> !(#[trigger] states[0].delayed[j]).contains_key(
                seq,
            ),
        forall|i: int|
            #![trigger events[i]]
            0 <= i < events.len() ==> events[i].spares::<C>(seq),
    ensures
        ({
            let n = seconds(events);
            let v = states.last();
            let item = states[0].sent[seq];
            &&& v.timeout == states[0].timeout
            &&& v.delayed.len() <= v.timeout
            &&& n <= v.timeout ==> v.holds(seq, item)
            &&& v.expiring().contains_key(seq) <==> n == v.timeout
            &&& n == v.timeout ==> v.expiring()[seq] == item
            &&& n > v.timeout ==> v.absent(seq)
        }),
{
    lemma_position::<C, T, G>(states, events, seq);
    let n = seconds(events) as int;
    let v = states.last();
    let t = v.timeout as int;
    assert(v.batches().len() == v.delayed.len() + 1);
    assert(v.batches()[0] == v.sent);
    assert forall|j: int| 0 <= j < v.delayed.len() implies v.delayed[j] == #[trigger] v.batches()[j
        + 1] by {}
    if n > t {
        assert forall|j: int| 0 <= j < v.delayed.len() implies !(
        #[trigger] v.delayed[j]).contains_key(seq) by {
            assert(v.delayed[j] == v.batches()[j + 1]);
        }
    }
    if v.delayed.len() == t {
        assert(v.expiring() == v.batches()[t]);
    }
}

/// Where a task waits that is left alone.
proof fn lemma_position<C, T: ClientTaskState<C>, G>(
    states: Seq<TimerSpec<T, G>>,
    events: Seq<TimerEvent<T, G>>,
    seq: u64,
)
    requires
        history::<C, T, G>(states, events),
        states[0].delayed.len() <= states[0].timeout,
        states[0].sent.contains_key(seq),
        forall|j: int|
            0 <= j < states[0].delayed.len() ==> !(#[trigger] states[0].delayed[j]).contains_key(
                seq,
            ),
        forall|i: int|
            #![trigger events[i]]
            0 <= i < events.len() ==> events[i].spares::<C>(seq),
    ensures
        ({
            let n = seconds(events);
            let v = states.last();
            &&& v.timeout == states[0].timeout
            &&& v.delayed.len() <= v.timeout
            &&& n <= v.timeout ==> n < v.batches().len() && v.batches()[n as int].contains_key(seq)
                && v.batches()[n as int][seq] == states[0].sent[seq]
            &&& forall|j: int|
                0 <= j < v.batches().len() && j != n ==> !(
                #[trigger] v.batches()[j]).contains_key(seq)
        }),
    decreases events.len(),
{
    let v = states.last();
    if events.len() == 0 {
        assert forall|j: int| 0 <= j < v.batches().len() && j != 0 implies !(
        #[trigger] v.batches()[j]).contains_key(seq) by {
            assert(v.batches()[j] == v.delayed[j - 1]);
        }
    } else {
        let es = events.drop_last();
        let vs = states.drop_last();
        assert forall|i: int| #![trigger es[i]] 0 <= i < es.len() implies vs[i].leads::<C>(
            es[i],
            vs[i + 1],
        ) && es[i].spares::<C>(seq) by {
            assert(es[i] == events[i]);
        }
        lemma_position::<C, T, G>(vs, es, seq);
        let e = events[events.len() - 1];
        let u = vs.last();
        assert(u.leads::<C>(e, v));
        assert(e.spares::<C>(seq));
        let n = seconds(es) as int;
        lemma_batches_step::<C, T, G>(u, e, v, seq);
        match e {
            TimerEvent::Second => {
                assert forall|j: int| 0 <= j < v.batches().len() && j != n + 1 implies !(
                #[trigger] v.batches()[j]).contains_key(seq) by {
                    if j > 0 {
                        assert(v.batches()[j] == u.batches()[j - 1]);
                    }
                }
                if n + 1 <= v.timeout {
                    assert(v.batches()[n + 1] == u.batches()[n]);
                }
            },
            _ => {
                assert forall|j: int| 0 <= j < v.batches().len() && j != n implies !(
                #[trigger] v.batches()[j]).contains_key(seq) by {
                    assert(!u.batches()[j].contains_key(seq));
                }
                if n <= v.timeout {
                    assert(u.batches()[n].contains_key(seq));
                }
            },
        }
    }
}

/// What an event that leaves the task under `seq` alone does to the batches.
proof fn lemma_batches_step<C, T: ClientTaskState<C>, G>(
    u: TimerSpec<T, G>,
    e: TimerEvent<T, G>,
    v: TimerSpec<T, G>,
    seq: u64,
)
    requires
        u.leads::<C>(e, v),
        e.spares::<C>(seq),
        u.delayed.len() <= u.timeout,
    ensures
        v.timeout == u.timeout,
        v.delayed.len() <= v.timeout,
        e is Second ==> {
            &&& v.batches()[0] == Map::<u64, ClientTaskItem<T, G>>::empty()
            &&& v.batches().len() == if u.batches().len() <= u.timeout {
                u.batches().len() + 1
            } else {
                u.batches().len()
            }
            &&& forall|j: int|
                0 < j < v.batches().len() ==> #[trigger] v.batches()[j] == u.batches()[j - 1]
        },
        !(e is Second) ==> {
            &&& v.batches().len() == u.batches().len()
            &&& forall|j: int|
                #![trigger v.batches()[j]]
                #![trigger u.batches()[j]]
                0 <= j < v.batches().len() ==> v.batches()[j].contains_key(seq)
                    == u.batches()[j].contains_key(seq) && (u.batches()[j].contains_key(seq)
                    ==> v.batches()[j][seq] == u.batches()[j][seq])
        },
{
    match e {
        TimerEvent::Second => {
            assert forall|j: int| 0 < j < v.batches().len() implies #[trigger] v.batches()[j]
                == u.batches()[j - 1] by {
                assert(v.batches()[j] == v.delayed[j - 1]);
                assert(v.delayed == u.shifted());
            }
        },
        _ => {
            assert forall|j: int|
                #![trigger v.batches()[j]]
                #![trigger u.batches()[j]]
                0 <= j < v.batches().len() implies v.batches()[j].contains_key(seq)
                == u.batches()[j].contains_key(seq) && (u.batches()[j].contains_key(seq)
                ==> v.batches()[j][seq] == u.batches()[j][seq]) by {
                if j > 0 {
                    assert(v.batches()[j] == v.delayed[j - 1]);
                    assert(u.batches()[j] == u.delayed[j - 1]);
                }
            }
        },
    }
}

/// A task that ends with others is handed on exactly once: one of those that are handed on is the
/// task with its error, and no other has its ID.
pub proof fn lemma_failed_once<C, T: ClientTaskState<C>, G>(
    b: Batch<T, G>,
    out: Seq<T>,
    e: RpcIntErr,
    seq: u64,
)
    requires
        batch_ok::<C, T, G>(b),
        batch_failed::<C, T, G>(b, out, e),
        b.contains_key(seq),
    ensures
        exists|i: int|
            #![trigger out[i]]
            0 <= i < out.len() && rpc_failed::<C, T>(b[seq].task->0, out[i], e) && forall|j: int|
                0 <= j < out.len() && j != i ==> (#[trigger] out[j]).common().seq != seq,
{
    let keys = choose|keys: Seq<u64>| #[trigger] batch_failed_as::<C, T, G>(b, keys, out, e);
    assert(keys.to_set().contains(seq));
    let i = choose|i: int| 0 <= i < keys.len() && keys[i] == seq;
    assert(rpc_failed::<C, T>(b[seq].task->0, out[i], e));
    assert forall|j: int| 0 <= j < out.len() && j != i implies (#[trigger] out[j]).common().seq
        != seq by {
        assert(rpc_failed::<C, T>(b[keys[j]].task->0, out[j], e));
        assert(keys.to_set().contains(keys[j]));
        assert(b.contains_key(keys[j]));
    }
}

/// The IDs of the waiting tasks stay in order, whatever happens, where tasks are registered with
/// ever higher IDs.
pub proof fn lemma_order_is_kept<C, T: ClientTaskState<C>, G>(
    u: TimerSpec<T, G>,
    e: TimerEvent<T, G>,
    v: TimerSpec<T, G>,
)
    requires
        u.ordered(),
        u.leads::<C>(e, v),
        e matches TimerEvent::Registered(item) ==> item.task->0.common().seq > u.processed_seq,
    ensures
        v.ordered(),
        u.processed_seq <= v.processed_seq,
{
    let us = u.batches();
    let vs = v.batches();
    match e {
        TimerEvent::Second => {
            assert forall|i: int, k: u64|
                0 <= i < vs.len() && #[trigger] vs[i].contains_key(k) implies i > 0 && vs[i]
                == us[i - 1] by {
                if i > 0 {
                    assert(vs[i] == v.delayed[i - 1]);
                    assert(v.delayed == u.shifted());
                }
            }
            let b = u.expiring();
            if !(b =~= Map::<u64, ClientTaskItem<T, G>>::empty()) {
                let m = v.min_delay_seq;
                let last = us.len() - 1;
                assert(b == us[last]);
                assert(us[last].contains_key(m));
                assert forall|i: int, k: u64|
                    0 <= i < vs.len() && #[trigger] vs[i].contains_key(k) implies m <= k by {
                    assert(us[i - 1].contains_key(k));
                    assert(i - 1 < last);
                }
            }
            assert forall|i: int, k: u64|
                0 <= i < vs.len() && #[trigger] vs[i].contains_key(k) implies v.min_delay_seq <= k
                <= v.processed_seq by {
                assert(us[i - 1].contains_key(k));
            }
            assert forall|i: int, j: int, a: u64, c: u64|
                0 <= i < j < vs.len() && #[trigger] vs[i].contains_key(a)
                    && #[trigger] vs[j].contains_key(c) implies c < a by {
                assert(us[i - 1].contains_key(a));
                assert(us[j - 1].contains_key(c));
            }
        },
        _ => {
            let fresh = match e {
                TimerEvent::Registered(item) => Some(item.task->0.common().seq),
                _ => None,
            };
            assert forall|i: int, k: u64|
                0 <= i < vs.len() && #[trigger] vs[i].contains_key(k) implies us[i].contains_key(k)
                || (i == 0 && fresh == Some(k)) by {
                if i > 0 {
                    assert(vs[i] == v.delayed[i - 1]);
                    assert(us[i] == u.delayed[i - 1]);
                }
            }
            assert(vs.len() == us.len());
            assert forall|i: int, k: u64|
                0 <= i < vs.len() && #[trigger] vs[i].contains_key(k) implies v.min_delay_seq <= k
                <= v.processed_seq by {
                assert(us[i].contains_key(k) || fresh == Some(k));
            }
            assert forall|i: int, j: int, a: u64, c: u64|
                0 <= i < j < vs.len() && #[trigger] vs[i].contains_key(a)
                    && #[trigger] vs[j].contains_key(c) implies c < a by {
                assert(us[j].contains_key(c));
                assert(us[i].contains_key(a) || fresh == Some(a));
            }
        },
    }
}

proof fn lemma_order_at_end<C, T: ClientTaskState<C>, G>(
    states: Seq<TimerSpec<T, G>>,
    events: Seq<TimerEvent<T, G>>,
)
    requires
        history::<C, T, G>(states, events),
        in_order::<C, T, G>(states, events),
        states[0].ordered(),
    ensures
        states.last().ordered(),
        states[0].processed_seq <= states.last().processed_seq,
    decreases events.len(),
{
    if events.len() > 0 {
        let es = events.drop_last();
        let vs = states.drop_last();
        let last = events[events.len() - 1];
        assert forall|i: int| #![trigger es[i]] 0 <= i < es.len() implies vs[i].leads::<C>(
            es[i],
            vs[i + 1],
        ) && (es[i] matches TimerEvent::Registered(item) ==> item.task->0.common().seq
            > vs[i].processed_seq) by {
            assert(es[i] == events[i]);
        }
        lemma_order_at_end::<C, T, G>(vs, es);
        lemma_order_is_kept::<C, T, G>(vs.last(), last, states.last());
    }
}

/// A task that timed out is never found again, where tasks are registered with ever higher IDs.
pub proof fn lemma_timed_out_is_gone<C, T: ClientTaskState<C>, G>(
    states: Seq<TimerSpec<T, G>>,
    events: Seq<TimerEvent<T, G>>,
    seq: u64,
    r: TakeTask<T, G>,
    next: TimerSpec<T, G>,
)
    requires
        history::<C, T, G>(states, events),
        in_order::<C, T, G>(states, events),
        states[0].ordered(),
        states[0].delayed.len() <= states[0].timeout,
        states[0].sent.contains_key(seq),
        forall|i: int|
            #![trigger events[i]]
            0 <= i < events.len() ==> events[i].spares::<C>(seq),
        seconds(events) > states[0].timeout,
        states.last().taken(seq, r, next),
    ensures
        r is Gone,
        next == states.last(),
{
    let u = states[0];
    assert(u.batches()[0].contains_key(seq));
    assert forall|j: int| 0 <= j < u.delayed.len() implies !(#[trigger] u.delayed[j]).contains_key(
        seq,
    ) by {
        assert(u.batches()[j + 1] == u.delayed[j]);
        if u.delayed[j].contains_key(seq) {
            assert(u.batches()[j + 1].contains_key(seq));
        }
    }
    lemma_timeout::<C, T, G>(states, events, seq);
    lemma_order_at_end::<C, T, G>(states, events);
}

/// Each task that waits is found under its ID, and no other is touched, where the IDs are in
/// order.
pub proof fn lemma_waiting_task_is_found<T, G>(
    v: TimerSpec<T, G>,
    seq: u64,
    item: ClientTaskItem<T, G>,
    r: TakeTask<T, G>,
    next: TimerSpec<T, G>,
)
    requires
        v.ordered(),
        v.holds(seq, item),
        v.taken(seq, r, next),
    ensures
        r == TakeTask::Found(item),
        next.absent(seq),
        forall|k: u64, x: ClientTaskItem<T, G>| #[trigger]
            next.holds(k, x) <==> k != seq && v.holds(k, x),
{
    let bs = v.batches();
    let ns = next.batches();
    let w = choose|i: int|
        #![trigger bs[i]]
        0 <= i < bs.len() && bs[i].contains_key(seq) && bs[i][seq] == item;
    assert(bs[w].contains_key(seq));
    assert forall|i: int| 0 <= i < bs.len() && i != w implies !(#[trigger] bs[i]).contains_key(
        seq,
    ) by {
        if bs[i].contains_key(seq) {
            if i < w {
                assert(bs[i].contains_key(seq) && bs[w].contains_key(seq));
            }
        }
    }
    assert forall|j: int| 0 <= j < v.delayed.len() implies #[trigger] v.delayed[j] == bs[j + 1] by {}
    if w == 0 {
        assert(bs[0] == v.sent);
    } else {
        assert(!bs[0].contains_key(seq));
        assert(v.delayed[w - 1] == bs[w]);
        assert(!v.absent(seq));
        let i = choose|i: int| #[trigger]
            first_with(v.delayed, seq, i) && r == TakeTask::Found(v.delayed[i][seq]) && next == (
            TimerSpec { delayed: v.delayed.update(i, v.delayed[i].remove(seq)), ..v });
        assert(bs[i + 1].contains_key(seq));
        assert(i == w - 1);
    }
    assert(ns =~= bs.update(w, bs[w].remove(seq)));
    assert forall|j: int| 0 <= j < next.delayed.len() implies !(
    #[trigger] next.delayed[j]).contains_key(seq) by {
        assert(next.delayed[j] == ns[j + 1]);
        assert(!bs[j + 1].contains_key(seq) || j + 1 == w);
    }
    assert(next.sent == ns[0]);
    assert forall|k: u64, x: ClientTaskItem<T, G>| #[trigger] next.holds(k, x) implies k != seq
        && v.holds(k, x) by {
        let i = choose|i: int|
            #![trigger ns[i]]
            0 <= i < ns.len() && ns[i].contains_key(k) && ns[i][k] == x;
        assert(!bs[i].contains_key(seq) || i == w);
        assert(bs[i].contains_key(k) && bs[i][k] == x);
    }
    assert forall|k: u64, x: ClientTaskItem<T, G>| k != seq && v.holds(k, x) implies
        #[trigger] next.holds(k, x) by {
        let i = choose|i: int|
            #![trigger bs[i]]
            0 <= i < bs.len() && bs[i].contains_key(k) && bs[i][k] == x;
        assert(ns[i].contains_key(k) && ns[i][k] == x);
    }
}

/// No task waits if and only if none is held under any ID, whether it was registered in the
/// current second or a past one; and a task that has just arrived waits.
pub proof fn lemma_idle<C, T: ClientTaskState<C>, G>(
    v: TimerSpec<T, G>,
    arrived: Seq<ClientTaskItem<T, G>>,
)
    ensures
        v.idle() <==> forall|seq: u64, item: ClientTaskItem<T, G>| !#[trigger] v.holds(seq, item),
        v.registered_all::<C>(arrived).idle() <==> v.idle() && arrived.len() == 0,
{
    let bs = v.batches();
    assert(bs[0] == v.sent);
    if v.idle() {
        assert forall|seq: u64, item: ClientTaskItem<T, G>| !#[trigger] v.holds(seq, item) by {
            assert forall|i: int| 0 <= i < bs.len() implies !(#[trigger] bs[i]).contains_key(
                seq,
            ) by {
                if i > 0 {
                    assert(bs[i] == v.delayed[i - 1]);
                }
            }
        }
    } else if !v.sent.is_empty() {
        let k = choose|k: u64| v.sent.contains_key(k);
        assert(exists|k: u64| v.sent.contains_key(k)) by {
            if forall|k: u64| !v.sent.contains_key(k) {
                assert(v.sent =~= Map::<u64, ClientTaskItem<T, G>>::empty());
            }
        }
        assert(bs[0].contains_key(k));
        assert(v.holds(k, v.sent[k]));
    } else {
        let i = choose|i: int| 0 <= i < v.delayed.len() && !(#[trigger] v.delayed[i]).is_empty();
        let b = v.delayed[i];
        assert(exists|k: u64| b.contains_key(k)) by {
            if forall|k: u64| !b.contains_key(k) {
                assert(b =~= Map::<u64, ClientTaskItem<T, G>>::empty());
            }
        }
        let k = choose|k: u64| b.contains_key(k);
        assert(bs[i + 1].contains_key(k));
        assert(v.holds(k, b[k]));
    }
    if arrived.len() > 0 {
        let u = v.registered_all::<C>(arrived);
        let k = arrived.last().task->0.common().seq;
        assert(u.sent.contains_key(k));
    }
}

} // verus!
