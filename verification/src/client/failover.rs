//! Failover between the pools of several servers.

use crate::client::task::{
    rpc_failed, ClientTask, ClientTaskAction, ClientTaskCommon, ClientTaskDecode, ClientTaskDone,
    ClientTaskEncode, ClientTaskState,
};
use crate::error::{EncodedErr, ErrSpec, RpcError, RpcIntErr};
use crate::proto::{ActionSpec, RpcAction};
use vstd::prelude::*;

verus! {

/// A task of a failover pool, with what is needed to try it again.
pub struct FailoverTask<T> {
    last_index: usize,
    cluster_ver: u64,
    inner: T,
    retry: usize,
    should_retry: bool,
}

impl<T> FailoverTask<T> {
    /// The task itself.
    pub closed spec fn task(&self) -> T {
        self.inner
    }

    /// Where it was sent last: the index of the pool, counted on over all pools.
    pub closed spec fn index(&self) -> usize {
        self.last_index
    }

    /// The version of the list of servers that the index belongs to.
    pub closed spec fn ver(&self) -> u64 {
        self.cluster_ver
    }

    /// How often it failed for want of a connection.
    pub closed spec fn failures(&self) -> usize {
        self.retry
    }

    /// Whether the last failure is one after which trying again makes sense.
    pub closed spec fn retryable(&self) -> bool {
        self.should_retry
    }

    /// Whether only the result of the task changed, if that.
    pub open spec fn same_place(&self, other: &Self) -> bool {
        &&& self.index() == other.index()
        &&& self.ver() == other.ver()
    }
}

/// Whether trying again elsewhere makes sense after this error: it came from the connection,
/// not from the answer of a server.
pub open spec fn connection_error(e: RpcIntErr) -> bool {
    e.rank() < RpcIntErr::Method.rank()
}

/// How often a task has failed for want of a connection, once it fails with `e`.
pub open spec fn next_failures(failures: usize, e: RpcIntErr) -> usize {
    if connection_error(e) && failures < usize::MAX {
        (failures + 1) as usize
    } else {
        failures
    }
}

/// Whether a task is tried again, given how often it has failed for want of a connection and
/// whether it just did.
pub open spec fn tried_again(state: (usize, bool), limit: usize) -> bool {
    state.1 && state.0 <= limit
}

impl<T: ClientTaskAction> ClientTaskAction for FailoverTask<T> {
    open spec fn action(&self) -> ActionSpec {
        self.task().action()
    }

    fn get_action<'a>(&'a self) -> (r: RpcAction<'a>) {
        self.inner.get_action()
    }
}

impl<C, T: ClientTaskEncode<C>> ClientTaskEncode<C> for FailoverTask<T> {
    open spec fn req_msg(&self, codec: &C) -> Option<Seq<u8>> {
        self.task().req_msg(codec)
    }

    open spec fn req_blob(&self) -> Option<Seq<u8>> {
        self.task().req_blob()
    }

    fn encode_req(&self, codec: &C, buf: &mut Vec<u8>) -> (r: Result<usize, ()>) {
        self.inner.encode_req(codec, buf)
    }

    fn get_req_blob(&self) -> (r: Option<&[u8]>) {
        self.inner.get_req_blob()
    }
}

impl<C, T: ClientTaskState<C>> ClientTaskState<C> for FailoverTask<T> {
    type Err = T::Err;

    type Resp = T::Resp;

    type Way = T::Way;

    open spec fn common(&self) -> ClientTaskCommon {
        self.task().common()
    }

    open spec fn result(&self) -> Option<Result<(), RpcError<T::Err>>> {
        self.task().result()
    }

    open spec fn resp(&self) -> Option<T::Resp> {
        self.task().resp()
    }

    open spec fn resp_blob(&self) -> Option<Seq<u8>> {
        self.task().resp_blob()
    }

    open spec fn takes_blob(&self) -> bool {
        self.task().takes_blob()
    }

    open spec fn way(&self) -> T::Way {
        self.task().way()
    }
}

impl<C, T: ClientTaskDecode<C>> ClientTaskDecode<C> for FailoverTask<T> {
    open spec fn decoded_resp(codec: &C, buf: Seq<u8>) -> Option<T::Resp> {
        T::decoded_resp(codec, buf)
    }

    open spec fn only_blob_differs(a: Self, b: Self) -> bool {
        &&& T::only_blob_differs(a.task(), b.task())
        &&& b.retryable() == a.retryable()
        &&& b.failures() == a.failures()
        &&& b.same_place(&a)
    }

    fn decode_resp(&mut self, codec: &C, buf: &[u8]) -> (r: Result<(), ()>)
        ensures
            final(self).retryable() == old(self).retryable(),
            final(self).failures() == old(self).failures(),
            final(self).same_place(old(self)),
    {
        self.inner.decode_resp(codec, buf)
    }

    fn reserve_resp_blob(&mut self, size: i32) -> (r: Option<&mut [u8]>) {
        self.inner.reserve_resp_blob(size)
    }
}

impl<C, T: ClientTaskDone<C>> ClientTaskDone<C> for FailoverTask<T> {
    open spec fn custom_error(codec: &C, e: ErrSpec) -> RpcError<T::Err> {
        T::custom_error(codec, e)
    }

    fn set_custom_error(&mut self, codec: &C, e: EncodedErr)
        ensures
            !final(self).retryable(),
            final(self).failures() == old(self).failures(),
            final(self).same_place(old(self)),
    {
        self.should_retry = false;
        self.inner.set_custom_error(codec, e);
    }

    fn set_rpc_error(&mut self, e: RpcIntErr)
        ensures
            rpc_failed::<C, T>(old(self).task(), final(self).task(), e),
            final(self).retryable() == connection_error(e),
            final(self).failures() == next_failures(old(self).failures(), e),
            final(self).same_place(old(self)),
    {
        if e < RpcIntErr::Method {
            self.should_retry = true;
            if self.retry < usize::MAX {
                self.retry += 1;
            }
        } else {
            self.should_retry = false;
        }
        self.inner.set_rpc_error(e);
    }

    fn set_ok(&mut self)
        ensures
            final(self).retryable() == old(self).retryable(),
            final(self).failures() == old(self).failures(),
            final(self).same_place(old(self)),
    {
        self.inner.set_ok();
    }

    type Receipt = T::Receipt;

    open spec fn delivered(&self, r: T::Receipt) -> bool {
        self.task().delivered(r)
    }

    fn done(self) -> (r: T::Receipt) {
        self.inner.done()
    }
}

impl<C, T: ClientTask<C>> ClientTask<C> for FailoverTask<T> {
    fn seq(&self) -> (r: u64) {
        self.inner.seq()
    }

    fn set_seq(&mut self, seq: u64)
        ensures
            final(self).retryable() == old(self).retryable(),
            final(self).failures() == old(self).failures(),
            final(self).same_place(old(self)),
    {
        self.inner.set_seq(seq);
    }
}

/// A pool of connections to one of the servers.
pub struct PoolRef<P> {
    pub addr: String,
    pub pool: P,
}

/// A list of servers.
pub struct ClusterConfig<P> {
    pub pools: Vec<PoolRef<P>>,
    pub ver: u64,
}

/// Where to start looking for a pool: after the one that was tried last, or at the next one
/// in turn, or at the first one.
pub open spec fn select_seed(round_robin: bool, counter: usize, last_index: Option<usize>) -> int {
    match last_index {
        Some(i) => i + 1,
        None => if round_robin {
            counter as int
        } else {
            0
        },
    }
}

/// Whether `i` is the first index from `seed` on, counted on over `healthy`, at which there is
/// a healthy pool.
pub open spec fn first_healthy(healthy: Seq<bool>, seed: int, i: int) -> bool {
    let n = healthy.len() as int;
    &&& seed <= i < seed + n
    &&& healthy[i % n]
    &&& forall|j: int| seed <= j < i ==> !#[trigger] healthy[j % n]
}

/// Whether no pool is healthy.
pub open spec fn none_healthy(healthy: Seq<bool>) -> bool {
    forall|k: int| 0 <= k < healthy.len() ==> !#[trigger] healthy[k]
}

/// Finds the next healthy pool, from `seed` on and all the way round.
fn find_healthy(healthy: &Vec<bool>, seed: usize) -> (r: Option<usize>)
    requires
        healthy@.len() > 0,
        seed + healthy@.len() <= usize::MAX,
    ensures
        match r {
            Some(i) => first_healthy(healthy@, seed as int, i as int),
            None => none_healthy(healthy@),
        },
{
    let n: usize = healthy.len();
    let mut i: usize = seed;
    while i < seed + n
        invariant
            n == healthy@.len() > 0,
            seed + n <= usize::MAX,
            seed <= i <= seed + n,
            forall|j: int| seed <= j < i ==> !#[trigger] healthy@[j % (n as int)],
        decreases seed + n - i,
    {
        if healthy[i % n] {
            return Some(i);
        }
        i += 1;
    }
    assert forall|k: int| 0 <= k < healthy@.len() implies !#[trigger] healthy@[k] by {
        let j = lemma_turn(seed as int, n as int, k);
        assert(!healthy@[j % (n as int)]);
    }
    None
}

/// A full turn from `seed` on comes by every place.
pub proof fn lemma_turn(seed: int, n: int, k: int) -> (j: int)
    requires
        0 <= seed,
        0 <= k < n,
    ensures
        seed <= j < seed + n,
        j % n == k,
{
    let q = seed / n;
    let r = seed % n;
    vstd::arithmetic::div_mod::lemma_fundamental_div_mod(seed, n);
    vstd::arithmetic::div_mod::lemma_mod_bound(seed, n);
    assert(q * n == n * q && (q + 1) * n == n * q + n) by (nonlinear_arith);
    let j = if k >= r {
        seed + k - r
    } else {
        seed + k - r + n
    };
    if k >= r {
        vstd::arithmetic::div_mod::lemma_fundamental_div_mod_converse(j, n, q, k);
    } else {
        vstd::arithmetic::div_mod::lemma_fundamental_div_mod_converse(j, n, q + 1, k);
    }
    j
}

impl<P> ClusterConfig<P> {
    /// Finds a pool to send a task to, given which pools are healthy: the first healthy one
    /// after the one that was tried last, or the next one in turn, or the first one. The index
    /// that is returned counts on over all pools.
    pub fn select(
        &self,
        healthy: &Vec<bool>,
        round_robin: bool,
        rr_counter: &mut usize,
        last_index: Option<usize>,
    ) -> (r: Option<usize>)
        requires
            healthy@.len() == self.pools@.len(),
            select_seed(round_robin, *old(rr_counter), last_index) + self.pools@.len()
                <= usize::MAX,
        ensures
            match r {
                Some(i) => first_healthy(
                    healthy@,
                    select_seed(round_robin, *old(rr_counter), last_index),
                    i as int,
                ),
                None => none_healthy(healthy@),
            },
            *final(rr_counter) == if self.pools@.len() > 0 && last_index is None && round_robin {
                old(rr_counter).wrapping_add(1)
            } else {
                *old(rr_counter)
            },
    {
        if self.pools.len() == 0 {
            return None;
        }
        let seed: usize = match last_index {
            Some(index) => index + 1,
            None => {
                if round_robin {
                    let c: usize = *rr_counter;
                    *rr_counter = c.wrapping_add(1);
                    c
                } else {
                    0
                }
            },
        };
        find_healthy(healthy, seed)
    }
}

/// What a failover pool holds.
pub struct FailoverPool<P> {
    cluster: Option<ClusterConfig<P>>,
    round_robin: bool,
    retry_limit: usize,
    ver: u64,
    rr_counter: usize,
    pool_channel_size: usize,
}

/// What to do with a task that is to be sent.
pub enum SendReq<T> {
    /// Hand it to this pool.
    Send { pool: usize, task: FailoverTask<T> },
    /// There is no pool for it: hand it back.
    Done(T),
}

/// What to do with a task that failed.
pub enum ErrorHandle<T> {
    /// Try it again.
    Retry(FailoverTask<T>),
    /// Hand it back.
    Done(T),
}

impl<P> FailoverPool<P> {
    /// The servers, or `None` once the pool is closed.
    pub closed spec fn servers(&self) -> Option<ClusterConfig<P>> {
        self.cluster
    }

    pub closed spec fn in_turn(&self) -> bool {
        self.round_robin
    }

    pub closed spec fn limit(&self) -> usize {
        self.retry_limit
    }

    /// The version of the newest list of servers.
    pub closed spec fn newest(&self) -> u64 {
        self.ver
    }

    /// Whose turn it is.
    pub closed spec fn counter(&self) -> usize {
        self.rr_counter
    }

    pub closed spec fn channel_size(&self) -> usize {
        self.pool_channel_size
    }

    /// The number of servers.
    pub open spec fn size(&self) -> nat {
        match self.servers() {
            Some(c) => c.pools@.len(),
            None => 0,
        }
    }

    /// The list of servers is none newer than the newest.
    pub open spec fn wf(&self) -> bool {
        self.servers() matches Some(c) ==> c.ver <= self.newest()
    }

    /// Whether everything but the counter is the same.
    pub open spec fn same_but_counter(&self, other: &Self) -> bool {
        &&& self.servers() == other.servers()
        &&& self.in_turn() == other.in_turn()
        &&& self.limit() == other.limit()
        &&& self.newest() == other.newest()
        &&& self.channel_size() == other.channel_size()
    }

    /// A failover pool over the servers at `addrs`, for each of which `new_pool` makes a pool. A
    /// task that finds no connection is tried again up to `retry_limit` times.
    pub fn new<F: Fn(&String) -> P>(
        addrs: Vec<String>,
        new_pool: F,
        round_robin: bool,
        retry_limit: usize,
        pool_channel_size: usize,
    ) -> (r: FailoverPool<P>)
        requires
            forall|a: &String| call_requires(new_pool, (a,)),
        ensures
            r.wf(),
            r.servers() matches Some(c) && c.ver == 0 && updated(
                Seq::empty(),
                addrs@,
                new_pool,
                c.pools@,
            ),
            r.in_turn() == round_robin,
            r.limit() == retry_limit,
            r.newest() == 1,
            r.counter() == 0,
            r.channel_size() == pool_channel_size,
    {
        let mut pools: Vec<PoolRef<P>> = Vec::new();
        let mut i: usize = 0;
        while i < addrs.len()
            invariant
                i <= addrs@.len(),
                forall|a: &String| call_requires(new_pool, (a,)),
                updated_to(Seq::empty(), addrs@, new_pool, pools@, i as int),
            decreases addrs@.len() - i,
        {
            let ghost made = pools@;
            let pool: P = new_pool(&addrs[i]);
            pools.push(PoolRef { addr: addrs[i].as_str().to_owned(), pool });
            proof {
                assert forall|k: int| 0 <= k < i + 1 implies #[trigger] updated_at(
                    Seq::empty(),
                    addrs@,
                    new_pool,
                    pools@,
                    k,
                ) by {
                    if k < i {
                        assert(updated_at(Seq::empty(), addrs@, new_pool, made, k));
                    }
                }
            }
            i += 1;
        }
        FailoverPool {
            cluster: Some(ClusterConfig { pools, ver: 0 }),
            round_robin,
            retry_limit,
            ver: 1,
            rr_counter: 0,
            pool_channel_size,
        }
    }

    /// How many tasks may wait in the channel of each pool.
    pub fn pool_channel_size(&self) -> (r: usize)
        ensures
            r == self.channel_size(),
    {
        self.pool_channel_size
    }

    /// The pools, in order.
    pub fn pools(&self) -> (r: Option<&Vec<PoolRef<P>>>)
        ensures
            match self.servers() {
                Some(c) => r == Some(&c.pools),
                None => r is None,
            },
    {
        match &self.cluster {
            Some(c) => Some(&c.pools),
            None => None,
        }
    }

    /// Lets go of all servers, and returns their pools.
    pub fn close(&mut self) -> (r: Vec<PoolRef<P>>)
        ensures
            r@ == old(self).pool_seq(),
            final(self).servers() is None,
            final(self).wf(),
            final(self).in_turn() == old(self).in_turn(),
            final(self).limit() == old(self).limit(),
            final(self).newest() == old(self).newest(),
            final(self).channel_size() == old(self).channel_size(),
            final(self).counter() == old(self).counter(),
    {
        match self.cluster.take() {
            Some(c) => c.pools,
            None => Vec::new(),
        }
    }

    /// Whether the next selection in turn can be counted on over all pools.
    pub open spec fn can_select(&self) -> bool {
        self.in_turn() ==> self.counter() + self.size() <= usize::MAX
    }

    /// Whether the next selection in turn can be counted on over all pools.
    pub fn can_send(&self) -> (r: bool)
        ensures
            r == self.can_select(),
    {
        let size: usize = match &self.cluster {
            Some(c) => c.pools.len(),
            None => 0,
        };
        !self.round_robin || self.rr_counter <= usize::MAX - size
    }

    /// Whether the selection for a task that is tried again can be counted on over all pools.
    pub open spec fn can_select_again<T>(&self, task: FailoverTask<T>) -> bool {
        self.servers() is Some ==> select_seed(
            self.in_turn(),
            self.counter(),
            self.resume(task),
        ) + self.size() <= usize::MAX
    }

    /// Whether the selection for a task that is tried again can be counted on over all pools.
    pub fn can_retry<T>(&self, task: &FailoverTask<T>) -> (r: bool)
        ensures
            r == self.can_select_again(*task),
    {
        match &self.cluster {
            Some(c) => {
                let size: usize = c.pools.len();
                if c.ver == task.cluster_ver {
                    task.last_index < usize::MAX && task.last_index + 1 <= usize::MAX - size
                } else {
                    !self.round_robin || self.rr_counter <= usize::MAX - size
                }
            },
            None => true,
        }
    }

    /// The version of the newest list of servers.
    pub fn version(&self) -> (r: u64)
        ensures
            r == self.newest(),
    {
        self.ver
    }

    /// Sends a task for the first time, given which pools are healthy. Where there is no pool
    /// for it, it fails with `Unreachable`.
    pub fn send_req<C, T: ClientTask<C>>(&mut self, task: T, healthy: &Vec<bool>) -> (r: SendReq<T>)
        requires
            healthy@.len() == old(self).size(),
            old(self).wf(),
            old(self).can_select(),
        ensures
            final(self).wf(),
            final(self).same_but_counter(old(self)),
            final(self).counter() == if old(self).size() > 0 && old(self).in_turn() {
                old(self).counter().wrapping_add(1)
            } else {
                old(self).counter()
            },
            match r {
                SendReq::Send { pool, task: t } => {
                    &&& old(self).servers() matches Some(c)
                    &&& first_healthy(
                        healthy@,
                        select_seed(old(self).in_turn(), old(self).counter(), None),
                        t.index() as int,
                    )
                    &&& pool == t.index() as int % healthy@.len() as int
                    &&& t.task() == task
                    &&& t.ver() == c.ver
                    &&& t.failures() == 0
                    &&& !t.retryable()
                },
                SendReq::Done(t) => {
                    &&& none_healthy(healthy@)
                    &&& rpc_failed::<C, T>(task, t, RpcIntErr::Unreachable)
                },
            },
    {
        let count: usize = healthy.len();
        if let Some(cluster) = &self.cluster {
            if let Some(index) = cluster.select(
                healthy,
                self.round_robin,
                &mut self.rr_counter,
                None,
            ) {
                let pool: usize = index % count;
                let task = FailoverTask {
                    last_index: index,
                    cluster_ver: cluster.ver,
                    inner: task,
                    retry: 0,
                    should_retry: false,
                };
                return SendReq::Send { pool, task };
            }
        }
        let mut task = task;
        task.set_rpc_error(RpcIntErr::Unreachable);
        SendReq::Done(task)
    }

    /// Decides about a task that failed: it is tried again where that makes sense and it has
    /// not failed too often.
    pub fn error_handle<T>(&self, task: FailoverTask<T>) -> (r: ErrorHandle<T>)
        ensures
            r == if tried_again((task.failures(), task.retryable()), self.limit()) {
                ErrorHandle::Retry(task)
            } else {
                ErrorHandle::Done(task.task())
            },
    {
        if task.should_retry && task.retry <= self.retry_limit {
            ErrorHandle::Retry(task)
        } else {
            ErrorHandle::Done(task.inner)
        }
    }

    /// Tries a task again, given which pools are healthy: at the next pool, or from the start
    /// where the list of servers has changed. Where there is no pool for it, it goes back with
    /// the error that it had.
    pub fn retry<T>(&mut self, task: FailoverTask<T>, healthy: &Vec<bool>) -> (r: SendReq<T>)
        requires
            healthy@.len() == old(self).size(),
            old(self).wf(),
            old(self).can_select_again(task),
        ensures
            final(self).wf(),
            final(self).same_but_counter(old(self)),
            final(self).counter() == if old(self).size() > 0 && old(self).in_turn() && old(
                self,
            ).resume(task) is None {
                old(self).counter().wrapping_add(1)
            } else {
                old(self).counter()
            },
            match r {
                SendReq::Send { pool, task: t } => {
                    &&& old(self).servers() matches Some(c)
                    &&& first_healthy(
                        healthy@,
                        select_seed(old(self).in_turn(), old(self).counter(), old(self).resume(task)),
                        t.index() as int,
                    )
                    &&& pool == t.index() as int % healthy@.len() as int
                    &&& t.task() == task.task()
                    &&& t.ver() == c.ver
                    &&& t.failures() == task.failures()
                    &&& t.retryable() == task.retryable()
                },
                SendReq::Done(t) => none_healthy(healthy@) && t == task.task(),
            },
    {
        let mut task = task;
        if let Some(cluster) = &self.cluster {
            let last_index: Option<usize> = if cluster.ver == task.cluster_ver {
                Some(task.last_index)
            } else {
                task.cluster_ver = cluster.ver;
                None
            };
            if let Some(index) = cluster.select(
                healthy,
                self.round_robin,
                &mut self.rr_counter,
                last_index,
            ) {
                task.last_index = index;
                let pool: usize = index % healthy.len();
                return SendReq::Send { pool, task };
            }
        }
        SendReq::Done(task.inner)
    }

    /// After which pool to go on: the one that was tried last, if the list of servers is still
    /// the same.
    pub open spec fn resume<T>(&self, task: FailoverTask<T>) -> Option<usize> {
        if self.servers()->0.ver == task.ver() {
            Some(task.index())
        } else {
            None
        }
    }

    /// Which of the pools to keep for a new list of servers: for each address the index of the
    /// pool to keep, or `None` where a new pool is to be made.
    pub fn plan_update(&self, addrs: &Vec<String>) -> (r: Vec<Option<usize>>)
        ensures
            r@.len() == addrs@.len(),
            forall|i: int|
                0 <= i < addrs@.len() ==> pool_kept(
                    self.addrs(),
                    addrs_of(addrs@),
                    i,
                    #[trigger] r@[i],
                ),
    {
        let mut r: Vec<Option<usize>> = Vec::new();
        let mut i: usize = 0;
        while i < addrs.len()
            invariant
                i <= addrs@.len(),
                r@.len() == i,
                forall|k: int|
                    0 <= k < i ==> pool_kept(
                        self.addrs(),
                        addrs_of(addrs@),
                        k,
                        #[trigger] r@[k],
                    ),
            decreases addrs@.len() - i,
        {
            let keep = self.keep_for(addrs, i);
            r.push(keep);
            i += 1;
        }
        r
    }

    fn keep_for(&self, addrs: &Vec<String>, i: usize) -> (r: Option<usize>)
        requires
            i < addrs@.len(),
        ensures
            pool_kept(self.addrs(), addrs_of(addrs@), i as int, r),
    {
        let ghost olds = self.addrs();
        let ghost news = addrs_of(addrs@);
        let mut k: usize = 0;
        while k < i
            invariant
                k <= i < addrs@.len(),
                news == addrs_of(addrs@),
                forall|j: int| 0 <= j < k ==> #[trigger] news[j] != news[i as int],
            decreases i - k,
        {
            if addrs[k] == addrs[i] {
                // Each pool is kept once.
                assert(news[k as int] == news[i as int]);
                return None;
            }
            k += 1;
        }
        if let Some(cluster) = &self.cluster {
            // Of several pools with one address the last one is kept.
            let mut j: usize = cluster.pools.len();
            while j > 0
                invariant
                    i < addrs@.len(),
                    news == addrs_of(addrs@),
                    olds == self.addrs(),
                    self.cluster == Some(*cluster),
                    j <= cluster.pools@.len() == olds.len(),
                    forall|m: int| j <= m < olds.len() ==> #[trigger] olds[m] != news[i as int],
                    forall|m: int| 0 <= m < i ==> #[trigger] news[m] != news[i as int],
                decreases j,
            {
                j -= 1;
                if cluster.pools[j].addr == addrs[i] {
                    assert(olds[j as int] == news[i as int]);
                    return Some(j);
                }
                assert(olds[j as int] == cluster.pools@[j as int].addr@);
            }
        }
        None
    }

    /// The pools, in order.
    pub open spec fn pool_seq(&self) -> Seq<PoolRef<P>> {
        match self.servers() {
            Some(c) => c.pools@,
            None => Seq::empty(),
        }
    }

    /// The addresses of the servers.
    pub open spec fn addrs(&self) -> Seq<Seq<char>> {
        pool_addrs(self.pool_seq())
    }

    /// Replaces the list of servers: the pool of a server that stays is kept, and `new_pool` makes
    /// the others. Returns the pools that are let go. Tasks that are tried again then start from
    /// the first server, or from the one in turn.
    pub fn update_addrs<F: Fn(&String) -> P>(&mut self, addrs: Vec<String>, new_pool: F) -> (r: Vec<
        P,
    >)
        requires
            old(self).wf(),
            old(self).newest() < u64::MAX,
            forall|a: &String| call_requires(new_pool, (a,)),
        ensures
            final(self).wf(),
            final(self).newest() == old(self).newest() + 1,
            final(self).servers() matches Some(c) && c.ver == old(self).newest() + 1 && updated(
                old(self).pool_seq(),
                addrs@,
                new_pool,
                c.pools@,
            ),
            r@ == let_go(
                old(self).pool_seq(),
                addrs_of(addrs@),
                old(self).pool_seq().len() as int,
            ),
            final(self).in_turn() == old(self).in_turn(),
            final(self).limit() == old(self).limit(),
            final(self).channel_size() == old(self).channel_size(),
            final(self).counter() == old(self).counter(),
    {
        let plan = self.plan_update(&addrs);
        let ghost olds = self.pool_seq();
        let ghost oa = self.addrs();
        let ghost news = addrs_of(addrs@);
        let mut kept: Vec<Option<P>> = match self.cluster.take() {
            Some(c) => as_options(c.pools),
            None => Vec::new(),
        };
        let mut pools: Vec<PoolRef<P>> = Vec::new();
        let mut i: usize = 0;
        while i < addrs.len()
            invariant
                i <= addrs@.len() == plan@.len(),
                news == addrs_of(addrs@),
                oa == pool_addrs(olds),
                forall|k: int| 0 <= k < plan@.len() ==> pool_kept(oa, news, k, #[trigger] plan@[k]),
                forall|a: &String| call_requires(new_pool, (a,)),
                kept@.len() == olds.len(),
                forall|j: int|
                    0 <= j < olds.len() ==> #[trigger] kept@[j] == if kept_before(
                        oa,
                        news,
                        i as int,
                        j,
                    ) {
                        None
                    } else {
                        Some(olds[j].pool)
                    },
                updated_to(olds, addrs@, new_pool, pools@, i as int),
            decreases addrs@.len() - i,
        {
            let ghost before = kept@;
            let ghost made = pools@;
            let pool: P = match plan[i] {
                Some(j) => {
                    proof {
                        assert(pool_kept(oa, news, i as int, plan@[i as int]));
                        if kept_before(oa, news, i as int, j as int) {
                            let k = choose|k: int|
                                0 <= k < i && #[trigger] pool_kept(oa, news, k, Some(j));
                            assert(news[k] == news[i as int]);
                        }
                    }
                    let mut slot: Option<P> = None;
                    std::mem::swap(&mut slot, &mut kept[j]);
                    match slot {
                        Some(p) => p,
                        None => new_pool(&addrs[i]),
                    }
                },
                None => new_pool(&addrs[i]),
            };
            pools.push(PoolRef { addr: addrs[i].as_str().to_owned(), pool });
            proof {
                assert(kept.len() == olds.len());
                lemma_kept_step(oa, news, i as int, plan@[i as int]);
                assert forall|j: int| 0 <= j < olds.len() implies #[trigger] kept@[j]
                    == if kept_before(oa, news, i + 1, j) {
                    None
                } else {
                    Some(olds[j].pool)
                } by {
                    assert(before[j] == if kept_before(oa, news, i as int, j) {
                        None
                    } else {
                        Some(olds[j].pool)
                    });
                }
                assert forall|k: int| 0 <= k < i + 1 implies #[trigger] updated_at(
                    olds,
                    addrs@,
                    new_pool,
                    pools@,
                    k,
                ) by {
                    if k < i {
                        assert(updated_at(olds, addrs@, new_pool, made, k));
                        assert(pools@[k] == made[k]);
                    } else {
                        lemma_kept_is_one(oa, news, i as int, plan@[i as int]);
                    }
                }
            }
            i += 1;
        }
        self.ver = self.ver + 1;
        self.cluster = Some(ClusterConfig { pools, ver: self.ver });
        proof {
            lemma_let_go(olds, news, kept@, olds.len() as int);
            assert(kept@.subrange(0, olds.len() as int) =~= kept@);
        }
        left_over(kept)
    }
}

/// The addresses of pools.
pub open spec fn pool_addrs<P>(pools: Seq<PoolRef<P>>) -> Seq<Seq<char>> {
    pools.map_values(|p: PoolRef<P>| p.addr@)
}

/// Whether pool `k` of `pools` is the right one for address `k` of `addrs`, where the pools were
/// `olds`: it has this address, and is the one to keep, or one that `new_pool` made.
pub open spec fn updated_at<P, F: Fn(&String) -> P>(
    olds: Seq<PoolRef<P>>,
    addrs: Seq<String>,
    new_pool: F,
    pools: Seq<PoolRef<P>>,
    k: int,
) -> bool {
    &&& pools[k].addr@ == addrs[k]@
    &&& forall|j: usize| #[trigger]
        pool_kept(pool_addrs(olds), addrs_of(addrs), k, Some(j)) ==> pools[k].pool
            == olds[j as int].pool
    &&& pool_kept(pool_addrs(olds), addrs_of(addrs), k, None) ==> call_ensures(
        new_pool,
        (&addrs[k],),
        pools[k].pool,
    )
}

/// Whether `pools` are the right ones for the first `n` of `addrs`.
pub open spec fn updated_to<P, F: Fn(&String) -> P>(
    olds: Seq<PoolRef<P>>,
    addrs: Seq<String>,
    new_pool: F,
    pools: Seq<PoolRef<P>>,
    n: int,
) -> bool {
    &&& pools.len() == n
    &&& forall|k: int| 0 <= k < n ==> #[trigger] updated_at(olds, addrs, new_pool, pools, k)
}

/// Whether `pools` are the right ones for `addrs`, where the pools were `olds`.
pub open spec fn updated<P, F: Fn(&String) -> P>(
    olds: Seq<PoolRef<P>>,
    addrs: Seq<String>,
    new_pool: F,
    pools: Seq<PoolRef<P>>,
) -> bool {
    updated_to(olds, addrs, new_pool, pools, addrs.len() as int)
}

/// Whether pool `j` of those with the addresses `olds` is kept for one of the first `n` of `news`.
pub open spec fn kept_before(olds: Seq<Seq<char>>, news: Seq<Seq<char>>, n: int, j: int) -> bool {
    exists|k: int| 0 <= k < n && #[trigger] pool_kept(olds, news, k, Some(j as usize))
}

/// Those of the first `n` pools that are kept for none of `news`, in order.
pub open spec fn let_go<P>(olds: Seq<PoolRef<P>>, news: Seq<Seq<char>>, n: int) -> Seq<P>
    decreases n,
{
    if n <= 0 {
        Seq::empty()
    } else if kept_before(pool_addrs(olds), news, news.len() as int, n - 1) {
        let_go(olds, news, n - 1)
    } else {
        let_go(olds, news, n - 1).push(olds[n - 1].pool)
    }
}

/// What is there, in order.
spec fn somes<P>(s: Seq<Option<P>>) -> Seq<P>
    decreases s.len(),
{
    if s.len() == 0 {
        Seq::empty()
    } else {
        match s.last() {
            Some(p) => somes(s.drop_last()).push(p),
            None => somes(s.drop_last()),
        }
    }
}

fn as_options<P>(pools: Vec<PoolRef<P>>) -> (r: Vec<Option<P>>)
    ensures
        r@.len() == pools@.len(),
        forall|j: int| 0 <= j < r@.len() ==> #[trigger] r@[j] == Some(pools@[j].pool),
{
    let mut r: Vec<Option<P>> = Vec::new();
    for p in iter: pools
        invariant
            iter.seq() == pools@,
            r@.len() == iter.index(),
            forall|j: int| 0 <= j < r@.len() ==> #[trigger] r@[j] == Some(pools@[j].pool),
    {
        r.push(Some(p.pool));
    }
    r
}

fn left_over<P>(kept: Vec<Option<P>>) -> (r: Vec<P>)
    ensures
        r@ == somes(kept@),
{
    let mut r: Vec<P> = Vec::new();
    assert(kept@.subrange(0, 0) =~= Seq::<Option<P>>::empty());
    for p in iter: kept
        invariant
            iter.seq() == kept@,
            r@ == somes(kept@.subrange(0, iter.index())),
    {
        proof {
            let next = kept@.subrange(0, iter.index() + 1);
            assert(next.drop_last() =~= kept@.subrange(0, iter.index()));
            assert(next.last() == p);
        }
        if let Some(p) = p {
            r.push(p);
        }
    }
    assert(kept@.subrange(0, kept@.len() as int) =~= kept@);
    r
}

proof fn lemma_let_go<P>(olds: Seq<PoolRef<P>>, news: Seq<Seq<char>>, kept: Seq<Option<P>>, n: int)
    requires
        0 <= n <= olds.len() == kept.len(),
        forall|j: int|
            0 <= j < olds.len() ==> #[trigger] kept[j] == if kept_before(
                pool_addrs(olds),
                news,
                news.len() as int,
                j,
            ) {
                None
            } else {
                Some(olds[j].pool)
            },
    ensures
        somes(kept.subrange(0, n)) == let_go(olds, news, n),
    decreases n,
{
    if n > 0 {
        lemma_let_go(olds, news, kept, n - 1);
        let s = kept.subrange(0, n);
        assert(s.drop_last() =~= kept.subrange(0, n - 1));
        assert(s.last() == kept[n - 1]);
    }
}

/// At most one pool is kept for an address.
proof fn lemma_kept_is_one(
    olds: Seq<Seq<char>>,
    news: Seq<Seq<char>>,
    i: int,
    r: Option<usize>,
)
    requires
        0 <= i < news.len(),
        pool_kept(olds, news, i, r),
    ensures
        forall|x: Option<usize>| #[trigger] pool_kept(olds, news, i, x) ==> x == r,
{
    assert forall|x: Option<usize>| #[trigger] pool_kept(olds, news, i, x) implies x == r by {
        if let Some(a) = x {
            if let Some(b) = r {
                assert(olds[a as int] == olds[b as int]);
            } else {
                assert(olds[a as int] == news[i]);
            }
        } else if let Some(b) = r {
            assert(olds[b as int] == news[i]);
        }
    }
}

/// Which pools are kept once the next address is looked at.
proof fn lemma_kept_step(
    olds: Seq<Seq<char>>,
    news: Seq<Seq<char>>,
    i: int,
    r: Option<usize>,
)
    requires
        0 <= i < news.len(),
        olds.len() <= usize::MAX,
        pool_kept(olds, news, i, r),
    ensures
        forall|j: int|
            0 <= j < olds.len() ==> #[trigger] kept_before(olds, news, i + 1, j) == (kept_before(
                olds,
                news,
                i,
                j,
            ) || r == Some(j as usize)),
{
    lemma_kept_is_one(olds, news, i, r);
    assert forall|j: int| 0 <= j < olds.len() implies #[trigger] kept_before(olds, news, i + 1, j)
        == (kept_before(olds, news, i, j) || r == Some(j as usize)) by {
        if kept_before(olds, news, i + 1, j) {
            let k = choose|k: int|
                0 <= k < i + 1 && #[trigger] pool_kept(olds, news, k, Some(j as usize));
            assert(k == i || kept_before(olds, news, i, j));
        }
        if kept_before(olds, news, i, j) {
            let k = choose|k: int|
                0 <= k < i && #[trigger] pool_kept(olds, news, k, Some(j as usize));
            assert(0 <= k < i + 1);
        }
        if r == Some(j as usize) {
            assert(pool_kept(olds, news, i, Some(j as usize)));
        }
    }
}

/// A list of addresses.
pub open spec fn addrs_of(addrs: Seq<String>) -> Seq<Seq<char>> {
    addrs.map_values(|a: String| a@)
}

/// Whether `r` is the pool to keep for address `i` of `news`: the last one of `olds` with this
/// address, unless an earlier address of `news` has taken it.
pub open spec fn pool_kept(
    olds: Seq<Seq<char>>,
    news: Seq<Seq<char>>,
    i: int,
    r: Option<usize>,
) -> bool {
    let taken = exists|k: int| 0 <= k < i && #[trigger] news[k] == news[i];
    match r {
        Some(j) => {
            &&& !taken
            &&& j < olds.len()
            &&& olds[j as int] == news[i]
            &&& forall|m: int| j < m < olds.len() ==> #[trigger] olds[m] != news[i]
        },
        None => taken || forall|m: int| 0 <= m < olds.len() ==> #[trigger] olds[m] != news[i],
    }
}

/// No pool is kept twice.
pub proof fn lemma_pools_kept_once(
    olds: Seq<Seq<char>>,
    news: Seq<Seq<char>>,
    plan: Seq<Option<usize>>,
    a: int,
    b: int,
)
    requires
        plan.len() == news.len(),
        forall|i: int| 0 <= i < news.len() ==> pool_kept(olds, news, i, #[trigger] plan[i]),
        0 <= a < b < plan.len(),
        plan[a] is Some,
        plan[b] is Some,
    ensures
        plan[a] != plan[b],
{
    assert(pool_kept(olds, news, a, plan[a]));
    assert(pool_kept(olds, news, b, plan[b]));
}

/// Updating to the list of servers that is already there keeps every pool, as long as no
/// address is listed twice.
pub proof fn lemma_update_with_same_list(
    addrs: Seq<Seq<char>>,
    plan: Seq<Option<usize>>,
    i: int,
)
    requires
        addrs.no_duplicates(),
        plan.len() == addrs.len() <= usize::MAX,
        forall|i: int| 0 <= i < addrs.len() ==> pool_kept(addrs, addrs, i, #[trigger] plan[i]),
        0 <= i < addrs.len(),
    ensures
        plan[i] == Some(i as usize),
{
    assert(pool_kept(addrs, addrs, i, plan[i]));
    match plan[i] {
        Some(j) => {
            assert(addrs[j as int] == addrs[i]);
            assert(j == i);
        },
        None => {
            if exists|k: int| 0 <= k < i && #[trigger] addrs[k] == addrs[i] {
                let k = choose|k: int| 0 <= k < i && #[trigger] addrs[k] == addrs[i];
                assert(k == i);
            } else {
                let same = |m: int| addrs[m] == addrs[i];
                assert(forall|m: int| 0 <= m < addrs.len() ==> !#[trigger] same(m));
                assert(same(i));
            }
        },
    }
}

/// In turn, every server gets its share: where all are healthy, as many selections in a row as
/// there are servers come by each of them exactly once.
pub proof fn lemma_round_robin_is_fair(healthy: Seq<bool>, counter: usize, k: int)
    requires
        forall|j: int| 0 <= j < healthy.len() ==> #[trigger] healthy[j],
        0 <= k < healthy.len(),
        counter + 2 * healthy.len() <= usize::MAX,
    ensures
        exists|t: int| #[trigger] chosen_at(healthy, counter, t, k),
        forall|t: int, u: int| #[trigger]
            chosen_at(healthy, counter, t, k) && #[trigger] chosen_at(healthy, counter, u, k) ==> t
                == u,
{
    let n = healthy.len() as int;
    let j = lemma_turn(counter as int, n, k);
    let t = j - counter;
    vstd::arithmetic::div_mod::lemma_mod_bound(j, n);
    assert(select_seed(true, (counter + t) as usize, None) == j);
    assert(first_healthy(healthy, select_seed(true, (counter + t) as usize, None), j));
    assert(chosen_at(healthy, counter, t, k));
    assert forall|t: int, u: int| #[trigger]
        chosen_at(healthy, counter, t, k) && #[trigger] chosen_at(
        healthy,
        counter,
        u,
        k,
    ) implies t == u by {
        lemma_chosen(healthy, counter, t, k);
        lemma_chosen(healthy, counter, u, k);
        lemma_same_place(counter + t, counter + u, n);
    }
}

/// Whether the `t`-th selection in a row, from this value of the counter on, comes by server
/// `k`.
pub open spec fn chosen_at(healthy: Seq<bool>, counter: usize, t: int, k: int) -> bool {
    &&& 0 <= t < healthy.len()
    &&& exists|i: int| #[trigger]
        first_healthy(healthy, select_seed(true, (counter + t) as usize, None), i) && i
            % healthy.len() as int == k
}

proof fn lemma_chosen(healthy: Seq<bool>, counter: usize, t: int, k: int)
    requires
        forall|j: int| 0 <= j < healthy.len() ==> #[trigger] healthy[j],
        counter + 2 * healthy.len() <= usize::MAX,
        chosen_at(healthy, counter, t, k),
    ensures
        (counter + t) % healthy.len() as int == k,
{
    let n = healthy.len() as int;
    let i = choose|i: int| #[trigger]
        first_healthy(healthy, select_seed(true, (counter + t) as usize, None), i) && i % n == k;
    vstd::arithmetic::div_mod::lemma_mod_bound(counter + t, n);
    if counter + t < i {
        assert(healthy[(counter + t) % n]);
    }
}

/// Two numbers less than `n` apart that leave the same remainder are the same.
proof fn lemma_same_place(a: int, b: int, n: int)
    requires
        n > 0,
        a % n == b % n,
        -n < a - b < n,
    ensures
        a == b,
{
    vstd::arithmetic::div_mod::lemma_fundamental_div_mod(a, n);
    vstd::arithmetic::div_mod::lemma_fundamental_div_mod(b, n);
    let q = a / n - b / n;
    assert(n * (a / n) - n * (b / n) == n * q) by (nonlinear_arith)
        requires
            q == a / n - b / n,
    ;
    assert(q == 0) by (nonlinear_arith)
        requires
            -n < n * q < n,
            n > 0,
    ;
}

/// A task that is tried again moves on: it comes back to the server that failed it only where
/// no other is healthy.
pub proof fn lemma_retry_moves_on(healthy: Seq<bool>, last: usize, i: int, k: int)
    requires
        first_healthy(healthy, select_seed(false, 0, Some(last)), i),
        i % healthy.len() as int == last as int % healthy.len() as int,
        0 <= k < healthy.len(),
        healthy[k],
    ensures
        k == last as int % healthy.len() as int,
{
    let n = healthy.len() as int;
    let j = lemma_turn(last + 1, n, k);
    if j < i {
        assert(!healthy[j % n]);
    } else {
        // `i` has come all the way round.
        if i - last < n {
            lemma_same_place(i, last as int, n);
        }
        assert(i == last + n);
        assert(j == i);
    }
}

/// What is known of a task after it failed with `errors`, one after another: how often it
/// failed for want of a connection, and whether the last failure was of that kind.
pub open spec fn history(errors: Seq<RpcIntErr>) -> (usize, bool)
    decreases errors.len(),
{
    if errors.len() == 0 {
        (0, false)
    } else {
        let e = errors.last();
        (next_failures(history(errors.drop_last()).0, e), connection_error(e))
    }
}

/// A task that is tried again after each of its failures has failed at most `limit` times: it
/// is sent at most `limit + 1` times. And it is tried again that often, if it keeps failing for
/// want of a connection.
pub proof fn lemma_retries_are_bounded(errors: Seq<RpcIntErr>, limit: usize)
    requires
        limit < usize::MAX,
    ensures
        (forall|k: int|
            0 < k <= errors.len() ==> tried_again(#[trigger] history(errors.subrange(0, k)), limit))
            <==> errors.len() <= limit && forall|k: int|
            0 <= k < errors.len() ==> connection_error(#[trigger] errors[k]),
{
    let all_tried = forall|k: int|
        0 < k <= errors.len() ==> tried_again(#[trigger] history(errors.subrange(0, k)), limit);
    let all_conn = forall|k: int|
        0 <= k < errors.len() ==> connection_error(#[trigger] errors[k]);
    if all_tried {
        lemma_history(errors, limit, errors.len() as int);
        assert forall|k: int| 0 <= k < errors.len() implies connection_error(
            #[trigger] errors[k],
        ) by {
            assert(tried_again(history(errors.subrange(0, k + 1)), limit));
            assert(errors.subrange(0, k + 1).last() == errors[k]);
        }
    }
    if errors.len() <= limit && all_conn {
        assert forall|k: int| 0 < k <= errors.len() implies tried_again(
            #[trigger] history(errors.subrange(0, k)),
            limit,
        ) by {
            lemma_failures(errors, k);
            assert(errors.subrange(0, k).last() == errors[k - 1]);
        }
    }
}

proof fn lemma_history(errors: Seq<RpcIntErr>, limit: usize, n: int)
    requires
        limit < usize::MAX,
        0 <= n <= errors.len(),
        forall|k: int|
            0 < k <= errors.len() ==> tried_again(#[trigger] history(errors.subrange(0, k)), limit),
    ensures
        n <= limit,
        history(errors.subrange(0, n)).0 == n,
    decreases n,
{
    if n > 0 {
        lemma_history(errors, limit, n - 1);
        assert(errors.subrange(0, n).drop_last() =~= errors.subrange(0, n - 1));
        assert(tried_again(history(errors.subrange(0, n)), limit));
    }
}

proof fn lemma_failures(errors: Seq<RpcIntErr>, n: int)
    requires
        0 <= n <= errors.len() <= usize::MAX,
        forall|k: int| 0 <= k < errors.len() ==> connection_error(#[trigger] errors[k]),
    ensures
        history(errors.subrange(0, n)).0 == n,
    decreases n,
{
    if n > 0 {
        lemma_failures(errors, n - 1);
        assert(errors.subrange(0, n).drop_last() =~= errors.subrange(0, n - 1));
        assert(errors.subrange(0, n).last() == errors[n - 1]);
    }
}

} // verus!
