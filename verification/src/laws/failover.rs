//! Trying tasks again, and choosing between servers.

use crate::client::failover::{
    addrs_of, connection_error, first_healthy, kept_before, lemma_turn, let_go, pool_addrs,
    pool_kept, updated_at, ErrorHandle, FailoverPool, FailoverTask, PoolRef, SendReq,
};
use crate::client::task::{
    ClientTask, ClientTaskAction, ClientTaskDecode, ClientTaskDone, ClientTaskEncode,
    ClientTaskState,
};
use crate::error::{EncodedErr, RpcIntErr};
use crate::laws::client::failed;
use crate::proto::RpcAction;
use vstd::prelude::*;

verus! {

/// Whether an error is one of the connection: the server could not be reached, the connection
/// broke, or no answer came in time.
pub open spec fn of_connection(e: RpcIntErr) -> bool {
    e is Unreachable || e is IO || e is Timeout
}

/// Only a failure of the connection makes a task worth another try. An answer of a server never
/// does, whatever is wrong with it.
pub proof fn lemma_connection_errors(e: RpcIntErr)
    ensures
        connection_error(e) <==> of_connection(e),
        e is Method || e is Service || e is Encode || e is Decode || e is Internal || e is Version
            ==> !connection_error(e),
{
}

/// A task that fails is to be tried again exactly where the connection failed it, and exactly then
/// it has failed once more. It stays where it was, and keeps its request and its way back.
pub proof fn lemma_task_fails<C, T: ClientTaskDone<C>>(e: RpcIntErr)
    ensures
        forall|t: &mut FailoverTask<T>| #[trigger]
            call_ensures(<FailoverTask<T> as ClientTaskDone<C>>::set_rpc_error, (t, e), ()) ==> {
                let before = *t;
                let after = *final(t);
                &&& after.retryable() <==> e is Unreachable || e is IO || e is Timeout
                &&& before.failures() < usize::MAX ==> after.failures() == before.failures() + if e
                    is Unreachable || e is IO || e is Timeout {
                    1int
                } else {
                    0
                }
                &&& before.failures() == usize::MAX ==> after.failures() == usize::MAX
                &&& after.index() == before.index() && after.ver() == before.ver()
                &&& failed::<C, T>(before.task(), after.task(), e)
            },
{
}

/// A task that a server answered is not to be tried again, where the answer is an error, and has
/// not failed once more, whatever the answer is.
pub proof fn lemma_task_is_answered<C, T: ClientTaskDone<C>>(codec: &C, e: EncodedErr)
    ensures
        forall|t: &mut FailoverTask<T>| #[trigger]
            call_ensures(
                <FailoverTask<T> as ClientTaskDone<C>>::set_custom_error,
                (t, codec, e),
                (),
            ) ==> {
                let before = *t;
                let after = *final(t);
                &&& !after.retryable()
                &&& after.failures() == before.failures()
                &&& after.index() == before.index() && after.ver() == before.ver()
            },
        forall|t: &mut FailoverTask<T>| #[trigger]
            call_ensures(<FailoverTask<T> as ClientTaskDone<C>>::set_ok, (t,), ()) ==> {
                let before = *t;
                let after = *final(t);
                &&& after.failures() == before.failures()
                &&& after.index() == before.index() && after.ver() == before.ver()
            },
{
}

/// What becomes of a task that failed with `e`, by how often it had failed before: it is tried
/// again as long as the connection failed it and it has not failed more often than the limit
/// says, and else goes back to whoever issued it with this error.
pub proof fn lemma_failed_task_is_tried_again<P, C, T: ClientTaskDone<C>>(
    pool: FailoverPool<P>,
    e: RpcIntErr,
)
    ensures
        forall|t: &mut FailoverTask<T>, after: FailoverTask<T>, r: ErrorHandle<T>|
            #![trigger
                call_ensures(<FailoverTask<T> as ClientTaskDone<C>>::set_rpc_error, (t, e), ()),
                call_ensures(FailoverPool::<P>::error_handle::<T>, (&pool, after), r)]
            call_ensures(<FailoverTask<T> as ClientTaskDone<C>>::set_rpc_error, (t, e), ())
                && after == *final(t) && call_ensures(
                FailoverPool::<P>::error_handle::<T>,
                (&pool, after),
                r,
            ) ==> {
                let again = of_connection(e) && (*t).failures() + 1 <= pool.limit();
                let last_chance = (*t).failures() == usize::MAX && pool.limit() == usize::MAX;
                &&& r == ErrorHandle::Retry(after) || r == ErrorHandle::Done(after.task())
                &&& again ==> r is Retry
                &&& r is Retry ==> again || last_chance
                &&& (r matches ErrorHandle::Done(d) ==> failed::<C, T>((*t).task(), d, e))
            },
{
}

/// How many steps forward it takes from place `from` to place `to` of `n`, all the way round.
pub open spec fn steps(from: int, to: int, n: nat) -> int {
    (to - from) % n as int
}

/// Whether `pool` is the healthy one that comes next from `start` on, all the way round.
pub open spec fn next_healthy(healthy: Seq<bool>, start: int, pool: int) -> bool {
    &&& 0 <= pool < healthy.len()
    &&& healthy[pool]
    &&& forall|k: int|
        0 <= k < healthy.len() && #[trigger] healthy[k] ==> steps(start, pool, healthy.len())
            <= steps(start, k, healthy.len())
}

proof fn lemma_steps(seed: int, j: int, n: nat)
    requires
        0 <= seed <= j < seed + n,
    ensures
        steps(seed, j % n as int, n) == j - seed,
{
    vstd::arithmetic::div_mod::lemma_sub_mod_noop(j, seed, n as int);
    vstd::arithmetic::div_mod::lemma_sub_mod_noop(j % n as int, seed, n as int);
    vstd::arithmetic::div_mod::lemma_mod_twice(j, n as int);
    vstd::arithmetic::div_mod::lemma_small_mod((j - seed) as nat, n);
}

proof fn lemma_first_is_next(healthy: Seq<bool>, seed: int, i: int)
    requires
        0 <= seed,
        first_healthy(healthy, seed, i),
    ensures
        next_healthy(healthy, seed, i % healthy.len() as int),
{
    let n = healthy.len();
    vstd::arithmetic::div_mod::lemma_mod_bound(i, n as int);
    lemma_steps(seed, i, n);
    assert forall|k: int| 0 <= k < n && #[trigger] healthy[k] implies steps(
        seed,
        i % n as int,
        n,
    ) <= steps(seed, k, n) by {
        let j = lemma_turn(seed, n as int, k);
        lemma_steps(seed, j, n);
        if j < i {
            assert(!healthy[j % n as int]);
        }
    }
}

/// Sending a task for the first time: to the first healthy server of the list, or, in turn, to the
/// next healthy one from the one whose turn it is. It goes to none exactly where none is healthy,
/// and ends with `Unreachable`. Each selection in turn moves the turn on by one.
pub proof fn lemma_task_is_placed<P, C, T: ClientTask<C>>(task: T, healthy: Vec<bool>)
    ensures
        forall|f: &mut FailoverPool<P>, r: SendReq<T>|
            #![trigger call_ensures(FailoverPool::<P>::send_req::<C, T>, (f, task, &healthy), r)]
            call_ensures(FailoverPool::<P>::send_req::<C, T>, (f, task, &healthy), r) ==> {
                let before = *f;
                let after = *final(f);
                let start: int = if before.in_turn() {
                    before.counter() as int
                } else {
                    0
                };
                &&& r is Done <==> forall|k: int|
                    0 <= k < healthy@.len() ==> !#[trigger] healthy@[k]
                &&& match r {
                    SendReq::Send { pool, task: t } => {
                        &&& next_healthy(healthy@, start, pool as int)
                        &&& pool == t.index() as int % healthy@.len() as int
                        &&& before.servers() matches Some(c)
                        &&& t.ver() == c.ver
                        &&& t.task() == task
                        &&& t.failures() == 0 && !t.retryable()
                    },
                    SendReq::Done(t) => failed::<C, T>(task, t, RpcIntErr::Unreachable),
                }
                &&& before.counter() < usize::MAX ==> after.counter() - before.counter()
                    == if before.in_turn() && before.size() > 0 {
                    1int
                } else {
                    0
                }
                &&& after.servers() == before.servers() && after.limit() == before.limit()
                &&& after.in_turn() == before.in_turn()
            },
{
    assert forall|f: &mut FailoverPool<P>, r: SendReq<T>|
        #![trigger call_ensures(FailoverPool::<P>::send_req::<C, T>, (f, task, &healthy), r)]
        call_ensures(FailoverPool::<P>::send_req::<C, T>, (f, task, &healthy), r)
            && r is Send implies next_healthy(
        healthy@,
        if (*f).in_turn() {
            (*f).counter() as int
        } else {
            0
        },
        r->pool as int,
    ) by {
        let start: int = if (*f).in_turn() {
            (*f).counter() as int
        } else {
            0
        };
        lemma_first_is_next(healthy@, start, r->Send_task.index() as int);
    }
}

/// Without turns the first healthy server of the list is the one: all before it are not healthy.
pub proof fn lemma_first_in_list(healthy: Seq<bool>, pool: int, k: int)
    requires
        next_healthy(healthy, 0, pool),
        0 <= k < pool,
    ensures
        !healthy[k],
{
    vstd::arithmetic::div_mod::lemma_small_mod(k as nat, healthy.len());
    vstd::arithmetic::div_mod::lemma_small_mod(pool as nat, healthy.len());
}

/// Trying a task again: at the next healthy server after the one that was tried last, as long as
/// the list of servers is the same, whether or not servers are taken in turn; with another list
/// it is placed as if for the first time. It goes to none exactly where none is healthy, and goes
/// back as it is. What is known of its failures stays.
pub proof fn lemma_task_is_placed_again<P, T>(task: FailoverTask<T>, healthy: Vec<bool>)
    ensures
        forall|f: &mut FailoverPool<P>, r: SendReq<T>|
            #![trigger call_ensures(FailoverPool::<P>::retry::<T>, (f, task, &healthy), r)]
            call_ensures(FailoverPool::<P>::retry::<T>, (f, task, &healthy), r) ==> {
                let before = *f;
                let after = *final(f);
                let same = before.servers() matches Some(c) && c.ver == task.ver();
                let start: int = if same {
                    task.index() + 1
                } else if before.in_turn() {
                    before.counter() as int
                } else {
                    0
                };
                &&& r is Done <==> forall|k: int|
                    0 <= k < healthy@.len() ==> !#[trigger] healthy@[k]
                &&& match r {
                    SendReq::Send { pool, task: t } => {
                        &&& next_healthy(healthy@, start, pool as int)
                        &&& pool == t.index() as int % healthy@.len() as int
                        &&& before.servers() matches Some(c)
                        &&& t.ver() == c.ver
                        &&& t.task() == task.task()
                        &&& t.failures() == task.failures()
                        &&& t.retryable() == task.retryable()
                    },
                    SendReq::Done(t) => t == task.task(),
                }
                &&& same ==> after.counter() == before.counter()
                &&& before.servers() is Some && before.counter() < usize::MAX && !same
                    ==> after.counter() - before.counter() == if before.in_turn() && before.size()
                    > 0 {
                    1int
                } else {
                    0
                }
                &&& after.servers() == before.servers() && after.limit() == before.limit()
                &&& after.in_turn() == before.in_turn()
            },
{
    assert forall|f: &mut FailoverPool<P>, r: SendReq<T>|
        #![trigger call_ensures(FailoverPool::<P>::retry::<T>, (f, task, &healthy), r)]
        call_ensures(FailoverPool::<P>::retry::<T>, (f, task, &healthy), r)
            && r is Send implies next_healthy(
        healthy@,
        if (*f).servers() matches Some(c) && c.ver == task.ver() {
            task.index() + 1
        } else if (*f).in_turn() {
            (*f).counter() as int
        } else {
            0
        },
        r->pool as int,
    ) by {
        let start: int = if (*f).servers()->0.ver == task.ver() {
            task.index() + 1
        } else if (*f).in_turn() {
            (*f).counter() as int
        } else {
            0
        };
        lemma_first_is_next(healthy@, start, r->Send_task.index() as int);
    }
}

/// A task can be sent whenever the turn can be counted on over all servers, and that alone is
/// what the pool asks for beside one mark of health for each server.
pub proof fn lemma_task_can_be_sent<P, C, T: ClientTask<C>>(
    f: &mut FailoverPool<P>,
    task: T,
    healthy: Vec<bool>,
)
    requires
        healthy@.len() == (*f).size(),
        (*f).wf(),
        (*f).in_turn() ==> (*f).counter() + (*f).size() <= usize::MAX,
    ensures
        call_requires(FailoverPool::<P>::send_req::<C, T>, (f, task, &healthy)),
{
}

/// The pool says of itself whether a task can be sent: always without turns, and else as long as
/// the turn can be counted on over all servers.
pub proof fn lemma_can_send<P>(f: FailoverPool<P>, r: bool)
    requires
        call_ensures(FailoverPool::<P>::can_send, (&f,), r),
    ensures
        !f.in_turn() ==> r,
        f.in_turn() ==> (r <==> f.counter() + f.size() <= usize::MAX),
{
}

/// The pool says of itself whether a task can be tried again: as long as the place from which to
/// go on can be counted on over all servers.
pub proof fn lemma_can_retry<P, T>(f: FailoverPool<P>, task: FailoverTask<T>, r: bool)
    requires
        call_ensures(FailoverPool::<P>::can_retry::<T>, (&f, &task), r),
    ensures
        f.servers() is None ==> r,
        f.servers() matches Some(c) ==> if c.ver == task.ver() {
            r <==> task.index() + 1 + f.size() <= usize::MAX
        } else {
            !f.in_turn() ==> (r <==> f.size() <= usize::MAX)
        },
        f.servers() matches Some(c) && c.ver != task.ver() && f.in_turn() ==> (r <==> f.counter()
            + f.size() <= usize::MAX),
{
}

/// Which pool is kept for an address of a new list: none where the address was not there before,
/// or stands earlier in the new list too; else one with this address, and if only one has it,
/// that.
pub proof fn lemma_kept_pool(
    olds: Seq<Seq<char>>,
    news: Seq<Seq<char>>,
    i: int,
    r: Option<usize>,
)
    requires
        0 <= i < news.len(),
        pool_kept(olds, news, i, r),
    ensures
        r is None <==> !olds.contains(news[i]) || news.subrange(0, i).contains(news[i]),
        r matches Some(j) ==> j < olds.len() && olds[j as int] == news[i] && forall|m: int|
            j < m < olds.len() ==> #[trigger] olds[m] != news[i],
        forall|j: int|
            0 <= j < olds.len() && olds.no_duplicates() && #[trigger] olds[j] == news[i]
                && !news.subrange(0, i).contains(news[i]) ==> r == Some(j as usize),
{
    let taken = exists|k: int| 0 <= k < i && #[trigger] news[k] == news[i];
    let head = news.subrange(0, i);
    if taken {
        let k = choose|k: int| 0 <= k < i && #[trigger] news[k] == news[i];
        assert(head[k] == news[i]);
    }
    if head.contains(news[i]) {
        let k = choose|k: int| 0 <= k < head.len() && head[k] == news[i];
        assert(news[k] == news[i]);
        assert(taken);
    }
    assert(taken == head.contains(news[i]));
    if r is None && olds.contains(news[i]) {
        let m = choose|m: int| 0 <= m < olds.len() && olds[m] == news[i];
        assert(olds[m] == news[i]);
        assert(taken);
    }
}

/// The list of servers after an update: one pool for each address, in order, each with its
/// address. An address that was there before keeps its pool, where it stands for the first time
/// and no two servers had the same address; a new address, and one that stands there again, gets
/// a new pool. The other pools are let go: those whose address is no longer there, in order. And
/// no task of the list before counts as one of the new list.
pub proof fn lemma_servers_are_updated<P, F: Fn(&String) -> P>(addrs: Vec<String>, new_pool: F)
    ensures
        forall|f: &mut FailoverPool<P>, r: Vec<P>|
            #![trigger call_ensures(FailoverPool::<P>::update_addrs::<F>, (f, addrs, new_pool), r)]
            call_ensures(FailoverPool::<P>::update_addrs::<F>, (f, addrs, new_pool), r)
                && (*f).pool_seq().len() <= usize::MAX ==> {
                let olds = (*f).pool_seq();
                let news = (*final(f)).pool_seq();
                &&& (*final(f)).servers() matches Some(c)
                &&& c.ver == (*final(f)).newest()
                &&& c.ver == (*f).newest() + 1
                &&& news.len() == addrs@.len()
                &&& forall|k: int|
                    0 <= k < addrs@.len() ==> (#[trigger] news[k]).addr@ == addrs@[k]@
                &&& forall|k: int, j: int|
                    0 <= k < addrs@.len() && 0 <= j < olds.len() && pool_addrs(olds).no_duplicates()
                        && (#[trigger] olds[j]).addr@ == (#[trigger] addrs@[k])@ && !addrs_of(
                        addrs@,
                    ).subrange(0, k).contains(addrs@[k]@) ==> news[k].pool == olds[j].pool
                &&& forall|k: int|
                    0 <= k < addrs@.len() && (!pool_addrs(olds).contains((#[trigger] addrs@[k])@)
                        || addrs_of(addrs@).subrange(0, k).contains(addrs@[k]@)) ==> call_ensures(
                        new_pool,
                        (&addrs@[k],),
                        news[k].pool,
                    )
                &&& pool_addrs(olds).no_duplicates() ==> r@ == olds.filter(
                    |p: PoolRef<P>| !addrs_of(addrs@).contains(p.addr@),
                ).map_values(|p: PoolRef<P>| p.pool)
                &&& (*final(f)).limit() == (*f).limit() && (*final(f)).in_turn() == (*f).in_turn()
                &&& (*final(f)).counter() == (*f).counter()
                &&& (*final(f)).channel_size() == (*f).channel_size()
            },
{
    assert forall|f: &mut FailoverPool<P>, r: Vec<P>|
        #![trigger call_ensures(FailoverPool::<P>::update_addrs::<F>, (f, addrs, new_pool), r)]
        call_ensures(FailoverPool::<P>::update_addrs::<F>, (f, addrs, new_pool), r)
            && (*f).pool_seq().len() <= usize::MAX implies {
        let olds = (*f).pool_seq();
        let news = (*final(f)).pool_seq();
        &&& forall|k: int|
            0 <= k < addrs@.len() ==> (#[trigger] news[k]).addr@ == addrs@[k]@
        &&& forall|k: int, j: int|
            0 <= k < addrs@.len() && 0 <= j < olds.len() && pool_addrs(olds).no_duplicates() && (
            #[trigger] olds[j]).addr@ == (#[trigger] addrs@[k])@ && !addrs_of(addrs@).subrange(
                0,
                k,
            ).contains(addrs@[k]@) ==> news[k].pool == olds[j].pool
        &&& forall|k: int|
            0 <= k < addrs@.len() && (!pool_addrs(olds).contains((#[trigger] addrs@[k])@)
                || addrs_of(addrs@).subrange(0, k).contains(addrs@[k]@)) ==> call_ensures(
                new_pool,
                (&addrs@[k],),
                news[k].pool,
            )
        &&& pool_addrs(olds).no_duplicates() ==> r@ == olds.filter(
            |p: PoolRef<P>| !addrs_of(addrs@).contains(p.addr@),
        ).map_values(|p: PoolRef<P>| p.pool)
    } by {
        let olds = (*f).pool_seq();
        let news = (*final(f)).pool_seq();
        let oa = pool_addrs(olds);
        let na = addrs_of(addrs@);
        assert forall|k: int| 0 <= k < addrs@.len() implies (#[trigger] news[k]).addr@
            == addrs@[k]@ by {
            assert(updated_at(olds, addrs@, new_pool, news, k));
        }
        assert forall|k: int, j: int|
            0 <= k < addrs@.len() && 0 <= j < olds.len() && oa.no_duplicates() && (
            #[trigger] olds[j]).addr@ == (#[trigger] addrs@[k])@ && !na.subrange(0, k).contains(
                addrs@[k]@,
            ) implies news[k].pool == olds[j].pool by {
            assert(updated_at(olds, addrs@, new_pool, news, k));
            assert(oa[j] == na[k]);
            assert(pool_kept(oa, na, k, Some(j as usize))) by {
                assert forall|i: int| 0 <= i < k implies #[trigger] na[i] != na[k] by {
                    assert(na.subrange(0, k)[i] == na[i]);
                }
            }
        }
        assert forall|k: int|
            0 <= k < addrs@.len() && (!oa.contains((#[trigger] addrs@[k])@) || na.subrange(
                0,
                k,
            ).contains(addrs@[k]@)) implies call_ensures(
            new_pool,
            (&addrs@[k],),
            news[k].pool,
        ) by {
            assert(updated_at(olds, addrs@, new_pool, news, k));
            assert(na[k] == addrs@[k]@);
            assert(pool_kept(oa, na, k, None)) by {
                if na.subrange(0, k).contains(na[k]) {
                    let i = choose|i: int|
                        0 <= i < na.subrange(0, k).len() && na.subrange(0, k)[i] == na[k];
                    assert(na[i] == na[k]);
                }
            }
        }
        if oa.no_duplicates() {
            lemma_let_go_by_address(olds, na, olds.len() as int);
            assert(olds.subrange(0, olds.len() as int) =~= olds);
        }
    }
}

/// The first place at which an address stands.
proof fn lemma_first_place(news: Seq<Seq<char>>, a: Seq<char>, k: int) -> (i: int)
    requires
        0 <= k < news.len(),
        news[k] == a,
    ensures
        0 <= i <= k,
        news[i] == a,
        forall|m: int| 0 <= m < i ==> #[trigger] news[m] != a,
    decreases k,
{
    if exists|m: int| 0 <= m < k && #[trigger] news[m] == a {
        let m = choose|m: int| 0 <= m < k && #[trigger] news[m] == a;
        lemma_first_place(news, a, m)
    } else {
        k
    }
}

proof fn lemma_let_go_by_address<P>(olds: Seq<PoolRef<P>>, news: Seq<Seq<char>>, n: int)
    requires
        pool_addrs(olds).no_duplicates(),
        0 <= n <= olds.len() <= usize::MAX,
    ensures
        let_go(olds, news, n) == olds.subrange(0, n).filter(
            |p: PoolRef<P>| !news.contains(p.addr@),
        ).map_values(|p: PoolRef<P>| p.pool),
    decreases n,
{
    reveal(Seq::filter);
    let gone = |p: PoolRef<P>| !news.contains(p.addr@);
    let pool = |p: PoolRef<P>| p.pool;
    let s = olds.subrange(0, n);
    if n > 0 {
        lemma_let_go_by_address(olds, news, n - 1);
        let oa = pool_addrs(olds);
        let j = n - 1;
        let head = olds.subrange(0, j);
        assert(s.drop_last() =~= head);
        assert(s.last() == olds[j]);
        assert(oa[j] == olds[j].addr@);
        assert(kept_before(oa, news, news.len() as int, j) == news.contains(oa[j])) by {
            if kept_before(oa, news, news.len() as int, j) {
                let k = choose|k: int|
                    0 <= k < news.len() && #[trigger] pool_kept(oa, news, k, Some(j as usize));
                assert(news[k] == oa[j]);
            }
            if news.contains(oa[j]) {
                let k = choose|k: int| 0 <= k < news.len() && news[k] == oa[j];
                let i = lemma_first_place(news, oa[j], k);
                assert(pool_kept(oa, news, i, Some(j as usize)));
            }
        }
        assert(s.filter(gone) == if gone(s.last()) {
            head.filter(gone).push(s.last())
        } else {
            head.filter(gone)
        });
        assert(head.filter(gone).push(olds[j]).map_values(pool) =~= head.filter(gone).map_values(
            pool,
        ).push(olds[j].pool));
    } else {
        assert(s.filter(gone).map_values(pool) =~= Seq::<P>::empty());
    }
}

/// Whether a pool is not wanted for a new list: its address is not there, or a later pool has it too.
pub open spec fn unwanted(olds: Seq<Seq<char>>, news: Seq<Seq<char>>, j: int) -> bool {
    !news.contains(olds[j]) || exists|m: int| j < m < olds.len() && #[trigger] olds[m] == olds[j]
}

/// Those of the first `n` pools that are not wanted for a new list, in order.
pub open spec fn unwanted_pools<P>(olds: Seq<PoolRef<P>>, news: Seq<Seq<char>>, n: int) -> Seq<P>
    decreases n,
{
    if n <= 0 {
        Seq::empty()
    } else if unwanted(pool_addrs(olds), news, n - 1) {
        unwanted_pools(olds, news, n - 1).push(olds[n - 1].pool)
    } else {
        unwanted_pools(olds, news, n - 1)
    }
}

proof fn lemma_unwanted<P>(olds: Seq<PoolRef<P>>, news: Seq<Seq<char>>, n: int)
    requires
        0 <= n <= olds.len() <= usize::MAX,
    ensures
        let_go(olds, news, n) == unwanted_pools(olds, news, n),
    decreases n,
{
    if n > 0 {
        lemma_unwanted(olds, news, n - 1);
        let oa = pool_addrs(olds);
        let j = n - 1;
        assert(kept_before(oa, news, news.len() as int, j) == !unwanted(oa, news, j)) by {
            if kept_before(oa, news, news.len() as int, j) {
                let k = choose|k: int|
                    0 <= k < news.len() && #[trigger] pool_kept(oa, news, k, Some(j as usize));
                assert(news[k] == oa[j]);
            }
            if !unwanted(oa, news, j) {
                let k = choose|k: int| 0 <= k < news.len() && news[k] == oa[j];
                let i = lemma_first_place(news, oa[j], k);
                assert(pool_kept(oa, news, i, Some(j as usize)));
            }
        }
    }
}

/// Whatever the addresses are, also where some stand there twice: the pools that are let go are those
/// that are not wanted for the new list, in order; and a pool that is kept is the last one with its
/// address, and stands where this address stands first.
pub proof fn lemma_pools_are_let_go<P, F: Fn(&String) -> P>(addrs: Vec<String>, new_pool: F)
    ensures
        forall|f: &mut FailoverPool<P>, r: Vec<P>|
            #![trigger call_ensures(FailoverPool::<P>::update_addrs::<F>, (f, addrs, new_pool), r)]
            call_ensures(FailoverPool::<P>::update_addrs::<F>, (f, addrs, new_pool), r)
                && (*f).pool_seq().len() <= usize::MAX ==> {
                let olds = (*f).pool_seq();
                let news = (*final(f)).pool_seq();
                let na = addrs_of(addrs@);
                &&& r@ == unwanted_pools(olds, na, olds.len() as int)
                &&& forall|k: int, j: int|
                    0 <= k < addrs@.len() && 0 <= j < olds.len() && (#[trigger] olds[j]).addr@ == (
                    #[trigger] addrs@[k])@ && !unwanted(pool_addrs(olds), na, j) && !na.subrange(
                        0,
                        k,
                    ).contains(addrs@[k]@) ==> news[k].pool == olds[j].pool
            },
{
    assert forall|f: &mut FailoverPool<P>, r: Vec<P>|
        #![trigger call_ensures(FailoverPool::<P>::update_addrs::<F>, (f, addrs, new_pool), r)]
        call_ensures(FailoverPool::<P>::update_addrs::<F>, (f, addrs, new_pool), r)
            && (*f).pool_seq().len() <= usize::MAX implies {
        let olds = (*f).pool_seq();
        let news = (*final(f)).pool_seq();
        let na = addrs_of(addrs@);
        &&& r@ == unwanted_pools(olds, na, olds.len() as int)
        &&& forall|k: int, j: int|
            0 <= k < addrs@.len() && 0 <= j < olds.len() && (#[trigger] olds[j]).addr@ == (
            #[trigger] addrs@[k])@ && !unwanted(pool_addrs(olds), na, j) && !na.subrange(
                0,
                k,
            ).contains(addrs@[k]@) ==> news[k].pool == olds[j].pool
    } by {
        let olds = (*f).pool_seq();
        let news = (*final(f)).pool_seq();
        let oa = pool_addrs(olds);
        let na = addrs_of(addrs@);
        lemma_unwanted(olds, na, olds.len() as int);
        assert forall|k: int, j: int|
            0 <= k < addrs@.len() && 0 <= j < olds.len() && (#[trigger] olds[j]).addr@ == (
            #[trigger] addrs@[k])@ && !unwanted(oa, na, j) && !na.subrange(0, k).contains(
                addrs@[k]@,
            ) implies news[k].pool == olds[j].pool by {
            assert(updated_at(olds, addrs@, new_pool, news, k));
            assert(oa[j] == na[k]);
            assert(pool_kept(oa, na, k, Some(j as usize))) by {
                assert forall|i: int| 0 <= i < k implies #[trigger] na[i] != na[k] by {
                    assert(na.subrange(0, k)[i] == na[i]);
                }
            }
        }
    }
}

/// A new failover pool has a new pool for each address, in order.
pub proof fn lemma_new_servers<P, F: Fn(&String) -> P>(
    addrs: Vec<String>,
    new_pool: F,
    round_robin: bool,
    retry_limit: usize,
    channel_size: usize,
    r: FailoverPool<P>,
)
    requires
        call_ensures(
            FailoverPool::<P>::new::<F>,
            (addrs, new_pool, round_robin, retry_limit, channel_size),
            r,
        ),
    ensures
        r.wf(),
        r.size() == addrs@.len(),
        forall|k: int|
            0 <= k < addrs@.len() ==> (#[trigger] r.pool_seq()[k]).addr@ == addrs@[k]@
                && call_ensures(new_pool, (&addrs@[k],), r.pool_seq()[k].pool),
        r.in_turn() == round_robin,
        r.limit() == retry_limit,
        r.counter() == 0,
        r.newest() == 1,
        r.servers()->0.ver == 0,
        r.channel_size() == channel_size,
{
    let none = Seq::<PoolRef<P>>::empty();
    let pools = r.pool_seq();
    assert forall|k: int| 0 <= k < addrs@.len() implies (#[trigger] pools[k]).addr@ == addrs@[k]@
        && call_ensures(new_pool, (&addrs@[k],), pools[k].pool) by {
        assert(updated_at(none, addrs@, new_pool, pools, k));
        assert(pool_kept(pool_addrs(none), addrs_of(addrs@), k, None));
    }
}

/// A pool that is closed gives back all its servers, and has none.
pub proof fn lemma_servers_are_closed<P>()
    ensures
        forall|f: &mut FailoverPool<P>, r: Vec<PoolRef<P>>|
            #![trigger call_ensures(FailoverPool::<P>::close, (f,), r)]
            call_ensures(FailoverPool::<P>::close, (f,), r) ==> (*final(f)).servers() is None
                && ((*f).servers() matches Some(c) ==> r@ == c.pools@) && ((*f).servers() is None
                ==> r@.len() == 0) && (*final(f)).newest() == (*f).newest() && (*final(f)).limit()
                == (*f).limit() && (*final(f)).in_turn() == (*f).in_turn() && (*final(f)).counter()
                == (*f).counter() && (*final(f)).channel_size() == (*f).channel_size(),
{
}

/// A task of a failover pool is the task inside in everything that is said of it: what is sent of
/// it, what comes back, and where it goes in the end.
pub proof fn lemma_failover_task_is_its_task<C, T: ClientTask<C>>(
    codec: &C,
    f: FailoverTask<T>,
)
    ensures
        forall|r: RpcAction<'_>| #[trigger]
            call_ensures(<FailoverTask<T> as ClientTaskAction>::get_action, (&f,), r) ==> r@
                == f.task().action(),
        forall|buf: &mut Vec<u8>, r: Result<usize, ()>| #[trigger]
            call_ensures(
                <FailoverTask<T> as ClientTaskEncode<C>>::encode_req,
                (&f, codec, buf),
                r,
            ) ==> match f.task().req_msg(codec) {
                Some(m) => r is Ok && r->Ok_0 == m.len() && (*final(buf))@ == (*buf)@ + m,
                None => r is Err,
            },
        forall|r: Option<&[u8]>| #[trigger]
            call_ensures(<FailoverTask<T> as ClientTaskEncode<C>>::get_req_blob, (&f,), r) ==> (r
                is Some <==> f.task().req_blob() is Some) && (r matches Some(s) ==> s@
                == f.task().req_blob()->0),
        forall|r: u64| #[trigger]
            call_ensures(<FailoverTask<T> as ClientTask<C>>::seq, (&f,), r) ==> r
                == f.task().common().seq,
        forall|r: T::Receipt| #[trigger]
            call_ensures(<FailoverTask<T> as ClientTaskDone<C>>::done, (f,), r)
                ==> f.task().delivered(r),
        f.result() == f.task().result(),
        f.resp() == f.task().resp(),
        f.resp_blob() == f.task().resp_blob(),
        f.takes_blob() == f.task().takes_blob(),
        f.way() == f.task().way(),
        f.common() == f.task().common(),
{
}

/// What comes back to a task of a failover pool comes to the task inside, and what is known of its
/// failures and its place stays.
pub proof fn lemma_failover_task_takes_response<C, T: ClientTask<C>>(
    codec: &C,
    buf: &[u8],
    size: i32,
    seq: u64,
)
    ensures
        forall|t: &mut FailoverTask<T>, r: Result<(), ()>| #[trigger]
            call_ensures(
                <FailoverTask<T> as ClientTaskDecode<C>>::decode_resp,
                (t, codec, buf),
                r,
            ) ==> {
                let got = T::decoded_resp(codec, buf@);
                &&& r is Ok <==> got is Some
                &&& got is Some ==> (*final(t)).task().resp() == got
                &&& got is None ==> (*final(t)).task().resp() == (*t).task().resp()
                &&& (*final(t)).failures() == (*t).failures() && (*final(t)).retryable()
                    == (*t).retryable()
                &&& (*final(t)).index() == (*t).index() && (*final(t)).ver() == (*t).ver()
            },
        forall|t: &mut FailoverTask<T>, r: Option<&mut [u8]>| #[trigger]
            call_ensures(
                <FailoverTask<T> as ClientTaskDecode<C>>::reserve_resp_blob,
                (t, size),
                r,
            ) ==> {
                &&& r is Some <==> (*t).task().takes_blob()
                &&& (r matches Some(b) ==> b@.len() == size && (*final(t)).task().resp_blob()
                    == Some(final(b)@))
                &&& (*final(t)).failures() == (*t).failures() && (*final(t)).retryable()
                    == (*t).retryable()
                &&& (*final(t)).index() == (*t).index() && (*final(t)).ver() == (*t).ver()
            },
        forall|t: &mut FailoverTask<T>| #[trigger]
            call_ensures(<FailoverTask<T> as ClientTask<C>>::set_seq, (t, seq), ()) ==> {
                &&& (*final(t)).task().common().seq == seq
                &&& (*final(t)).task().way() == (*t).task().way()
                &&& (*final(t)).failures() == (*t).failures() && (*final(t)).retryable()
                    == (*t).retryable()
                &&& (*final(t)).index() == (*t).index() && (*final(t)).ver() == (*t).ver()
            },
{
}

/// What a failover pool says of itself.
pub proof fn lemma_state_of_failover<P>(f: FailoverPool<P>)
    ensures
        forall|r: usize| #[trigger]
            call_ensures(FailoverPool::<P>::pool_channel_size, (&f,), r) ==> r == f.channel_size(),
        forall|r: u64| #[trigger]
            call_ensures(FailoverPool::<P>::version, (&f,), r) ==> r == f.newest(),
        forall|r: Option<&Vec<PoolRef<P>>>| #[trigger]
            call_ensures(FailoverPool::<P>::pools, (&f,), r) ==> (r is Some <==> f.servers() is Some)
                && (r matches Some(p) ==> p@ == f.servers()->0.pools@),
{
}

/// A plan for a new list of servers has one entry for each address: the index of a pool with this
/// address, which no earlier address of the list has taken, or that a pool is to be made.
pub proof fn lemma_update_is_planned<P>(
    f: FailoverPool<P>,
    addrs: Vec<String>,
    r: Vec<Option<usize>>,
    i: int,
)
    requires
        call_ensures(FailoverPool::<P>::plan_update, (&f, &addrs), r),
        0 <= i < addrs@.len(),
    ensures
        r@.len() == addrs@.len(),
        r@[i] matches Some(j) ==> j < f.pool_seq().len() && f.pool_seq()[j as int].addr@
            == addrs@[i]@,
        r@[i] is None <==> !pool_addrs(f.pool_seq()).contains(addrs@[i]@) || addrs_of(
            addrs@,
        ).subrange(0, i).contains(addrs@[i]@),
{
    let olds = pool_addrs(f.pool_seq());
    let news = addrs_of(addrs@);
    assert(news[i] == addrs@[i]@);
    assert(pool_kept(olds, news, i, r@[i]));
    lemma_kept_pool(olds, news, i, r@[i]);
}

} // verus!
