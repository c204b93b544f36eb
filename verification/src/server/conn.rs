//! What the reader and the writer of a server connection do.
//!
//! The reader takes requests one after another. It answers pings itself and hands everything
//! else to the dispatcher. The writer takes what comes back, writes it, and flushes whenever
//! nothing is left to write.

use crate::error::RpcIntErr;
use crate::proto::{
    action_bytes, action_flag, ActionSpec, ReqHead, RespHead, RpcAction, PING_ACTION,
    RPC_RESP_HEADER_LEN,
};
use crate::transport::request::{
    blob_on_wire, lemma_request_round_trip, ReqErrors, ReqOutcome, ReqPhase, ReqSpec, RpcSvrReq,
};
use vstd::prelude::*;

verus! {

/// Whether a request is a ping: it asks for action 0 and has no message.
pub open spec fn is_ping_spec(req: ReqSpec) -> bool {
    req.action == ActionSpec::Num(0) && req.msg.len() == 0
}

/// Whether a request is a ping.
pub fn is_ping(req: &RpcSvrReq<'_>) -> (r: bool)
    ensures
        r == is_ping_spec(req@),
{
    match req.action {
        RpcAction::Num(n) => n == 0 && req.msg.len() == 0,
        RpcAction::Str(_) => false,
    }
}

/// What a reader is waiting for.
#[derive(Clone, Copy, Debug, PartialEq, Eq, Structural)]
pub enum ReaderState {
    Reading,
    /// For the dispatcher to take the request with this ID.
    Dispatching { seq: u64 },
    /// For its own response to reach the writer.
    Replying,
    Stopped,
}

/// What happened to a reader.
#[derive(Clone, Copy, Debug, PartialEq, Eq, Structural)]
pub enum ReaderEvent {
    Request { seq: u64, ping: bool },
    ReadFailed,
    Dispatched { ok: bool },
    Replied { ok: bool },
}

/// What a reader does next.
#[derive(Clone, Copy, Debug, PartialEq, Eq, Structural)]
pub enum ReaderAction {
    Read,
    /// Hand the request to the dispatcher.
    Dispatch,
    /// Hand a response of the framework itself to the writer.
    Reply { seq: u64, err: Option<RpcIntErr> },
    Stop,
}

impl ReaderState {
    /// Whether `event` can happen in this state.
    pub open spec fn fits(self, event: ReaderEvent) -> bool {
        match self {
            ReaderState::Reading => event is Request || event is ReadFailed,
            ReaderState::Dispatching { .. } => event is Dispatched,
            ReaderState::Replying => event is Replied,
            ReaderState::Stopped => false,
        }
    }

    /// What a reader does after `event`.
    pub open spec fn spec_step(self, event: ReaderEvent) -> (ReaderState, ReaderAction) {
        match event {
            ReaderEvent::Request { seq, ping } => if ping {
                (ReaderState::Replying, ReaderAction::Reply { seq, err: None })
            } else {
                (ReaderState::Dispatching { seq }, ReaderAction::Dispatch)
            },
            ReaderEvent::Dispatched { ok } => if ok {
                (ReaderState::Reading, ReaderAction::Read)
            } else {
                (
                    ReaderState::Replying,
                    ReaderAction::Reply { seq: self->seq, err: Some(RpcIntErr::Decode) },
                )
            },
            ReaderEvent::Replied { ok } => if ok {
                (ReaderState::Reading, ReaderAction::Read)
            } else {
                (ReaderState::Stopped, ReaderAction::Stop)
            },
            ReaderEvent::ReadFailed => (ReaderState::Stopped, ReaderAction::Stop),
        }
    }

    /// Takes note of what happened, and says what to do next.
    pub fn step(&mut self, event: ReaderEvent) -> (r: ReaderAction)
        requires
            old(self).fits(event),
        ensures
            (*final(self), r) == old(self).spec_step(event),
    {
        let (next, action) = match event {
            ReaderEvent::Request { seq, ping } => if ping {
                (ReaderState::Replying, ReaderAction::Reply { seq, err: None })
            } else {
                (ReaderState::Dispatching { seq }, ReaderAction::Dispatch)
            },
            ReaderEvent::Dispatched { ok } => {
                if ok {
                    (ReaderState::Reading, ReaderAction::Read)
                } else {
                    let seq: u64 = match *self {
                        ReaderState::Dispatching { seq } => seq,
                        _ => 0,
                    };
                    (
                        ReaderState::Replying,
                        ReaderAction::Reply { seq, err: Some(RpcIntErr::Decode) },
                    )
                }
            },
            ReaderEvent::Replied { ok } => if ok {
                (ReaderState::Reading, ReaderAction::Read)
            } else {
                (ReaderState::Stopped, ReaderAction::Stop)
            },
            ReaderEvent::ReadFailed => (ReaderState::Stopped, ReaderAction::Stop),
        };
        *self = next;
        action
    }
}

/// A request is answered under its own ID, once: a ping by the reader, a request that the
/// dispatcher refuses by the reader with `Decode`, and any other not by the reader.
pub proof fn lemma_reader_answers(seq: u64, ping: bool, ok: bool)
    ensures
        ({
            let (s1, a1) = ReaderState::Reading.spec_step(ReaderEvent::Request { seq, ping });
            let (s2, a2) = s1.spec_step(ReaderEvent::Dispatched { ok });
            let (s3, a3) = ReaderState::Replying.spec_step(ReaderEvent::Replied { ok: true });
            &&& s3 is Reading && a3 is Read
            &&& ping ==> a1 == (ReaderAction::Reply { seq, err: None }) && s1 is Replying
            &&& !ping ==> a1 is Dispatch && s1 is Dispatching
            &&& !ping && ok ==> a2 is Read && s2 is Reading
            &&& !ping && !ok ==> a2 == (ReaderAction::Reply { seq, err: Some(RpcIntErr::Decode) })
                && s2 is Replying
        }),
{
}

/// A ping is answered: a server reads it as a ping with its ID, and the answer that it sends is
/// a head without a body that carries this ID.
pub proof fn lemma_ping_is_answered(errs: ReqErrors, client_id: u64, seq: u64, rest: Seq<u8>)
    ensures
        ({
            let ping = ReqHead::spec_new(client_id, PING_ACTION, seq, 0, 0).bytes();
            let req = ReqSpec {
                seq,
                action: ActionSpec::Num(0),
                msg: Seq::empty(),
                blob: None,
            };
            let answer = RespHead::spec_new(0, seq, 0, 0);
            &&& ReqPhase::Head.run(errs, ping + rest, true) == ReqOutcome::Done(req, rest)
            &&& is_ping_spec(req)
            &&& answer.bytes().len() == RPC_RESP_HEADER_LEN
            &&& RespHead::parse(answer.bytes()).seq == seq
        }),
{
    let action = ActionSpec::Num(0);
    let none = Seq::<u8>::empty();
    lemma_request_round_trip(errs, client_id, seq, action, none, None, rest);
    lemma_ping_frame(client_id, seq, rest);
    RespHead::spec_new(0, seq, 0, 0).lemma_round_trip();
}

proof fn lemma_ping_frame(client_id: u64, seq: u64, rest: Seq<u8>)
    ensures
        ({
            let none = Seq::<u8>::empty();
            let frame = ReqHead::frame(client_id, seq, ActionSpec::Num(0), Some(none), None);
            &&& frame is Some
            &&& frame->Some_0 + blob_on_wire(None) + rest == ReqHead::spec_new(
                client_id,
                PING_ACTION,
                seq,
                0,
                0,
            ).bytes() + rest
        }),
{
    let head = ReqHead::spec_new(client_id, PING_ACTION, seq, 0, 0);
    lemma_nothing_added(head.bytes());
    assert(action_flag(ActionSpec::Num(0)) == PING_ACTION);
    assert(action_bytes(ActionSpec::Num(0)) =~= Seq::<u8>::empty());
}

proof fn lemma_nothing_added(a: Seq<u8>)
    ensures
        a + Seq::<u8>::empty() == a,
{
    assert(a + Seq::<u8>::empty() =~= a);
}

/// What a writer is waiting for.
#[derive(Clone, Copy, Debug, PartialEq, Eq, Structural)]
pub enum WriterState {
    /// For something to write.
    Waiting,
    /// To learn whether there is more to write.
    Draining,
    Writing,
    Flushing,
    Ended,
}

/// What happened to a writer.
#[derive(Clone, Copy, Debug, PartialEq, Eq, Structural)]
pub enum WriterEvent {
    /// There is something to write.
    Item,
    /// There is nothing more to write for now.
    Empty,
    /// There will be nothing more to write.
    Disconnected,
    Written { ok: bool },
    Flushed { ok: bool },
}

/// What a writer does next.
#[derive(Clone, Copy, Debug, PartialEq, Eq, Structural)]
pub enum WriterAction {
    /// Wait for something to write.
    Recv,
    /// See whether there is more to write.
    TryRecv,
    Write,
    Flush,
    /// Close the connection for writing, and end.
    Close,
    /// End, as the connection is broken.
    Stop,
}

impl WriterState {
    /// Whether `event` can happen in this state.
    pub open spec fn fits(self, event: WriterEvent) -> bool {
        match self {
            WriterState::Waiting => event is Item || event is Disconnected,
            WriterState::Draining => event is Item || event is Empty || event is Disconnected,
            WriterState::Writing => event is Written,
            WriterState::Flushing => event is Flushed,
            WriterState::Ended => false,
        }
    }

    /// What a writer does after `event`.
    pub open spec fn spec_step(self, event: WriterEvent) -> (WriterState, WriterAction) {
        match event {
            WriterEvent::Item => (WriterState::Writing, WriterAction::Write),
            WriterEvent::Empty => (WriterState::Flushing, WriterAction::Flush),
            WriterEvent::Disconnected => if self == WriterState::Draining {
                (WriterState::Flushing, WriterAction::Flush)
            } else {
                (WriterState::Ended, WriterAction::Close)
            },
            WriterEvent::Written { ok } => if ok {
                (WriterState::Draining, WriterAction::TryRecv)
            } else {
                (WriterState::Ended, WriterAction::Stop)
            },
            WriterEvent::Flushed { ok } => if ok {
                (WriterState::Waiting, WriterAction::Recv)
            } else {
                (WriterState::Ended, WriterAction::Stop)
            },
        }
    }

    /// Takes note of what happened, and says what to do next.
    pub fn step(&mut self, event: WriterEvent) -> (r: WriterAction)
        requires
            old(self).fits(event),
        ensures
            (*final(self), r) == old(self).spec_step(event),
    {
        let (next, action) = match event {
            WriterEvent::Item => (WriterState::Writing, WriterAction::Write),
            WriterEvent::Empty => (WriterState::Flushing, WriterAction::Flush),
            WriterEvent::Disconnected => match *self {
                WriterState::Draining => (WriterState::Flushing, WriterAction::Flush),
                _ => (WriterState::Ended, WriterAction::Close),
            },
            WriterEvent::Written { ok } => if ok {
                (WriterState::Draining, WriterAction::TryRecv)
            } else {
                (WriterState::Ended, WriterAction::Stop)
            },
            WriterEvent::Flushed { ok } => if ok {
                (WriterState::Waiting, WriterAction::Recv)
            } else {
                (WriterState::Ended, WriterAction::Stop)
            },
        };
        *self = next;
        action
    }
}

/// Whether something was written and not flushed yet, after a writer has gone through
/// `events`.
pub open spec fn unflushed(events: Seq<WriterEvent>) -> bool
    decreases events.len(),
{
    if events.len() == 0 {
        false
    } else {
        match events.last() {
            WriterEvent::Written { .. } => true,
            WriterEvent::Flushed { .. } => false,
            _ => unflushed(events.drop_last()),
        }
    }
}

/// The state of a writer after it has gone through `events`.
pub open spec fn writer_after(events: Seq<WriterEvent>) -> WriterState
    decreases events.len(),
{
    if events.len() == 0 {
        WriterState::Waiting
    } else {
        writer_after(events.drop_last()).spec_step(events.last()).0
    }
}

/// Whether each of `events` can happen when it does.
pub open spec fn writer_events_fit(events: Seq<WriterEvent>) -> bool
    decreases events.len(),
{
    events.len() == 0 || (writer_events_fit(events.drop_last()) && writer_after(
        events.drop_last(),
    ).fits(events.last()))
}

/// A writer never waits with responses that are not flushed, nor closes the connection with
/// such.
pub proof fn lemma_writer_flushes(events: Seq<WriterEvent>)
    requires
        writer_events_fit(events),
    ensures
        writer_after(events) is Waiting ==> !unflushed(events),
        writer_after(events) is Draining ==> unflushed(events),
        events.len() > 0 && writer_after(events.drop_last()).spec_step(events.last()).1 is Close
            ==> !unflushed(events),
    decreases events.len(),
{
    if events.len() > 0 {
        lemma_writer_flushes(events.drop_last());
    }
}

} // verus!
