//! Messages and other texts.

use crate::declare::client_task::TaskDefError;
use crate::declare::client_task_enum::{EnumDefError, VariantDesc};
use crate::declare::server_task_enum::ServerEnumError;
use crate::laws::net::{lemma_decimal, value};
use crate::proto::{ReqHead, RespHead};
use crate::text::{decimal, signed_decimal};
use crate::transport::net::describe_socket;
use vstd::prelude::*;

verus! {

/// Whether `s` starts with `a` and ends with `b`.
pub open spec fn from_to(s: Seq<char>, a: Seq<char>, b: Seq<char>) -> bool {
    &&& a.len() <= s.len() && b.len() <= s.len()
    &&& s.subrange(0, a.len() as int) == a
    &&& s.subrange(s.len() - b.len(), s.len() as int) == b
}

/// Whether `s` stands for the number `n`, with a minus in front where it is negative.
pub open spec fn reads(s: Seq<char>, n: int) -> bool {
    &&& s.len() > 0
    &&& n >= 0 ==> value(s) == n
    &&& n < 0 ==> s[0] == '-' && value(s.subrange(1, s.len() as int)) == -n
}

proof fn lemma_reads(n: int)
    ensures
        reads(signed_decimal(n), n),
        n >= 0 ==> reads(decimal(n as nat), n),
{
    if n >= 0 {
        lemma_decimal(n as nat);
    } else {
        let p = (-n) as nat;
        lemma_decimal(p);
        reveal_strlit("-");
        let s = signed_decimal(n);
        assert(s.subrange(1, s.len() as int) =~= decimal(p));
    }
}

/// Whether `t` is the text of the head of a request, with these numbers in it.
pub open spec fn is_req_text(
    t: Seq<char>,
    client: Seq<char>,
    seq: Seq<char>,
    msg: Seq<char>,
    blob: Seq<char>,
    last: Seq<char>,
) -> bool {
    t == "[client_id:"@ + client + ", seq:"@ + seq + ", msg:"@ + msg + ", blob:"@ + blob + last
}

/// The text of the head of a request tells its client, its ID, both lengths, and the number of the
/// action or the length of its name.
pub proof fn lemma_text_of_request(h: ReqHead, r: String)
    requires
        call_ensures(ReqHead::to_text, (&h,), r),
    ensures
        exists|
            client: Seq<char>,
            seq: Seq<char>,
            msg: Seq<char>,
            blob: Seq<char>,
            last: Seq<char>,
            action: Seq<char>,
        |
            #![trigger is_req_text(r@, client, seq, msg, blob, last), reads(action, 0)]
            is_req_text(r@, client, seq, msg, blob, last) && reads(client, h.client_id as int)
                && reads(seq, h.seq as int) && reads(msg, h.msg_len as int) && reads(
                blob,
                h.blob_len as int,
            ) && if h.action < 0x8000_0000 {
                last == ", action:"@ + action + "]"@ && reads(action, h.action as int)
            } else {
                last == "action_len:"@ + action + "]"@ && reads(action, h.action - 0x8000_0000)
            },
{
    let n: int = if h.action < 0x8000_0000 {
        h.action as int
    } else {
        h.action - 0x8000_0000
    };
    lemma_reads(h.client_id as int);
    lemma_reads(h.seq as int);
    lemma_reads(h.msg_len as int);
    lemma_reads(h.blob_len as int);
    lemma_reads(n);
    let client = decimal(h.client_id as nat);
    let seq = decimal(h.seq as nat);
    let msg = decimal(h.msg_len as nat);
    let blob = decimal(h.blob_len as nat);
    let action = signed_decimal(n);
    let last = if h.action < 0x8000_0000 {
        ", action:"@ + action + "]"@
    } else {
        "action_len:"@ + action + "]"@
    };
    assert(is_req_text(r@, client, seq, msg, blob, last));
    assert(reads(action, n));
    let zero = reads(action, 0);
}

/// Whether `t` is the text of the head of a response, with these numbers in it.
pub open spec fn is_resp_text(
    t: Seq<char>,
    seq: Seq<char>,
    flag: Seq<char>,
    msg: Seq<char>,
    blob: Seq<char>,
) -> bool {
    t == "[seq:"@ + seq + ", flag:"@ + flag + ", msg:"@ + msg + ", blob:"@ + blob + "]"@
}

/// The text of the head of a response tells its ID, its flag, and both lengths.
pub proof fn lemma_text_of_response(h: RespHead, r: String)
    requires
        call_ensures(RespHead::to_text, (&h,), r),
    ensures
        exists|seq: Seq<char>, flag: Seq<char>, msg: Seq<char>, blob: Seq<char>| #[trigger]
            is_resp_text(r@, seq, flag, msg, blob) && reads(seq, h.seq as int) && reads(
                flag,
                h.flag as int,
            ) && reads(msg, h.msg_len as int) && reads(blob, h.blob_len as int),
{
    lemma_reads(h.seq as int);
    lemma_reads(h.flag as int);
    lemma_reads(h.msg_len as int);
    lemma_reads(h.blob_len as int);
    assert(is_resp_text(
        r@,
        decimal(h.seq as nat),
        decimal(h.flag as nat),
        decimal(h.msg_len as nat),
        signed_decimal(h.blob_len as int),
    ));
}

/// The text of a client task tells its type, its ID, its request, and its response where it has
/// one.
pub proof fn lemma_text_of_client_task(
    name: &str,
    seq: u64,
    req: &str,
    resp: Option<&str>,
    r: String,
)
    requires
        call_ensures(crate::client::variant::describe_task, (name, seq, req, resp), r),
    ensures
        exists|id: Seq<char>|
            #![trigger reads(id, seq as int)]
            reads(id, seq as int) && r@ == name@ + "(seq="@ + id + " req="@ + req@ + match resp {
                Some(p) => " resp="@ + p@,
                None => Seq::empty(),
            } + ")"@,
{
    lemma_reads(seq as int);
    assert(reads(decimal(seq as nat), seq as int));
}

/// The text of a server task tells its ID, its action, its request, and its result where it has
/// one.
pub proof fn lemma_text_of_server_task(
    seq: u64,
    action: &str,
    req: &str,
    res: Option<Result<(), &str>>,
    r: String,
)
    requires
        call_ensures(crate::server::task::describe_task, (seq, action, req, res), r),
    ensures
        exists|id: Seq<char>|
            #![trigger reads(id, seq as int)]
            reads(id, seq as int) && r@ == "task seq="@ + id + " action="@ + action@ + " "@ + req@
                + match res {
                Some(Ok(_)) => " ok"@,
                Some(Err(e)) => " err: "@ + e@,
                None => Seq::empty(),
            },
{
    lemma_reads(seq as int);
    assert(reads(decimal(seq as nat), seq as int));
}

/// The text of a socket ends with its address where it has one, and else tells of which kind it
/// is.
pub proof fn lemma_text_of_socket(tcp: bool, addr: Option<&str>, r: String)
    requires
        call_ensures(describe_socket, (tcp, addr), r),
    ensures
        addr matches Some(a) ==> from_to(r@, "listener "@, a@),
        addr is None && tcp ==> from_to(r@, "tcp listener"@, "unknown"@),
        addr is None && !tcp ==> from_to(r@, "unix listener"@, "unknown"@),
{
    reveal_strlit("listener ");
    reveal_strlit("tcp listener");
    reveal_strlit("unix listener");
    reveal_strlit("unknown");
    reveal_strlit("tcp listener unknown");
    reveal_strlit("unix listener unknown");
    match addr {
        Some(a) => {
            assert(r@.subrange(0, 9) =~= "listener "@);
            assert(r@.subrange(r@.len() - a@.len(), r@.len() as int) =~= a@);
        },
        None => {
            if tcp {
                assert(r@.subrange(0, 12) =~= "tcp listener"@);
            } else {
                assert(r@.subrange(0, 13) =~= "unix listener"@);
            }
            assert(r@.subrange(r@.len() - 7, r@.len() as int) =~= "unknown"@);
        },
    }
}

/// What a message about a fault of a task type names: what it is about, first, and what is
/// missing or wrong, last.
pub open spec fn task_fault_names(e: TaskDefError) -> (Seq<char>, Seq<char>) {
    match e {
        TaskDefError::DuplicateDebug => ("Duplicate `debug`"@, "argument"@),
        TaskDefError::MultipleActions => ("Only one action "@, "specified."@),
        TaskDefError::MultipleActionFields => ("Only one #[field(action)]"@, "allowed."@),
        TaskDefError::BothActions => ("Cannot specify both"@, "attributes."@),
        TaskDefError::ResNotiApart => ("#[field(res)] and #[field(noti)]"@, "together."@),
        TaskDefError::MissingCommon => ("common field"@, "#[field(common)]"@),
        TaskDefError::MissingReq => ("req field"@, "#[field(req)]"@),
        TaskDefError::MissingResp => ("resp field"@, "#[field(resp)]"@),
        TaskDefError::RespNotOption => ("resp field"@, "Option<T>"@),
        TaskDefError::FieldActionType => ("Unsupported type"@, "#[field(action)]"@),
        TaskDefError::InvalidInt => ("Invalid integer literal"@, "action"@),
        TaskDefError::UnsupportedAction => ("Unsupported action type"@, "are supported."@),
        TaskDefError::ResNotPath => ("res field "@, "a path type"@),
        TaskDefError::ResNotOption => ("res field "@, "an Option"@),
        TaskDefError::OptionNoType => ("Option needs"@, "a type argument"@),
        TaskDefError::OptionNoArgs => ("Option needs"@, "angle bracketed arguments"@),
        TaskDefError::ResInnerNotResult => ("res field's inner type"@, "a Result"@),
        TaskDefError::ResNotOptionResult => ("res field "@, "Option<Result<...>>"@),
        TaskDefError::ResultNoArgs => ("Result needs"@, "angle bracketed arguments"@),
        TaskDefError::ResultNotTwo => ("Result needs"@, "two type arguments"@),
        TaskDefError::ResultOkNotUnit => ("Result's Ok type"@, "()"@),
        TaskDefError::ResultNoError => ("Could not get error type"@, "Result"@),
        TaskDefError::ErrorNotRpcError => ("Result's error type"@, "RpcError"@),
        TaskDefError::RpcErrorNoType => ("RpcError needs"@, "a type argument"@),
        TaskDefError::RpcErrorNoArgs => ("RpcError needs"@, "angle bracketed arguments"@),
        TaskDefError::NotiNotPath => ("noti field"@, "a path type"@),
        TaskDefError::NotiNotOption => ("noti field"@, "Option<MTx<T>>"@),
        TaskDefError::NotiInnerNotPath => ("Inner type of Option"@, "a path type"@),
        TaskDefError::NotiNotMTx => ("Inner type of Option"@, "MTx"@),
        TaskDefError::MTxNoType => ("MTx needs"@, "a type argument"@),
        TaskDefError::MTxNoArgs => ("MTx needs"@, "angle bracketed arguments"@),
    }
}

/// A message about a fault of a task type names what it is about and what is wrong; and where it
/// is about the field for the response, the struct and the field stand in front.
#[verifier::rlimit(50)]
pub proof fn lemma_messages_of_tasks(e: TaskDefError)
    ensures
        from_to(e.text(), task_fault_names(e).0, task_fault_names(e).1),
        forall|r: &'static str| #[trigger]
            call_ensures(TaskDefError::message, (&e,), r) ==> r@ == e.text(),
        forall|a: &str, b: &str, r: String| #[trigger]
            call_ensures(TaskDefError::describe, (&e, a, b), r) ==> if e is RespNotOption {
                r@ == "`"@ + a@ + "::"@ + b@ + "` "@ + e.text()
            } else {
                r@ == e.text()
            },
{
    let t = e.text();
    let a = task_fault_names(e).0;
    let b = task_fault_names(e).1;
    match e {
        TaskDefError::DuplicateDebug => {
            reveal_strlit("Duplicate `debug` attribute argument");
            reveal_strlit("Duplicate `debug`");
            reveal_strlit("argument");
            assert(t.subrange(0, a.len() as int) =~= a);
            assert(t.subrange(t.len() - b.len(), t.len() as int) =~= b);
        },
        TaskDefError::MultipleActions => {
            reveal_strlit("Only one action can be specified.");
            reveal_strlit("Only one action ");
            reveal_strlit("specified.");
            assert(t.subrange(0, a.len() as int) =~= a);
            assert(t.subrange(t.len() - b.len(), t.len() as int) =~= b);
        },
        TaskDefError::MultipleActionFields => {
            reveal_strlit("Only one #[field(action)] is allowed.");
            reveal_strlit("Only one #[field(action)]");
            reveal_strlit("allowed.");
            assert(t.subrange(0, a.len() as int) =~= a);
            assert(t.subrange(t.len() - b.len(), t.len() as int) =~= b);
        },
        TaskDefError::BothActions => {
            reveal_strlit("Cannot specify both #[field(action)] and #[client_task(action = ...)] attributes.");
            reveal_strlit("Cannot specify both");
            reveal_strlit("attributes.");
            assert(t.subrange(0, a.len() as int) =~= a);
            assert(t.subrange(t.len() - b.len(), t.len() as int) =~= b);
        },
        TaskDefError::ResNotiApart => {
            reveal_strlit("#[field(res)] and #[field(noti)] must be specified together.");
            reveal_strlit("#[field(res)] and #[field(noti)]");
            reveal_strlit("together.");
            assert(t.subrange(0, a.len() as int) =~= a);
            assert(t.subrange(t.len() - b.len(), t.len() as int) =~= b);
        },
        TaskDefError::MissingCommon => {
            reveal_strlit("common field must be tagged with #[field(common)]");
            reveal_strlit("common field");
            reveal_strlit("#[field(common)]");
            assert(t.subrange(0, a.len() as int) =~= a);
            assert(t.subrange(t.len() - b.len(), t.len() as int) =~= b);
        },
        TaskDefError::MissingReq => {
            reveal_strlit("req field must be tagged with #[field(req)]");
            reveal_strlit("req field");
            reveal_strlit("#[field(req)]");
            assert(t.subrange(0, a.len() as int) =~= a);
            assert(t.subrange(t.len() - b.len(), t.len() as int) =~= b);
        },
        TaskDefError::MissingResp => {
            reveal_strlit("resp field must be tagged with #[field(resp)]");
            reveal_strlit("resp field");
            reveal_strlit("#[field(resp)]");
            assert(t.subrange(0, a.len() as int) =~= a);
            assert(t.subrange(t.len() - b.len(), t.len() as int) =~= b);
        },
        TaskDefError::RespNotOption => {
            reveal_strlit("resp field must be of type Option<T>");
            reveal_strlit("resp field");
            reveal_strlit("Option<T>");
            assert(t.subrange(0, a.len() as int) =~= a);
            assert(t.subrange(t.len() - b.len(), t.len() as int) =~= b);
        },
        TaskDefError::FieldActionType => {
            reveal_strlit("Unsupported type for #[field(action)]");
            reveal_strlit("Unsupported type");
            reveal_strlit("#[field(action)]");
            assert(t.subrange(0, a.len() as int) =~= a);
            assert(t.subrange(t.len() - b.len(), t.len() as int) =~= b);
        },
        TaskDefError::InvalidInt => {
            reveal_strlit("Invalid integer literal for action");
            reveal_strlit("Invalid integer literal");
            reveal_strlit("action");
            assert(t.subrange(0, a.len() as int) =~= a);
            assert(t.subrange(t.len() - b.len(), t.len() as int) =~= b);
        },
        TaskDefError::UnsupportedAction => {
            reveal_strlit("Unsupported action type in #[action(...)]. Only string/integer literals and enum variants are supported.");
            reveal_strlit("Unsupported action type");
            reveal_strlit("are supported.");
            assert(t.subrange(0, a.len() as int) =~= a);
            assert(t.subrange(t.len() - b.len(), t.len() as int) =~= b);
        },
        TaskDefError::ResNotPath => {
            reveal_strlit("res field must be a path type");
            reveal_strlit("res field ");
            reveal_strlit("a path type");
            assert(t.subrange(0, a.len() as int) =~= a);
            assert(t.subrange(t.len() - b.len(), t.len() as int) =~= b);
        },
        TaskDefError::ResNotOption => {
            reveal_strlit("res field must be an Option");
            reveal_strlit("res field ");
            reveal_strlit("an Option");
            assert(t.subrange(0, a.len() as int) =~= a);
            assert(t.subrange(t.len() - b.len(), t.len() as int) =~= b);
        },
        TaskDefError::OptionNoType => {
            reveal_strlit("Option needs a type argument");
            reveal_strlit("Option needs");
            reveal_strlit("a type argument");
            assert(t.subrange(0, a.len() as int) =~= a);
            assert(t.subrange(t.len() - b.len(), t.len() as int) =~= b);
        },
        TaskDefError::OptionNoArgs => {
            reveal_strlit("Option needs angle bracketed arguments");
            reveal_strlit("Option needs");
            reveal_strlit("angle bracketed arguments");
            assert(t.subrange(0, a.len() as int) =~= a);
            assert(t.subrange(t.len() - b.len(), t.len() as int) =~= b);
        },
        TaskDefError::ResInnerNotResult => {
            reveal_strlit("res field's inner type must be a Result");
            reveal_strlit("res field's inner type");
            reveal_strlit("a Result");
            assert(t.subrange(0, a.len() as int) =~= a);
            assert(t.subrange(t.len() - b.len(), t.len() as int) =~= b);
        },
        TaskDefError::ResNotOptionResult => {
            reveal_strlit("res field must be an Option<Result<...>>");
            reveal_strlit("res field ");
            reveal_strlit("Option<Result<...>>");
            assert(t.subrange(0, a.len() as int) =~= a);
            assert(t.subrange(t.len() - b.len(), t.len() as int) =~= b);
        },
        TaskDefError::ResultNoArgs => {
            reveal_strlit("Result needs angle bracketed arguments");
            reveal_strlit("Result needs");
            reveal_strlit("angle bracketed arguments");
            assert(t.subrange(0, a.len() as int) =~= a);
            assert(t.subrange(t.len() - b.len(), t.len() as int) =~= b);
        },
        TaskDefError::ResultNotTwo => {
            reveal_strlit("Result needs two type arguments");
            reveal_strlit("Result needs");
            reveal_strlit("two type arguments");
            assert(t.subrange(0, a.len() as int) =~= a);
            assert(t.subrange(t.len() - b.len(), t.len() as int) =~= b);
        },
        TaskDefError::ResultOkNotUnit => {
            reveal_strlit("Result's Ok type must be ()");
            reveal_strlit("Result's Ok type");
            reveal_strlit("()");
            assert(t.subrange(0, a.len() as int) =~= a);
            assert(t.subrange(t.len() - b.len(), t.len() as int) =~= b);
        },
        TaskDefError::ResultNoError => {
            reveal_strlit("Could not get error type from Result");
            reveal_strlit("Could not get error type");
            reveal_strlit("Result");
            assert(t.subrange(0, a.len() as int) =~= a);
            assert(t.subrange(t.len() - b.len(), t.len() as int) =~= b);
        },
        TaskDefError::ErrorNotRpcError => {
            reveal_strlit("Result's error type must be RpcError");
            reveal_strlit("Result's error type");
            reveal_strlit("RpcError");
            assert(t.subrange(0, a.len() as int) =~= a);
            assert(t.subrange(t.len() - b.len(), t.len() as int) =~= b);
        },
        TaskDefError::RpcErrorNoType => {
            reveal_strlit("RpcError needs a type argument");
            reveal_strlit("RpcError needs");
            reveal_strlit("a type argument");
            assert(t.subrange(0, a.len() as int) =~= a);
            assert(t.subrange(t.len() - b.len(), t.len() as int) =~= b);
        },
        TaskDefError::RpcErrorNoArgs => {
            reveal_strlit("RpcError needs angle bracketed arguments");
            reveal_strlit("RpcError needs");
            reveal_strlit("angle bracketed arguments");
            assert(t.subrange(0, a.len() as int) =~= a);
            assert(t.subrange(t.len() - b.len(), t.len() as int) =~= b);
        },
        TaskDefError::NotiNotPath => {
            reveal_strlit("noti field must be a path type");
            reveal_strlit("noti field");
            reveal_strlit("a path type");
            assert(t.subrange(0, a.len() as int) =~= a);
            assert(t.subrange(t.len() - b.len(), t.len() as int) =~= b);
        },
        TaskDefError::NotiNotOption => {
            reveal_strlit("noti field must be of type Option<MTx<T>>");
            reveal_strlit("noti field");
            reveal_strlit("Option<MTx<T>>");
            assert(t.subrange(0, a.len() as int) =~= a);
            assert(t.subrange(t.len() - b.len(), t.len() as int) =~= b);
        },
        TaskDefError::NotiInnerNotPath => {
            reveal_strlit("Inner type of Option must be a path type");
            reveal_strlit("Inner type of Option");
            reveal_strlit("a path type");
            assert(t.subrange(0, a.len() as int) =~= a);
            assert(t.subrange(t.len() - b.len(), t.len() as int) =~= b);
        },
        TaskDefError::NotiNotMTx => {
            reveal_strlit("Inner type of Option must be MTx");
            reveal_strlit("Inner type of Option");
            reveal_strlit("MTx");
            assert(t.subrange(0, a.len() as int) =~= a);
            assert(t.subrange(t.len() - b.len(), t.len() as int) =~= b);
        },
        TaskDefError::MTxNoType => {
            reveal_strlit("MTx needs a type argument");
            reveal_strlit("MTx needs");
            reveal_strlit("a type argument");
            assert(t.subrange(0, a.len() as int) =~= a);
            assert(t.subrange(t.len() - b.len(), t.len() as int) =~= b);
        },
        TaskDefError::MTxNoArgs => {
            reveal_strlit("MTx needs angle bracketed arguments");
            reveal_strlit("MTx needs");
            reveal_strlit("angle bracketed arguments");
            assert(t.subrange(0, a.len() as int) =~= a);
            assert(t.subrange(t.len() - b.len(), t.len() as int) =~= b);
        },
    }
}

/// What a message about a fault of an enum of server tasks names.
pub open spec fn server_fault_names(e: ServerEnumError) -> (Seq<char>, Seq<char>) {
    match e {
        ServerEnumError::UnknownArg(_) => ("Unsupported attribute"@, "argument"@),
        ServerEnumError::NoRole => ("#[server_task_enum] requires"@, "`req` or `resp`"@),
        ServerEnumError::MissingRespType => (
            "#[server_task_enum] requires `resp_type"@,
            "where only `req` is given"@,
        ),
        ServerEnumError::MissingError => (
            "#[server_task_enum] requires"@,
            "`error = <Type>` attribute"@,
        ),
        ServerEnumError::NotEnum => ("#[server_task_enum] can only"@, "to enums"@),
        ServerEnumError::NotSingleField(_) => ("Enum variants"@, "with a single field"@),
        ServerEnumError::UnsupportedAction(_) => ("Unsupported action"@, "type"@),
        ServerEnumError::MissingAction(_) => ("Each variant must"@, "#[action(...)] attribute"@),
    }
}

/// A message about a fault of an enum of server tasks names what it is about and what is wrong.
pub proof fn lemma_messages_of_server_enums(e: ServerEnumError)
    ensures
        from_to(e.text(), server_fault_names(e).0, server_fault_names(e).1),
        forall|r: &'static str| #[trigger]
            call_ensures(ServerEnumError::message, (&e,), r) ==> r@ == e.text(),
{
    let t = e.text();
    let a = server_fault_names(e).0;
    let b = server_fault_names(e).1;
    match e {
        ServerEnumError::UnknownArg(_) => {
            reveal_strlit("Unsupported attribute argument");
            reveal_strlit("Unsupported attribute");
            reveal_strlit("argument");
            assert(t.subrange(0, a.len() as int) =~= a);
            assert(t.subrange(t.len() - b.len(), t.len() as int) =~= b);
        },
        ServerEnumError::NoRole => {
            reveal_strlit("#[server_task_enum] requires `req` or `resp`");
            reveal_strlit("#[server_task_enum] requires");
            reveal_strlit("`req` or `resp`");
            assert(t.subrange(0, a.len() as int) =~= a);
            assert(t.subrange(t.len() - b.len(), t.len() as int) =~= b);
        },
        ServerEnumError::MissingRespType => {
            reveal_strlit("#[server_task_enum] requires `resp_type = <Type>` where only `req` is given");
            reveal_strlit("#[server_task_enum] requires `resp_type");
            reveal_strlit("where only `req` is given");
            assert(t.subrange(0, a.len() as int) =~= a);
            assert(t.subrange(t.len() - b.len(), t.len() as int) =~= b);
        },
        ServerEnumError::MissingError => {
            reveal_strlit("#[server_task_enum] requires an `error = <Type>` attribute");
            reveal_strlit("#[server_task_enum] requires");
            reveal_strlit("`error = <Type>` attribute");
            assert(t.subrange(0, a.len() as int) =~= a);
            assert(t.subrange(t.len() - b.len(), t.len() as int) =~= b);
        },
        ServerEnumError::NotEnum => {
            reveal_strlit("#[server_task_enum] can only be applied to enums");
            reveal_strlit("#[server_task_enum] can only");
            reveal_strlit("to enums");
            assert(t.subrange(0, a.len() as int) =~= a);
            assert(t.subrange(t.len() - b.len(), t.len() as int) =~= b);
        },
        ServerEnumError::NotSingleField(_) => {
            reveal_strlit("Enum variants must be tuple-style with a single field");
            reveal_strlit("Enum variants");
            reveal_strlit("with a single field");
            assert(t.subrange(0, a.len() as int) =~= a);
            assert(t.subrange(t.len() - b.len(), t.len() as int) =~= b);
        },
        ServerEnumError::UnsupportedAction(_) => {
            reveal_strlit("Unsupported action type");
            reveal_strlit("Unsupported action");
            reveal_strlit("type");
            assert(t.subrange(0, a.len() as int) =~= a);
            assert(t.subrange(t.len() - b.len(), t.len() as int) =~= b);
        },
        ServerEnumError::MissingAction(_) => {
            reveal_strlit("Each variant must have an #[action(...)] attribute");
            reveal_strlit("Each variant must");
            reveal_strlit("#[action(...)] attribute");
            assert(t.subrange(0, a.len() as int) =~= a);
            assert(t.subrange(t.len() - b.len(), t.len() as int) =~= b);
        },
    }
}

/// A message about a fault of an enum of client tasks names what it is about; and where two
/// variants hold tasks of one type, it names the type and the enum.
pub proof fn lemma_messages_of_client_enums(
    e: EnumDefError,
    name: &str,
    variants: Vec<VariantDesc>,
    r: String,
)
    requires
        call_ensures(EnumDefError::describe, (&e, name, &variants), r),
    ensures
        match e {
            EnumDefError::MissingError => from_to(
                r@,
                "#[client_task_enum] requires"@,
                "`error = <Type>` attribute"@,
            ),
            EnumDefError::NotEnum => from_to(r@, "#[client_task_enum] can only"@, "to enums"@),
            EnumDefError::NotSingleField(_) => from_to(
                r@,
                "Enum variants"@,
                "with a single field"@,
            ),
            EnumDefError::DuplicateType(i) => from_to(
                r@,
                "Duplicate sub-type `"@ + variants@[i as int].inner->0@ + "` found in enum `"@
                    + name@ + "`"@,
                "for duplicate sub-types."@,
            ),
            EnumDefError::MultipleActions(_) => from_to(
                r@,
                "Only one action"@,
                "per variant"@,
            ),
            EnumDefError::UnsupportedAction(_) => from_to(r@, "Unsupported action"@, "type"@),
        },
{
    let t = r@;
    match e {
        EnumDefError::MissingError => {
            reveal_strlit("#[client_task_enum] requires an `error = <Type>` attribute");
            reveal_strlit("#[client_task_enum] requires");
            reveal_strlit("`error = <Type>` attribute");
            let a = "#[client_task_enum] requires"@;
            let b = "`error = <Type>` attribute"@;
            assert(t.subrange(0, a.len() as int) =~= a);
            assert(t.subrange(t.len() - b.len(), t.len() as int) =~= b);
        },
        EnumDefError::NotEnum => {
            reveal_strlit("#[client_task_enum] can only be applied to enums");
            reveal_strlit("#[client_task_enum] can only");
            reveal_strlit("to enums");
            let a = "#[client_task_enum] can only"@;
            let b = "to enums"@;
            assert(t.subrange(0, a.len() as int) =~= a);
            assert(t.subrange(t.len() - b.len(), t.len() as int) =~= b);
        },
        EnumDefError::NotSingleField(_) => {
            reveal_strlit("Enum variants must be tuple-style with a single field");
            reveal_strlit("Enum variants");
            reveal_strlit("with a single field");
            let a = "Enum variants"@;
            let b = "with a single field"@;
            assert(t.subrange(0, a.len() as int) =~= a);
            assert(t.subrange(t.len() - b.len(), t.len() as int) =~= b);
        },
        EnumDefError::DuplicateType(i) => {
            reveal_strlit(
                "`. `From` implementation cannot be generated for duplicate sub-types.",
            );
            reveal_strlit("`");
            reveal_strlit("for duplicate sub-types.");
            let tail = "`. `From` implementation cannot be generated for duplicate sub-types."@;
            let front = "Duplicate sub-type `"@ + variants@[i as int].inner->0@
                + "` found in enum `"@ + name@;
            let a = front + "`"@;
            let b = "for duplicate sub-types."@;
            assert(t == front + tail);
            assert(t.subrange(0, a.len() as int) =~= a);
            assert(t.subrange(t.len() - b.len(), t.len() as int) =~= b);
        },
        EnumDefError::MultipleActions(_) => {
            reveal_strlit("Only one action is allowed per variant");
            reveal_strlit("Only one action");
            reveal_strlit("per variant");
            let a = "Only one action"@;
            let b = "per variant"@;
            assert(t.subrange(0, a.len() as int) =~= a);
            assert(t.subrange(t.len() - b.len(), t.len() as int) =~= b);
        },
        EnumDefError::UnsupportedAction(_) => {
            reveal_strlit("Unsupported action type");
            reveal_strlit("Unsupported action");
            reveal_strlit("type");
            let a = "Unsupported action"@;
            let b = "type"@;
            assert(t.subrange(0, a.len() as int) =~= a);
            assert(t.subrange(t.len() - b.len(), t.len() as int) =~= b);
        },
    }
}

} // verus!
