//! Declaring an enum of server tasks.

use crate::declare::client_task_enum::{ActionAttr, VariantDesc};
use crate::declare::server_task_enum::{
    all_actions, arg_value, first_error, has_arg, known_arg, listed, no_variant_for, select_variant,
    server_task_enum_impl, server_views, tell_action, text_of, unknown_arg, variant_error,
    variant_for, lists, written_action, EnumArg, ServerAction, ServerEnumError, ServerEnumPlan,
};
use crate::declare::syntax::ActionDesc;
use crate::proto::{ActionSpec, RpcAction, RpcActionOwned};
use vstd::prelude::*;

verus! {

/// What the attributes of a variant list is what each of them lists, one after another; an
/// attribute without brackets lists nothing.
pub proof fn lemma_listed(a: Seq<ActionAttr>, b: Seq<ActionAttr>, l: Vec<ActionDesc>)
    ensures
        listed(a + b) == listed(a) + listed(b),
        listed(seq![ActionAttr::List(l)]) == l@,
        listed(seq![ActionAttr::NotList]).len() == 0,
        listed(Seq::empty()).len() == 0,
    decreases b.len(),
{
    let one = seq![ActionAttr::List(l)];
    reveal_with_fuel(listed, 2);
    assert(one.drop_last() =~= Seq::<ActionAttr>::empty());
    assert(Seq::<ActionDesc>::empty() + l@ =~= l@);
    let not = seq![ActionAttr::NotList];
    assert(not.drop_last() =~= Seq::<ActionAttr>::empty());
    if b.len() == 0 {
        assert(a + b =~= a);
        assert(listed(a) + listed(b) =~= listed(a));
    } else {
        lemma_listed(a, b.drop_last(), l);
        assert((a + b).drop_last() =~= a + b.drop_last());
        let last = match b.last() {
            ActionAttr::List(l) => l@,
            ActionAttr::NotList => Seq::<ActionDesc>::empty(),
        };
        assert(listed(a) + listed(b.drop_last()) + last =~= listed(a) + (listed(b.drop_last())
            + last));
    }
}

/// Whether an item stands for an action: a number, a string, or a name.
pub open spec fn is_action_item(d: ActionDesc) -> bool {
    d is Int || d is Str || d is Path
}

/// Whether an argument is given under this name.
pub open spec fn named(args: Seq<EnumArg>, name: Seq<char>) -> bool {
    exists|i: int| 0 <= i < args.len() && (#[trigger] args[i]).name@ == name
}

/// Whether an argument is given under this name, with a value.
pub open spec fn valued(args: Seq<EnumArg>, name: Seq<char>) -> bool {
    exists|i: int|
        0 <= i < args.len() && (#[trigger] args[i]).name@ == name && args[i].value is Some
}

/// Whether a name is one that an argument may have.
pub open spec fn may_be_named(name: Seq<char>) -> bool {
    name == "req"@ || name == "resp"@ || name == "resp_type"@ || name == "error"@
}

/// Whether a variant can stand in an enum that takes requests, where `req` says so, or only gives
/// responses.
pub open spec fn variant_fits(v: VariantDesc, req: bool) -> bool {
    &&& v.inner is Some
    &&& req ==> listed(v.actions@).len() > 0 && forall|k: int|
        0 <= k < listed(v.actions@).len() ==> is_action_item(#[trigger] listed(v.actions@)[k])
}

proof fn lemma_arg_value(args: Seq<EnumArg>, name: Seq<char>)
    ensures
        arg_value(args, name) is Some <==> valued(args, name),
        forall|i: int|
            0 <= i < args.len() && (#[trigger] args[i]).name@ == name && args[i].value is Some && (
            forall|j: int|
                i < j < args.len() ==> !((#[trigger] args[j]).name@ == name && args[j].value
                    is Some)) ==> arg_value(args, name) == Some(args[i].value->0@),
    decreases args.len(),
{
    if args.len() > 0 {
        let head = args.drop_last();
        lemma_arg_value(head, name);
        let n = args.len() - 1;
        assert(forall|i: int| 0 <= i < n ==> head[i] == #[trigger] args[i]);
        if args[n].name@ == name && args[n].value is Some {
            assert(valued(args, name));
        } else {
            if valued(args, name) {
                let i = choose|i: int|
                    0 <= i < args.len() && (#[trigger] args[i]).name@ == name && args[i].value
                        is Some;
                assert(head[i] == args[i]);
                assert(valued(head, name));
            }
            if valued(head, name) {
                let i = choose|i: int|
                    0 <= i < head.len() && (#[trigger] head[i]).name@ == name && head[i].value
                        is Some;
                assert(args[i].name@ == name);
            }
        }
        assert forall|i: int|
            0 <= i < args.len() && (#[trigger] args[i]).name@ == name && args[i].value is Some && (
            forall|j: int|
                i < j < args.len() ==> !((#[trigger] args[j]).name@ == name && args[j].value
                    is Some)) implies arg_value(args, name) == Some(args[i].value->0@) by {
            if i < n {
                assert(head[i] == args[i]);
                assert(!(args[n].name@ == name && args[n].value is Some));
                assert forall|j: int| i < j < head.len() implies !((#[trigger] head[j]).name@
                    == name && head[j].value is Some) by {
                    assert(args[j] == head[j]);
                }
            }
        }
    }
}

proof fn lemma_unknown_arg(args: Seq<EnumArg>)
    requires
        args.len() <= usize::MAX,
    ensures
        match unknown_arg(args) {
            None => forall|i: int| 0 <= i < args.len() ==> may_be_named((#[trigger] args[i]).name@),
            Some(k) => k < args.len() && !may_be_named(args[k as int].name@) && forall|i: int|
                0 <= i < k ==> may_be_named((#[trigger] args[i]).name@),
        },
    decreases args.len(),
{
    if args.len() > 0 {
        let head = args.drop_last();
        lemma_unknown_arg(head);
        assert(forall|i: int| 0 <= i < head.len() ==> head[i] == #[trigger] args[i]);
        assert(known_arg(args.last()) == may_be_named(args.last().name@));
    }
}

proof fn lemma_variant_error(v: VariantDesc, req: bool, i: usize)
    ensures
        variant_error(v, req, i) is None <==> variant_fits(v, req),
{
    let ds = listed(v.actions@);
    assert(all_actions(ds) <==> forall|k: int|
        0 <= k < ds.len() ==> is_action_item(#[trigger] ds[k])) by {
        if all_actions(ds) {
            assert forall|k: int| 0 <= k < ds.len() implies is_action_item(#[trigger] ds[k]) by {
                assert(written_action(ds[k]) is Some);
            }
        }
        if forall|k: int| 0 <= k < ds.len() ==> is_action_item(#[trigger] ds[k]) {
            assert forall|k: int| 0 <= k < ds.len() implies written_action(
                #[trigger] ds[k],
            ) is Some by {
                assert(is_action_item(ds[k]));
            }
        }
    }
}

proof fn lemma_first_error(vs: Seq<VariantDesc>, req: bool)
    requires
        vs.len() <= usize::MAX,
    ensures
        match first_error(vs, req) {
            None => forall|i: int| 0 <= i < vs.len() ==> variant_fits(#[trigger] vs[i], req),
            Some(e) => exists|i: int|
                0 <= i < vs.len() && !variant_fits(#[trigger] vs[i], req) && variant_error(
                    vs[i],
                    req,
                    i as usize,
                ) == Some(e) && forall|j: int| 0 <= j < i ==> variant_fits(#[trigger] vs[j], req),
        },
    decreases vs.len(),
{
    if vs.len() > 0 {
        let head = vs.drop_last();
        let n = vs.len() - 1;
        lemma_first_error(head, req);
        lemma_variant_error(vs.last(), req, n as usize);
        assert(forall|i: int| 0 <= i < n ==> head[i] == #[trigger] vs[i]);
        match first_error(head, req) {
            Some(e) => {
                let i = choose|i: int|
                    0 <= i < head.len() && !variant_fits(#[trigger] head[i], req) && variant_error(
                        head[i],
                        req,
                        i as usize,
                    ) == Some(e) && forall|j: int|
                        0 <= j < i ==> variant_fits(#[trigger] head[j], req);
                assert(vs[i] == head[i]);
                assert forall|j: int| 0 <= j < i implies variant_fits(#[trigger] vs[j], req) by {
                    assert(head[j] == vs[j]);
                }
            },
            None => {
                assert forall|j: int| 0 <= j < n implies variant_fits(#[trigger] vs[j], req) by {
                    assert(head[j] == vs[j]);
                }
                assert(vs[n] == vs.last());
            },
        }
    }
}

/// An enum is accepted exactly if all its arguments have a known name; it takes requests or gives
/// responses; it names an error type where it gives responses, and a type that goes to the writer
/// where it does not; and each variant holds one task and, where requests are taken, lists
/// actions, and nothing but actions. What is to be implemented is what the arguments say, the
/// last of each name being the one that counts.
pub proof fn lemma_server_enum_is_accepted(
    args: Vec<EnumArg>,
    variants: Vec<VariantDesc>,
    r: Result<ServerEnumPlan, ServerEnumError>,
)
    requires
        call_ensures(server_task_enum_impl, (&args, Some(&variants)), r),
    ensures
        ({
            let req = named(args@, "req"@);
            let resp = named(args@, "resp"@);
            &&& r is Ok <==> {
                &&& forall|i: int|
                    0 <= i < args@.len() ==> may_be_named((#[trigger] args@[i]).name@)
                &&& req || resp
                &&& resp ==> valued(args@, "error"@)
                &&& !resp ==> valued(args@, "resp_type"@)
                &&& forall|i: int|
                    0 <= i < variants@.len() ==> variant_fits(#[trigger] variants@[i], req)
            }
            &&& r matches Ok(p) ==> {
                &&& p.decode <==> req
                &&& p.encode <==> resp
                &&& p.actions@.len() == variants@.len()
                &&& p.resp_type is Some <==> !resp
                &&& p.error_type is Some <==> valued(args@, "error"@)
                &&& forall|i: int|
                    0 <= i < args@.len() && (#[trigger] args@[i]).value is Some && args@[i].name@
                        == "error"@ && (forall|j: int|
                        i < j < args@.len() ==> !((#[trigger] args@[j]).name@ == "error"@
                            && args@[j].value is Some)) ==> p.error_type->0@
                        == args@[i].value->0@
                &&& forall|i: int|
                    !resp && 0 <= i < args@.len() && (#[trigger] args@[i]).value is Some
                        && args@[i].name@ == "resp_type"@ && (forall|j: int|
                        i < j < args@.len() ==> !((#[trigger] args@[j]).name@ == "resp_type"@
                            && args@[j].value is Some)) ==> p.resp_type->0@
                        == args@[i].value->0@
            }
        }),
{
    let req = named(args@, "req"@);
    assert(req == has_arg(args@, "req"@));
    assert(named(args@, "resp"@) == has_arg(args@, "resp"@));
    assert(args@.len() == args.len());
    assert(variants@.len() == variants.len());
    lemma_unknown_arg(args@);
    lemma_arg_value(args@, "error"@);
    lemma_arg_value(args@, "resp_type"@);
    lemma_first_error(variants@, req);
    match r {
        Ok(p) => {
            assert(p@.error_type == text_of(p.error_type));
            assert(p@.resp_type == text_of(p.resp_type));
            assert(p@.actions.len() == p.actions@.len());
        },
        Err(_) => {},
    }
}

/// The variant that an error is about.
pub open spec fn wrong_variant(e: ServerEnumError) -> Option<usize> {
    match e {
        ServerEnumError::NotSingleField(i) => Some(i),
        ServerEnumError::UnsupportedAction(i) => Some(i),
        ServerEnumError::MissingAction(i) => Some(i),
        _ => None,
    }
}

/// Why an enum is refused: an argument with an unknown name first, the first such; then that
/// there is nothing to implement; then a type that is missing; then that it is no enum; and then
/// the first variant that does not fit, which holds not one task, or lists what is no action, or
/// lists nothing.
pub proof fn lemma_server_enum_is_refused(
    args: Vec<EnumArg>,
    variants: Option<&Vec<VariantDesc>>,
    r: Result<ServerEnumPlan, ServerEnumError>,
)
    requires
        call_ensures(server_task_enum_impl, (&args, variants), r),
        r is Err,
    ensures
        ({
            let req = named(args@, "req"@);
            let resp = named(args@, "resp"@);
            let e = r->Err_0;
            let typed = (resp ==> valued(args@, "error"@)) && (!resp ==> valued(
                args@,
                "resp_type"@,
            ));
            &&& !(e is UnknownArg) ==> forall|i: int|
                0 <= i < args@.len() ==> may_be_named((#[trigger] args@[i]).name@)
            &&& e is NotEnum || wrong_variant(e) is Some ==> (req || resp) && typed
            &&& (wrong_variant(e) matches Some(i) ==> forall|j: int|
                0 <= j < i ==> variant_fits(#[trigger] variants->0@[j], req))
            &&& match e {
                ServerEnumError::UnknownArg(k) => k < args@.len() && !may_be_named(
                    args@[k as int].name@,
                ) && forall|i: int| 0 <= i < k ==> may_be_named((#[trigger] args@[i]).name@),
                ServerEnumError::NoRole => !req && !resp,
                ServerEnumError::MissingRespType => req && !resp && !valued(args@, "resp_type"@),
                ServerEnumError::MissingError => resp && !valued(args@, "error"@),
                ServerEnumError::NotEnum => variants is None,
                ServerEnumError::NotSingleField(i) => (variants matches Some(vs) && i < vs@.len()
                    && vs@[i as int].inner is None),
                ServerEnumError::UnsupportedAction(i) => (variants matches Some(vs) && i < vs@.len()
                    && req && vs@[i as int].inner is Some && exists|k: int|
                    0 <= k < listed(vs@[i as int].actions@).len() && !is_action_item(
                        #[trigger] listed(vs@[i as int].actions@)[k],
                    )),
                ServerEnumError::MissingAction(i) => (variants matches Some(vs) && i < vs@.len()
                    && req && vs@[i as int].inner is Some && listed(vs@[i as int].actions@).len()
                    == 0),
            }
        }),
{
    let req = named(args@, "req"@);
    assert(req == has_arg(args@, "req"@));
    assert(named(args@, "resp"@) == has_arg(args@, "resp"@));
    assert(args@.len() == args.len());
    lemma_unknown_arg(args@);
    lemma_arg_value(args@, "error"@);
    lemma_arg_value(args@, "resp_type"@);
    if let Some(vs) = variants {
        assert(vs@.len() == vs.len());
        lemma_first_error(vs@, req);
        if let Some(e) = first_error(vs@, req) {
            let i = choose|i: int|
                0 <= i < vs@.len() && !variant_fits(#[trigger] vs@[i], req) && variant_error(
                    vs@[i],
                    req,
                    i as usize,
                ) == Some(e) && forall|j: int|
                    0 <= j < i ==> variant_fits(#[trigger] vs@[j], req);
            let ds = listed(vs@[i].actions@);
            if e is UnsupportedAction {
                let k = choose|k: int|
                    0 <= k < ds.len() && !(written_action(#[trigger] ds[k]) is Some);
                assert(!is_action_item(ds[k]));
            }
        }
    }
}

/// What the variants of an accepted enum that takes requests say: each lists as many actions as
/// are written for it, in order. An integer means its number and a path the number that goes by
/// this name, whatever the number is; only a string literal means a name, and just this one. An
/// enum that takes no requests lists none.
pub proof fn lemma_actions_mean_what_is_written(
    args: Vec<EnumArg>,
    variants: Vec<VariantDesc>,
    p: ServerEnumPlan,
    i: int,
)
    requires
        call_ensures(
            server_task_enum_impl,
            (&args, Some(&variants)),
            Ok::<ServerEnumPlan, ServerEnumError>(p),
        ),
        0 <= i < variants@.len(),
    ensures
        i < p.actions@.len(),
        !p.decode ==> p.actions@[i]@.len() == 0,
        p.decode ==> {
            let ds = listed(variants@[i].actions@);
            let acts = p.actions@[i]@;
            &&& acts.len() == ds.len() > 0
            &&& forall|k: int|
                0 <= k < ds.len() ==> match #[trigger] ds[k] {
                    ActionDesc::Int(s, _) => acts[k] matches ServerAction::Int(t) && t@ == s@,
                    ActionDesc::Path(s) => acts[k] matches ServerAction::Path(t) && t@ == s@,
                    ActionDesc::Str(s) => acts[k] matches ServerAction::Str(t) && t@ == s@,
                    _ => false,
                }
            &&& forall|k: int, n: i32, a: RpcActionOwned|
                0 <= k < ds.len() && #[trigger] call_ensures(
                    ServerAction::action,
                    (&acts[k], n),
                    a,
                ) ==> match ds[k] {
                    ActionDesc::Int(_, _) => a@ == ActionSpec::Num(n),
                    ActionDesc::Path(_) => a@ == ActionSpec::Num(n),
                    ActionDesc::Str(s) => a@ == ActionSpec::Str(s@),
                    _ => false,
                }
        },
{
    let r = Ok::<ServerEnumPlan, ServerEnumError>(p);
    lemma_server_enum_is_accepted(args, variants, r);
    let req = named(args@, "req"@);
    assert(req == has_arg(args@, "req"@));
    assert(variant_fits(variants@[i], req));
    let ds = listed(variants@[i].actions@);
    let acts = p.actions@[i]@;
    assert(p@.actions[i] == server_views(acts));
    if p.decode {
        assert(server_views(acts).len() == ds.len());
        assert forall|k: int| 0 <= k < ds.len() implies match #[trigger] ds[k] {
            ActionDesc::Int(s, _) => acts[k] matches ServerAction::Int(t) && t@ == s@,
            ActionDesc::Path(s) => acts[k] matches ServerAction::Path(t) && t@ == s@,
            ActionDesc::Str(s) => acts[k] matches ServerAction::Str(t) && t@ == s@,
            _ => false,
        } by {
            assert(is_action_item(ds[k]));
            assert(server_views(acts)[k] == acts[k]@);
            assert(Some(acts[k]@) == written_action(ds[k]));
        }
        assert forall|k: int, n: i32, a: RpcActionOwned|
            0 <= k < ds.len() && #[trigger] call_ensures(
                ServerAction::action,
                (&acts[k], n),
                a,
            ) implies match ds[k] {
            ActionDesc::Int(_, _) => a@ == ActionSpec::Num(n),
            ActionDesc::Path(_) => a@ == ActionSpec::Num(n),
            ActionDesc::Str(s) => a@ == ActionSpec::Str(s@),
            _ => false,
        } by {
            let d = ds[k];
        }
    } else {
        assert(server_views(acts).len() == 0);
    }
}

/// The action that is meant: a string means itself, and anything else the number that is given.
pub proof fn lemma_meant_action(a: ServerAction, n: i32, r: RpcActionOwned)
    requires
        call_ensures(ServerAction::action, (&a, n), r),
    ensures
        a matches ServerAction::Str(s) ==> r@ == ActionSpec::Str(s@),
        !(a is Str) ==> r@ == ActionSpec::Num(n),
{
}

/// A request goes to the first variant among whose actions the one that it asks for is, and to
/// none exactly if it is among those of no variant.
pub proof fn lemma_request_finds_its_variant(
    table: Vec<Vec<RpcActionOwned>>,
    action: RpcAction<'_>,
    r: Option<usize>,
)
    requires
        call_ensures(select_variant, (&table, &action), r),
    ensures
        match r {
            Some(i) => {
                &&& i < table@.len()
                &&& exists|k: int|
                    0 <= k < table@[i as int]@.len() && (#[trigger] table@[i as int]@[k])@
                        == action@
                &&& forall|j: int, k: int|
                    0 <= j < i && 0 <= k < table@[j]@.len() ==> (#[trigger] table@[j]@[k])@
                        != action@
            },
            None => forall|j: int, k: int|
                0 <= j < table@.len() && 0 <= k < table@[j]@.len() ==> (
                #[trigger] table@[j]@[k])@ != action@,
        },
{
    match r {
        Some(i) => {
            assert(variant_for(table@, action@, i as int));
            assert forall|j: int, k: int| 0 <= j < i && 0 <= k < table@[j]@.len() implies (
            #[trigger] table@[j]@[k])@ != action@ by {
                let row = table@[j];
                assert(!lists(row@, action@));
            }
        },
        None => {
            assert(no_variant_for(table@, action@));
            assert forall|j: int, k: int|
                0 <= j < table@.len() && 0 <= k < table@[j]@.len() implies (
            #[trigger] table@[j]@[k])@ != action@ by {
                let row = table@[j];
                if row@[k]@ == action@ {
                    assert(lists(row@, action@));
                }
            }
        },
    }
}

/// A task in a variant with one action tells this one, whatever the task inside says; with none or
/// several it tells what the task inside says, if that says anything.
pub proof fn lemma_variant_tells_action(
    actions: Vec<RpcActionOwned>,
    inner: Option<RpcAction<'_>>,
    r: Option<RpcAction<'_>>,
)
    requires
        call_ensures(tell_action, (&actions, inner), r),
    ensures
        actions@.len() == 1 ==> (r matches Some(a) && a@ == actions@[0]@),
        actions@.len() != 1 ==> (r is Some <==> inner is Some),
        actions@.len() != 1 && r is Some ==> r->0@ == inner->0@,
{
}

} // verus!
