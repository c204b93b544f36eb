//! Declaring client tasks.

use crate::declare::client_task::{
    check_option_inner_type, client_task_impl, field_role, field_with, is_ident, is_option,
    noti_inner_type, plan, plan_done, read_args, read_roles, read_task_arg,
    result_error_type, role_count, role_named, role_names, role_uses, ActionPlan, ClientTaskPlan,
    FieldDesc, FieldRole, TaskArg, TaskDefError,
};
use crate::declare::syntax::{
    get_first_type, get_last_segment, read_action, ActionDesc, ArgDesc, MetaDesc,
    SegmentDesc, TypeDesc,
};
use crate::proto::{ActionSpec, RpcAction};
use vstd::prelude::*;

verus! {

/// An item is read as what it is: a string, an integer with its value, a path, or nothing that is
/// known.
pub proof fn lemma_item_is_read(m: MetaDesc, r: ActionDesc)
    requires
        call_ensures(read_action, (m,), r),
    ensures
        m matches MetaDesc::Str(s) ==> r == ActionDesc::Str(s),
        m matches MetaDesc::Int(s, n) ==> r == ActionDesc::Int(s, n),
        m matches MetaDesc::Path(p, _) ==> r == ActionDesc::Path(p),
        m is OtherLit <==> r is OtherLit,
        m is Other <==> r is OtherMeta,
{
}

/// An argument is `debug` exactly if it is this identifier alone, and else an action.
pub proof fn lemma_argument_is_read(m: MetaDesc, r: TaskArg)
    requires
        call_ensures(read_task_arg, (m,), r),
    ensures
        r is Debug <==> (m matches MetaDesc::Path(_, Some(i)) && i@ == "debug"@),
        r matches TaskArg::Action(a) ==> {
            &&& m matches MetaDesc::Str(s) ==> a == ActionDesc::Str(s)
            &&& m matches MetaDesc::Int(s, n) ==> a == ActionDesc::Int(s, n)
            &&& m matches MetaDesc::Path(p, _) ==> a == ActionDesc::Path(p)
            &&& m is OtherLit ==> a is OtherLit
            &&& m is Other ==> a is OtherMeta
        },
{
    assert(is_ident(m, "debug"@) == (m matches MetaDesc::Path(_, Some(i)) && i@ == "debug"@));
}

/// The identifiers in the brackets of an attribute are the names of roles, in order; whatever else
/// stands there says nothing.
pub proof fn lemma_role_names(a: Seq<MetaDesc>, b: Seq<MetaDesc>, m: MetaDesc)
    ensures
        role_names(a + b) == role_names(a) + role_names(b),
        m matches MetaDesc::Path(_, Some(i)) ==> role_names(seq![m]) == seq![i@],
        !(m matches MetaDesc::Path(_, Some(_))) ==> role_names(seq![m]).len() == 0,
        role_names(Seq::empty()).len() == 0,
    decreases b.len(),
{
    reveal_with_fuel(role_names, 2);
    assert(seq![m].drop_last() =~= Seq::<MetaDesc>::empty());
    if b.len() == 0 {
        assert(a + b =~= a);
        assert(role_names(a) + role_names(b) =~= role_names(a));
    } else {
        lemma_role_names(a, b.drop_last(), m);
        assert((a + b).drop_last() =~= a + b.drop_last());
        if let MetaDesc::Path(_, Some(i)) = b.last() {
            assert((role_names(a) + role_names(b.drop_last())).push(i@) =~= role_names(a)
                + role_names(b.drop_last()).push(i@));
        }
    }
}

/// Reading the roles of one attribute after those of another keeps those that are there.
pub proof fn lemma_roles_are_appended(items: Vec<MetaDesc>)
    ensures
        forall|out: &mut Vec<String>| #[trigger]
            call_ensures(read_roles, (&items, out), ()) ==> {
                let before = (*out)@.map_values(|s: String| s@);
                let after = (*final(out))@.map_values(|s: String| s@);
                &&& after.len() == before.len() + role_names(items@).len()
                &&& after.subrange(0, before.len() as int) == before
                &&& after.subrange(before.len() as int, after.len() as int) == role_names(items@)
            },
{
    assert forall|out: &mut Vec<String>| #[trigger]
        call_ensures(read_roles, (&items, out), ()) implies {
        let before = (*out)@.map_values(|s: String| s@);
        let after = (*final(out))@.map_values(|s: String| s@);
        &&& after.len() == before.len() + role_names(items@).len()
        &&& after.subrange(0, before.len() as int) == before
        &&& after.subrange(before.len() as int, after.len() as int) == role_names(items@)
    } by {
        let before = (*out)@.map_values(|s: String| s@);
        let after = (*final(out))@.map_values(|s: String| s@);
        assert(after == before + role_names(items@));
        assert(after.subrange(0, before.len() as int) =~= before);
        assert(after.subrange(before.len() as int, after.len() as int) =~= role_names(items@));
    }
}

/// Each role goes by one name, and each of the names stands for one role; any other name stands
/// for none that matters.
pub proof fn lemma_role_of_name(name: String, r: FieldRole)
    requires
        call_ensures(field_role, (&name,), r),
    ensures
        r is Common <==> name@ == "common"@,
        r is Req <==> name@ == "req"@,
        r is Resp <==> name@ == "resp"@,
        r is ReqBlob <==> name@ == "req_blob"@,
        r is RespBlob <==> name@ == "resp_blob"@,
        r is Action <==> name@ == "action"@,
        r is Res <==> name@ == "res"@,
        r is Noti <==> name@ == "noti"@,
{
    reveal_strlit("common");
    reveal_strlit("req");
    reveal_strlit("resp");
    reveal_strlit("req_blob");
    reveal_strlit("resp_blob");
    reveal_strlit("action");
    reveal_strlit("res");
    reveal_strlit("noti");
    assert("common"@.len() == 6 && "action"@.len() == 6);
    assert("req"@.len() == 3 && "res"@.len() == 3);
    assert("resp"@.len() == 4 && "noti"@.len() == 4);
    assert("req_blob"@.len() == 8 && "resp_blob"@.len() == 9);
    assert("common"@[0] == 'c' && "action"@[0] == 'a');
    assert("req"@[2] == 'q' && "res"@[2] == 's');
    assert("resp"@[0] == 'r' && "noti"@[0] == 'n');
}

/// Whether a field has a role.
pub open spec fn has_role(f: FieldDesc, role: FieldRole) -> bool {
    exists|k: int| 0 <= k < f.roles@.len() && role_named((#[trigger] f.roles@[k])@) == role
}

proof fn lemma_role_count(roles: Seq<String>, role: FieldRole)
    ensures
        role_count(roles, role) > 0 <==> exists|k: int|
            0 <= k < roles.len() && role_named((#[trigger] roles[k])@) == role,
        role_count(roles, role) > 1 <==> exists|k: int, l: int|
            0 <= k < l < roles.len() && role_named((#[trigger] roles[k])@) == role && role_named(
                (#[trigger] roles[l])@,
            ) == role,
    decreases roles.len(),
{
    if roles.len() > 0 {
        let head = roles.drop_last();
        let n = roles.len() - 1;
        lemma_role_count(head, role);
        assert(forall|k: int| 0 <= k < n ==> head[k] == #[trigger] roles[k]);
        if exists|k: int| 0 <= k < roles.len() && role_named((#[trigger] roles[k])@) == role {
            let k = choose|k: int|
                0 <= k < roles.len() && role_named((#[trigger] roles[k])@) == role;
            if k < n {
                assert(role_named(head[k]@) == role);
            }
        }
        if role_count(head, role) > 0 {
            let k = choose|k: int|
                0 <= k < head.len() && role_named((#[trigger] head[k])@) == role;
            assert(role_named(roles[k]@) == role);
            if role_named(roles[n]@) == role {
                assert(0 <= k < n < roles.len());
            }
        }
        if role_count(head, role) > 1 {
            let (k, l) = choose|k: int, l: int|
                0 <= k < l < head.len() && role_named((#[trigger] head[k])@) == role && role_named(
                    (#[trigger] head[l])@,
                ) == role;
            assert(role_named(roles[k]@) == role && role_named(roles[l]@) == role);
        }
        if exists|k: int, l: int|
            0 <= k < l < roles.len() && role_named((#[trigger] roles[k])@) == role && role_named(
                (#[trigger] roles[l])@,
            ) == role {
            let (k, l) = choose|k: int, l: int|
                0 <= k < l < roles.len() && role_named((#[trigger] roles[k])@) == role
                    && role_named((#[trigger] roles[l])@) == role;
            assert(role_named(head[k]@) == role);
            if l < n {
                assert(role_named(head[l]@) == role);
            }
        }
    }
}

/// The field for a role is the last that has it, and there is none exactly if no field has it.
pub proof fn lemma_field_for_role(fields: Seq<FieldDesc>, role: FieldRole)
    requires
        fields.len() <= usize::MAX,
    ensures
        match field_with(fields, role) {
            Some(i) => i < fields.len() && has_role(fields[i as int], role) && forall|j: int|
                i < j < fields.len() ==> !has_role(#[trigger] fields[j], role),
            None => forall|j: int| 0 <= j < fields.len() ==> !has_role(#[trigger] fields[j], role),
        },
    decreases fields.len(),
{
    if fields.len() > 0 {
        let head = fields.drop_last();
        lemma_field_for_role(head, role);
        lemma_role_count(fields.last().roles@, role);
        assert(forall|j: int| 0 <= j < head.len() ==> head[j] == #[trigger] fields[j]);
    }
}

/// A role is given more than once exactly if two fields have it, or one field has it twice.
pub proof fn lemma_role_given_twice(fields: Seq<FieldDesc>, role: FieldRole)
    ensures
        role_uses(fields, role) > 0 <==> exists|i: int|
            0 <= i < fields.len() && has_role(#[trigger] fields[i], role),
        role_uses(fields, role) > 1 <==> (exists|i: int, j: int|
            0 <= i < j < fields.len() && has_role(#[trigger] fields[i], role) && has_role(
                #[trigger] fields[j],
                role,
            )) || (exists|i: int|
            0 <= i < fields.len() && role_count((#[trigger] fields[i]).roles@, role) > 1),
    decreases fields.len(),
{
    if fields.len() > 0 {
        let head = fields.drop_last();
        let n = fields.len() - 1;
        let last = fields.last();
        lemma_role_given_twice(head, role);
        lemma_role_count(last.roles@, role);
        assert(has_role(last, role) == (role_count(last.roles@, role) > 0));
        assert(forall|j: int| 0 <= j < n ==> head[j] == #[trigger] fields[j]);
        assert(fields[n] == last);
        if exists|i: int| 0 <= i < fields.len() && has_role(#[trigger] fields[i], role) {
            let i = choose|i: int| 0 <= i < fields.len() && has_role(#[trigger] fields[i], role);
            if i < n {
                assert(has_role(head[i], role));
            }
        }
        if role_uses(head, role) > 0 {
            let i = choose|i: int| 0 <= i < head.len() && has_role(#[trigger] head[i], role);
            assert(has_role(fields[i], role));
            if has_role(last, role) {
                assert(has_role(fields[n], role));
            }
        }
        if role_uses(head, role) > 1 {
            if exists|i: int, j: int|
                0 <= i < j < head.len() && has_role(#[trigger] head[i], role) && has_role(
                    #[trigger] head[j],
                    role,
                ) {
                let (i, j) = choose|i: int, j: int|
                    0 <= i < j < head.len() && has_role(#[trigger] head[i], role) && has_role(
                        #[trigger] head[j],
                        role,
                    );
                assert(has_role(fields[i], role) && has_role(fields[j], role));
            } else {
                let i = choose|i: int|
                    0 <= i < head.len() && role_count((#[trigger] head[i]).roles@, role) > 1;
                assert(role_count(fields[i].roles@, role) > 1);
            }
        }
        if exists|i: int, j: int|
            0 <= i < j < fields.len() && has_role(#[trigger] fields[i], role) && has_role(
                #[trigger] fields[j],
                role,
            ) {
            let (i, j) = choose|i: int, j: int|
                0 <= i < j < fields.len() && has_role(#[trigger] fields[i], role) && has_role(
                    #[trigger] fields[j],
                    role,
                );
            assert(has_role(head[i], role));
            assert(role_uses(head, role) > 0);
            if j < n {
                assert(has_role(head[j], role));
            }
        }
        if exists|i: int|
            0 <= i < fields.len() && role_count((#[trigger] fields[i]).roles@, role) > 1 {
            let i = choose|i: int|
                0 <= i < fields.len() && role_count((#[trigger] fields[i]).roles@, role) > 1;
            if i < n {
                assert(role_count(head[i].roles@, role) > 1);
            }
        }
    }
}

/// The arguments are in order exactly if `debug` and an action stand there at most once each;
/// `Debug` is wanted exactly if `debug` stands there, and the action is the one that does.
pub proof fn lemma_arguments_are_read(args: Seq<TaskArg>)
    requires
        args.len() <= usize::MAX,
    ensures
        ({
            let twice_debug = exists|i: int, j: int|
                0 <= i < j < args.len() && #[trigger] args[i] is Debug && #[trigger] args[j]
                    is Debug;
            let twice_action = exists|i: int, j: int|
                0 <= i < j < args.len() && #[trigger] args[i] is Action && #[trigger] args[j]
                    is Action;
            &&& read_args(args) is Ok <==> !twice_debug && !twice_action
            &&& read_args(args) matches Err(e) ==> (e is DuplicateDebug && twice_debug) || (e
                is MultipleActions && twice_action)
            &&& read_args(args) matches Ok(x) ==> {
                &&& x.0 <==> exists|i: int| 0 <= i < args.len() && #[trigger] args[i] is Debug
                &&& match x.1 {
                    Some(k) => k < args.len() && args[k as int] is Action,
                    None => forall|i: int| 0 <= i < args.len() ==> !(#[trigger] args[i] is Action),
                }
            }
        }),
    decreases args.len(),
{
    if args.len() > 0 {
        let head = args.drop_last();
        let n = args.len() - 1;
        lemma_arguments_are_read(head);
        assert(forall|j: int| 0 <= j < n ==> head[j] == #[trigger] args[j]);
        assert(args[n] == args.last());
        if exists|i: int, j: int|
            0 <= i < j < head.len() && #[trigger] head[i] is Debug && #[trigger] head[j] is Debug {
            let (i, j) = choose|i: int, j: int|
                0 <= i < j < head.len() && #[trigger] head[i] is Debug && #[trigger] head[j]
                    is Debug;
            assert(args[i] is Debug && args[j] is Debug);
        }
        if exists|i: int, j: int|
            0 <= i < j < head.len() && #[trigger] head[i] is Action && #[trigger] head[j]
                is Action {
            let (i, j) = choose|i: int, j: int|
                0 <= i < j < head.len() && #[trigger] head[i] is Action && #[trigger] head[j]
                    is Action;
            assert(args[i] is Action && args[j] is Action);
        }
        if exists|i: int, j: int|
            0 <= i < j < args.len() && #[trigger] args[i] is Debug && #[trigger] args[j] is Debug {
            let (i, j) = choose|i: int, j: int|
                0 <= i < j < args.len() && #[trigger] args[i] is Debug && #[trigger] args[j]
                    is Debug;
            assert(head[i] is Debug);
            if j < n {
                assert(head[j] is Debug);
            }
        }
        if exists|i: int, j: int|
            0 <= i < j < args.len() && #[trigger] args[i] is Action && #[trigger] args[j]
                is Action {
            let (i, j) = choose|i: int, j: int|
                0 <= i < j < args.len() && #[trigger] args[i] is Action && #[trigger] args[j]
                    is Action;
            assert(head[i] is Action);
            if j < n {
                assert(head[j] is Action);
            }
        }
        if exists|i: int| 0 <= i < head.len() && #[trigger] head[i] is Debug {
            let i = choose|i: int| 0 <= i < head.len() && #[trigger] head[i] is Debug;
            assert(args[i] is Debug);
        }
        if exists|i: int| 0 <= i < args.len() && #[trigger] args[i] is Debug {
            let i = choose|i: int| 0 <= i < args.len() && #[trigger] args[i] is Debug;
            if i < n {
                assert(head[i] is Debug);
            }
        }
        if let Ok((_, Some(k))) = read_args(head) {
            assert(args[k as int] is Action);
        }
    }
}

/// Whether a type is named `name` and has these arguments in angle brackets.
pub open spec fn is_named(ty: TypeDesc, name: Seq<char>, args: Seq<ArgDesc>) -> bool {
    &&& ty matches TypeDesc::Path(p)
    &&& p.segments@.len() > 0
    &&& p.segments@.last().ident@ == name
    &&& p.segments@.last().args matches Some(a)
    &&& a@ == args
}

/// Whether a type is named `name`, with a type first in its angle brackets, which is `inner`.
pub open spec fn is_of(ty: TypeDesc, name: Seq<char>, inner: ArgDesc) -> bool {
    &&& inner.ty is Some
    &&& exists|args: Seq<ArgDesc>| #[trigger]
        is_named(ty, name, args) && args.len() > 0 && args[0] == inner
}

/// Whether a type is `Option<Result<(), RpcError<E>>>`, with `error` for `E`.
pub open spec fn is_result_field(ty: TypeDesc, error: Seq<char>) -> bool {
    exists|o: ArgDesc, r: Seq<ArgDesc>, e: ArgDesc|
        #![trigger
            is_of(ty, "Option"@, o),
            is_named(o.ty->0, "Result"@, r),
            is_of(r[1].ty->0, "RpcError"@, e)]
        is_of(ty, "Option"@, o) && is_named(o.ty->0, "Result"@, r) && r.len() == 2 && r[0].ty
            == Some(TypeDesc::Tuple { empty: true }) && r[1].ty is Some && is_of(
            r[1].ty->0,
            "RpcError"@,
            e,
        ) && e.text@ == error
}

/// Whether a type is `Option<MTx<T>>`, with `item` for `T`.
pub open spec fn is_noti_field(ty: TypeDesc, item: Seq<char>) -> bool {
    exists|o: ArgDesc, t: ArgDesc|
        #![trigger is_of(ty, "Option"@, o), is_of(o.ty->0, "MTx"@, t)]
        is_of(ty, "Option"@, o) && is_of(o.ty->0, "MTx"@, t) && t.text@ == item
}

proof fn lemma_is_of(ty: TypeDesc, name: Seq<char>)
    ensures
        forall|x: ArgDesc| #[trigger]
            is_of(ty, name, x) <==> (crate::declare::syntax::last_segment(ty) matches Some(s)
                && s.ident@ == name && (s.args matches Some(a) && a@.len() > 0 && a@[0] == x
                && x.ty is Some)),
        forall|args: Seq<ArgDesc>| #[trigger]
            is_named(ty, name, args) <==> (crate::declare::syntax::last_segment(ty) matches Some(s)
                && s.ident@ == name && (s.args matches Some(a) && a@ == args)),
{
    assert forall|x: ArgDesc| #[trigger]
        is_of(ty, name, x) <==> (crate::declare::syntax::last_segment(ty) matches Some(s)
            && s.ident@ == name && (s.args matches Some(a) && a@.len() > 0 && a@[0] == x && x.ty
            is Some)) by {
        if let Some(s) = crate::declare::syntax::last_segment(ty) {
            if let Some(a) = s.args {
                if s.ident@ == name {
                    assert(is_named(ty, name, a@));
                }
            }
        }
    }
}

/// The field for the result is accepted exactly if it is of type `Option<Result<(),
/// RpcError<E>>>`, and then `E` is the type of the error.
pub proof fn lemma_result_field(ty: TypeDesc)
    ensures
        forall|e: Seq<char>|
            result_error_type(ty) == Ok::<Seq<char>, TaskDefError>(e) <==> #[trigger]
            is_result_field(ty, e),
{
    assert forall|e: Seq<char>|
        result_error_type(ty) == Ok::<Seq<char>, TaskDefError>(e) <==> #[trigger] is_result_field(
            ty,
            e,
        ) by {
        lemma_is_of(ty, "Option"@);
        if is_result_field(ty, e) {
            let (o, r, x) = choose|o: ArgDesc, r: Seq<ArgDesc>, x: ArgDesc|
                #![trigger
                    is_of(ty, "Option"@, o),
                    is_named(o.ty->0, "Result"@, r),
                    is_of(r[1].ty->0, "RpcError"@, x)]
                is_of(ty, "Option"@, o) && is_named(o.ty->0, "Result"@, r) && r.len() == 2 && r[0].ty
                    == Some(TypeDesc::Tuple { empty: true }) && r[1].ty is Some && is_of(
                    r[1].ty->0,
                    "RpcError"@,
                    x,
                ) && x.text@ == e;
            lemma_is_of(o.ty->0, "Result"@);
            lemma_is_of(r[1].ty->0, "RpcError"@);
        }
        if result_error_type(ty) == Ok::<Seq<char>, TaskDefError>(e) {
            let s = crate::declare::syntax::last_segment(ty)->0;
            let o = s.args->0@[0];
            lemma_is_of(o.ty->0, "Result"@);
            let s2 = crate::declare::syntax::last_segment(o.ty->0)->0;
            let r = s2.args->0@;
            lemma_is_of(r[1].ty->0, "RpcError"@);
            let s3 = crate::declare::syntax::last_segment(r[1].ty->0)->0;
            let x = s3.args->0@[0];
            assert(is_of(ty, "Option"@, o) && is_named(o.ty->0, "Result"@, r) && is_of(
                r[1].ty->0,
                "RpcError"@,
                x,
            ));
        }
    }
}

/// The field for the way back is accepted exactly if it is of type `Option<MTx<T>>`, and then `T`
/// is what is handed back.
pub proof fn lemma_noti_field(ty: TypeDesc)
    ensures
        forall|t: Seq<char>|
            noti_inner_type(ty) == Ok::<Seq<char>, TaskDefError>(t) <==> #[trigger] is_noti_field(
                ty,
                t,
            ),
{
    assert forall|t: Seq<char>|
        noti_inner_type(ty) == Ok::<Seq<char>, TaskDefError>(t) <==> #[trigger] is_noti_field(
            ty,
            t,
        ) by {
        lemma_is_of(ty, "Option"@);
        if is_noti_field(ty, t) {
            let (o, x) = choose|o: ArgDesc, x: ArgDesc|
                #![trigger is_of(ty, "Option"@, o), is_of(o.ty->0, "MTx"@, x)]
                is_of(ty, "Option"@, o) && is_of(o.ty->0, "MTx"@, x) && x.text@ == t;
            lemma_is_of(o.ty->0, "MTx"@);
        }
        if noti_inner_type(ty) == Ok::<Seq<char>, TaskDefError>(t) {
            let s = crate::declare::syntax::last_segment(ty)->0;
            let o = s.args->0@[0];
            lemma_is_of(o.ty->0, "MTx"@);
            let s2 = crate::declare::syntax::last_segment(o.ty->0)->0;
            let x = s2.args->0@[0];
            assert(is_of(ty, "Option"@, o) && is_of(o.ty->0, "MTx"@, x));
        }
    }
}

/// A field is an `Option<T>` exactly if its type is a plain path of one part with this name and
/// one argument, which is a type.
pub proof fn lemma_option_field(ty: TypeDesc, r: bool)
    requires
        call_ensures(check_option_inner_type, (&ty,), r),
    ensures
        r <==> {
            &&& ty matches TypeDesc::Path(p)
            &&& !p.qself && !p.leading_colon
            &&& p.segments@.len() == 1
            &&& exists|a: ArgDesc| #[trigger] is_of(ty, "Option"@, a)
            &&& p.segments@[0].args->0@.len() == 1
        },
{
    lemma_is_of(ty, "Option"@);
    if let TypeDesc::Path(p) = ty {
        if r {
            assert(p.segments@.last() == p.segments@[0]);
            assert(is_of(ty, "Option"@, p.segments@[0].args->0@[0]));
        }
    }
}

/// A task type is accepted exactly if its arguments are in order; its action is told in one way
/// at most; it has fields for what tasks have in common, for the request and for the response,
/// the last of which is an `Option<T>`; and it has neither a field for the result nor one for the
/// way back, or both with the types that they need. The fields that are used are the last ones
/// with their roles.
pub proof fn lemma_task_is_accepted(
    args: Vec<TaskArg>,
    fields: Vec<FieldDesc>,
    r: Result<ClientTaskPlan, TaskDefError>,
)
    requires
        call_ensures(client_task_impl, (&args, &fields), r),
    ensures
        ({
            let fs = fields@;
            let common = field_with(fs, FieldRole::Common);
            let req = field_with(fs, FieldRole::Req);
            let resp = field_with(fs, FieldRole::Resp);
            let action = field_with(fs, FieldRole::Action);
            let res = field_with(fs, FieldRole::Res);
            let noti = field_with(fs, FieldRole::Noti);
            let x = read_args(args@)->Ok_0;
            &&& r is Ok <==> {
                &&& read_args(args@) is Ok
                &&& role_uses(fs, FieldRole::Action) <= 1
                &&& action is None || x.1 is None
                &&& action is Some ==> fs[action->0 as int].ty is Path
                    && fs[action->0 as int].ty->Path_0.segments@.len() > 0
                &&& x.1 is Some ==> {
                    let a = args@[x.1->0 as int]->Action_0;
                    a is Str || a is Path || (a matches ActionDesc::Int(_, n) && n is Some)
                }
                &&& common is Some && req is Some && resp is Some
                &&& is_option(fs[resp->0 as int].ty)
                &&& res is Some <==> noti is Some
                &&& res is Some ==> (exists|e: Seq<char>| #[trigger]
                    is_result_field(fs[res->0 as int].ty, e)) && (exists|t: Seq<char>| #[trigger]
                    is_noti_field(fs[noti->0 as int].ty, t))
            }
            &&& r matches Ok(p) ==> {
                &&& p.debug == x.0
                &&& Some(p.common) == common && Some(p.req) == req && Some(p.resp) == resp
                &&& p.req_blob == field_with(fs, FieldRole::ReqBlob)
                &&& p.resp_blob == field_with(fs, FieldRole::RespBlob)
                &&& p.done is Some <==> res is Some
                &&& p.done matches Some(d) ==> {
                    &&& Some(d.res) == res && Some(d.noti) == noti
                    &&& is_result_field(fs[d.res as int].ty, d.error_type@)
                    &&& is_noti_field(fs[d.noti as int].ty, d.noti_type@)
                }
            }
        }),
{
    let fs = fields@;
    let res = field_with(fs, FieldRole::Res);
    let noti = field_with(fs, FieldRole::Noti);
    if let Some(i) = res {
        let ty = fs[i as int].ty;
        lemma_result_field(ty);
        if let Ok(e) = result_error_type(ty) {
            assert(is_result_field(ty, e));
        }
    }
    if let Some(i) = noti {
        let ty = fs[i as int].ty;
        lemma_noti_field(ty);
        if let Ok(t) = noti_inner_type(ty) {
            assert(is_noti_field(ty, t));
        }
    }
    if let Ok(p) = r {
        assert(p@ == plan(args@, fs)->Ok_0);
        if let Some(d) = p.done {
            assert(p@.done == Some(d@));
        }
    }
}

/// How a task type tells its action, where it is accepted: by its field for the action, as a
/// string exactly if the type of the field is named `String`; else as its attribute says it: a
/// string, a number, or a name; else not at all.
pub proof fn lemma_action_is_planned(args: Vec<TaskArg>, fields: Vec<FieldDesc>, p: ClientTaskPlan)
    requires
        call_ensures(client_task_impl, (&args, &fields), Ok::<ClientTaskPlan, TaskDefError>(p)),
    ensures
        match field_with(fields@, FieldRole::Action) {
            Some(i) => {
                &&& p.action matches ActionPlan::Field { field, string }
                &&& field == i
                &&& fields@[i as int].ty matches TypeDesc::Path(path)
                &&& string <==> path.segments@.last().ident@ == "String"@
            },
            None => match read_args(args@)->Ok_0.1 {
                Some(k) => match args@[k as int]->Action_0 {
                    ActionDesc::Str(s) => p.action matches ActionPlan::Str(t) && t@ == s@,
                    ActionDesc::Int(_, n) => p.action matches ActionPlan::Num(m) && n == Some(m),
                    ActionDesc::Path(s) => p.action matches ActionPlan::Path(t) && t@ == s@,
                    _ => false,
                },
                None => p.action is Absent,
            },
        },
{
    assert(p@ == plan(args@, fields@)->Ok_0);
    assert(p@.action == p.action@);
}

/// The action of a task by its plan: a fixed string or number is that, whatever is told; a field
/// that is a string takes a string, any other field and a name take a number, and neither takes
/// the other kind or nothing; without a plan there is none.
pub proof fn lemma_planned_action(
    plan: ActionPlan,
    told: Option<RpcAction<'_>>,
    r: Option<RpcAction<'_>>,
)
    requires
        call_ensures(ActionPlan::action, (&plan, told), r),
    ensures
        plan is Absent ==> r is None,
        plan matches ActionPlan::Str(s) ==> (r matches Some(a) && a@ == ActionSpec::Str(s@)),
        plan matches ActionPlan::Num(n) ==> (r matches Some(a) && a@ == ActionSpec::Num(n)),
        plan matches ActionPlan::Field { string, .. } ==> {
            &&& r is Some <==> told is Some && (told->0 is Str <==> string)
            &&& r is Some ==> r->0@ == told->0@
        },
        plan is Path ==> (r is Some <==> told is Some && told->0 is Num) && (r is Some ==> r->0@
            == told->0@),
{
}

/// The first fault that is found is the one that is reported: those of the arguments first, then
/// those of the action, then of the fields for the result and for the way back, then of the
/// fields that must be there.
pub proof fn lemma_task_is_refused(args: Vec<TaskArg>, fields: Vec<FieldDesc>, e: TaskDefError)
    requires
        call_ensures(client_task_impl, (&args, &fields), Err::<ClientTaskPlan, TaskDefError>(e)),
    ensures
        ({
            let fs = fields@;
            let common = field_with(fs, FieldRole::Common);
            let req = field_with(fs, FieldRole::Req);
            let resp = field_with(fs, FieldRole::Resp);
            let action = field_with(fs, FieldRole::Action);
            let res = field_with(fs, FieldRole::Res);
            let noti = field_with(fs, FieldRole::Noti);
            let in_order = read_args(args@) is Ok;
            let fixed = read_args(args@)->Ok_0.1;
            let one_action = in_order && role_uses(fs, FieldRole::Action) <= 1 && (action is None
                || fixed is None);
            let paired = one_action && (res is Some <==> noti is Some);
            let complete = paired && common is Some && req is Some && resp is Some;
            let sound = complete && is_option(fs[resp->0 as int].ty);
            &&& e is DuplicateDebug || e is MultipleActions <==> !in_order
            &&& e is MultipleActionFields <==> in_order && role_uses(fs, FieldRole::Action) > 1
            &&& e is BothActions <==> in_order && role_uses(fs, FieldRole::Action) <= 1 && action
                is Some && fixed is Some
            &&& e is ResNotiApart <==> one_action && (res is Some) != (noti is Some)
            &&& e is MissingCommon <==> paired && common is None
            &&& e is MissingReq <==> paired && common is Some && req is None
            &&& e is MissingResp <==> paired && common is Some && req is Some && resp is None
            &&& e is RespNotOption <==> complete && !is_option(fs[resp->0 as int].ty)
            &&& e is FieldActionType ==> sound && action is Some && !(fs[action->0 as int].ty
                is Path && fs[action->0 as int].ty->Path_0.segments@.len() > 0)
            &&& e is InvalidInt ==> sound && action is None && fixed is Some && (
            args@[fixed->0 as int]->Action_0 matches ActionDesc::Int(_, n) && n is None)
            &&& e is UnsupportedAction ==> sound && action is None && fixed is Some && (
            args@[fixed->0 as int]->Action_0 is OtherLit || args@[fixed->0 as int]->Action_0
                is OtherMeta)
        }),
{
    let fs = fields@;
    assert(plan(args@, fs) == Err::<crate::declare::client_task::PlanSpec, TaskDefError>(e));
    lemma_args_error(args@);
    lemma_done_error(fs);
}

proof fn lemma_args_error(args: Seq<TaskArg>)
    ensures
        read_args(args) matches Err(e) ==> e is DuplicateDebug || e is MultipleActions,
    decreases args.len(),
{
    if args.len() > 0 {
        lemma_args_error(args.drop_last());
    }
}

/// Whether an error is about the types of the fields for the result and for the way back.
pub open spec fn about_types(e: TaskDefError) -> bool {
    match e {
        TaskDefError::ResNotPath => true,
        TaskDefError::ResNotOption => true,
        TaskDefError::OptionNoType => true,
        TaskDefError::OptionNoArgs => true,
        TaskDefError::ResInnerNotResult => true,
        TaskDefError::ResNotOptionResult => true,
        TaskDefError::ResultNoArgs => true,
        TaskDefError::ResultNotTwo => true,
        TaskDefError::ResultOkNotUnit => true,
        TaskDefError::ResultNoError => true,
        TaskDefError::ErrorNotRpcError => true,
        TaskDefError::RpcErrorNoType => true,
        TaskDefError::RpcErrorNoArgs => true,
        TaskDefError::NotiNotPath => true,
        TaskDefError::NotiNotOption => true,
        TaskDefError::NotiInnerNotPath => true,
        TaskDefError::NotiNotMTx => true,
        TaskDefError::MTxNoType => true,
        TaskDefError::MTxNoArgs => true,
        _ => false,
    }
}

proof fn lemma_done_error(fields: Seq<FieldDesc>)
    ensures
        plan_done(fields) matches Err(e) ==> about_types(e),
{
}

/// The last part of a path, and the first argument in angle brackets where it is a type.
pub proof fn lemma_parts_of_types(ty: TypeDesc, args: Vec<ArgDesc>)
    ensures
        forall|r: Option<&SegmentDesc>| #[trigger]
            call_ensures(get_last_segment, (&ty,), r) ==> {
                &&& r is Some <==> (ty matches TypeDesc::Path(p) && p.segments@.len() > 0)
                &&& r is Some ==> *r->0 == ty->Path_0.segments@[ty->Path_0.segments@.len() - 1]
            },
        forall|r: Option<&ArgDesc>| #[trigger]
            call_ensures(get_first_type, (&args,), r) ==> {
                &&& r is Some <==> args@.len() > 0 && args@[0].ty is Some
                &&& r is Some ==> *r->0 == args@[0]
            },
{
}

/// Whether an argument stands there again: one of its kind stands before it.
pub open spec fn repeats(args: Seq<TaskArg>, k: int) -> bool {
    exists|i: int| 0 <= i < k && (#[trigger] args[i] is Debug <==> args[k] is Debug)
}

/// Of arguments that stand there twice the first repetition is reported.
pub proof fn lemma_first_repetition(args: Seq<TaskArg>, k: int)
    requires
        args.len() <= usize::MAX,
        0 <= k < args.len(),
        repeats(args, k),
        forall|j: int| 0 <= j < k ==> !#[trigger] repeats(args, j),
    ensures
        read_args(args) == Err::<(bool, Option<usize>), TaskDefError>(
            if args[k] is Debug {
                TaskDefError::DuplicateDebug
            } else {
                TaskDefError::MultipleActions
            },
        ),
    decreases args.len(),
{
    let head = args.drop_last();
    let n = args.len() - 1;
    assert(forall|j: int| 0 <= j < n ==> head[j] == #[trigger] args[j]);
    lemma_arguments_are_read(head);
    if k < n {
        let i = choose|i: int| 0 <= i < k && (#[trigger] args[i] is Debug <==> args[k] is Debug);
        assert(head[i] is Debug <==> head[k] is Debug);
        assert(repeats(head, k));
        assert forall|j: int| 0 <= j < k implies !#[trigger] repeats(head, j) by {
            assert(!repeats(args, j));
            if repeats(head, j) {
                let i = choose|i: int|
                    0 <= i < j && (#[trigger] head[i] is Debug <==> head[j] is Debug);
                assert(args[i] is Debug <==> args[j] is Debug);
            }
        }
        lemma_first_repetition(head, k);
    } else {
        let i = choose|i: int| 0 <= i < k && (#[trigger] args[i] is Debug <==> args[k] is Debug);
        assert(head[i] == args[i]);
        if read_args(head) is Err {
            if exists|a: int, b: int|
                0 <= a < b < head.len() && #[trigger] head[a] is Debug && #[trigger] head[b]
                    is Debug {
                let (a, b) = choose|a: int, b: int|
                    0 <= a < b < head.len() && #[trigger] head[a] is Debug && #[trigger] head[b]
                        is Debug;
                assert(args[a] is Debug <==> args[b] is Debug);
                assert(repeats(args, b));
            } else {
                let (a, b) = choose|a: int, b: int|
                    0 <= a < b < head.len() && #[trigger] head[a] is Action && #[trigger] head[b]
                        is Action;
                assert(args[a] is Debug <==> args[b] is Debug);
                assert(repeats(args, b));
            }
        }
    }
}

/// The last part of a type that is a path.
pub open spec fn part(ty: TypeDesc) -> Option<SegmentDesc> {
    match ty {
        TypeDesc::Path(p) => if p.segments@.len() == 0 {
            None
        } else {
            Some(p.segments@[p.segments@.len() - 1])
        },
        TypeDesc::Tuple { .. } => None,
        TypeDesc::Other => None,
    }
}

/// Whether the type of a part is named `name`.
pub open spec fn part_named(ty: TypeDesc, name: Seq<char>) -> bool {
    part(ty) matches Some(s) && s.ident@ == name
}

/// The type that stands first in the angle brackets of a part.
pub open spec fn inner(ty: TypeDesc) -> Option<TypeDesc> {
    match part(ty) {
        Some(s) => match s.args {
            Some(a) => if a@.len() > 0 {
                a@[0].ty
            } else {
                None
            },
            None => None,
        },
        None => None,
    }
}

/// What is wrong with the type of the field for the result is said of the outermost part that is
/// wrong: that it is no path, has another name, has no arguments, or other arguments than it
/// needs.
pub proof fn lemma_result_field_refused(ty: TypeDesc)
    requires
        result_error_type(ty) is Err,
    ensures
        ({
            let e = result_error_type(ty)->Err_0;
            let opened = part_named(ty, "Option"@) && inner(ty) is Some;
            let t = inner(ty)->0;
            let rest = part(t)->0.args->0@;
            let result = opened && part_named(t, "Result"@) && part(t)->0.args is Some;
            let pair = result && rest.len() == 2 && rest[0].ty == Some(
                TypeDesc::Tuple { empty: true },
            );
            let x = rest[1].ty->0;
            &&& e is ResNotPath <==> part(ty) is None
            &&& e is ResNotOption <==> part(ty) is Some && !part_named(ty, "Option"@)
            &&& e is OptionNoArgs <==> part_named(ty, "Option"@) && part(ty)->0.args is None
            &&& e is OptionNoType <==> part_named(ty, "Option"@) && part(ty)->0.args is Some
                && inner(ty) is None
            &&& e is ResInnerNotResult <==> opened && part(t) is None
            &&& e is ResNotOptionResult <==> opened && part(t) is Some && !part_named(t, "Result"@)
            &&& e is ResultNoArgs <==> opened && part_named(t, "Result"@) && part(t)->0.args is None
            &&& e is ResultNotTwo <==> result && rest.len() != 2
            &&& e is ResultOkNotUnit <==> result && rest.len() == 2 && rest[0].ty != Some(
                TypeDesc::Tuple { empty: true },
            )
            &&& e is ResultNoError <==> pair && rest[1].ty is None
            &&& e is ErrorNotRpcError <==> pair && rest[1].ty is Some && !part_named(x, "RpcError"@)
            &&& e is RpcErrorNoArgs <==> pair && rest[1].ty is Some && part_named(x, "RpcError"@)
                && part(x)->0.args is None
            &&& e is RpcErrorNoType <==> pair && rest[1].ty is Some && part_named(x, "RpcError"@)
                && part(x)->0.args is Some && inner(x) is None
        }),
{
}

/// The same for the type of the field for the way back.
pub proof fn lemma_noti_field_refused(ty: TypeDesc)
    requires
        noti_inner_type(ty) is Err,
    ensures
        ({
            let e = noti_inner_type(ty)->Err_0;
            let opened = part_named(ty, "Option"@) && inner(ty) is Some;
            let t = inner(ty)->0;
            &&& e is NotiNotPath <==> part(ty) is None
            &&& e is NotiNotOption <==> part(ty) is Some && !part_named(ty, "Option"@)
            &&& e is OptionNoArgs <==> part_named(ty, "Option"@) && part(ty)->0.args is None
            &&& e is OptionNoType <==> part_named(ty, "Option"@) && part(ty)->0.args is Some
                && inner(ty) is None
            &&& e is NotiInnerNotPath <==> opened && part(t) is None
            &&& e is NotiNotMTx <==> opened && part(t) is Some && !part_named(t, "MTx"@)
            &&& e is MTxNoArgs <==> opened && part_named(t, "MTx"@) && part(t)->0.args is None
            &&& e is MTxNoType <==> opened && part_named(t, "MTx"@) && part(t)->0.args is Some
                && inner(t) is None
        }),
{
}

/// Of the types of both fields, that of the field for the result is looked at first; and either
/// error is reported as it is.
pub proof fn lemma_type_faults(args: Vec<TaskArg>, fields: Vec<FieldDesc>, e: TaskDefError)
    requires
        call_ensures(client_task_impl, (&args, &fields), Err::<ClientTaskPlan, TaskDefError>(e)),
        about_types(e),
    ensures
        ({
            let fs = fields@;
            let res = field_with(fs, FieldRole::Res);
            let noti = field_with(fs, FieldRole::Noti);
            &&& res is Some && noti is Some
            &&& match result_error_type(fs[res->0 as int].ty) {
                Err(x) => e == x,
                Ok(_) => noti_inner_type(fs[noti->0 as int].ty) == Err::<Seq<char>, TaskDefError>(
                    e,
                ),
            }
        }),
{
    lemma_args_error(args@);
}

} // verus!
