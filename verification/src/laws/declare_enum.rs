//! Declaring an enum of client tasks.

use crate::declare::client_task_enum::{
    action_attr, action_count, action_views, client_task_enum_impl, get_action_attribute,
    gives_action, holds_type, plan_variants, variant_action, ActionAttr, EnumDefError, EnumPlan,
    VariantAction, VariantActionSpec, VariantDesc,
};
use crate::declare::syntax::ActionDesc;
use crate::proto::RpcAction;
use vstd::prelude::*;

verus! {

/// The items that an attribute gives: all in its brackets, as long as the first is a literal or a
/// name.
pub open spec fn given_items(a: ActionAttr) -> Seq<ActionDesc> {
    match a {
        ActionAttr::List(l) => if l@.len() > 0 && (l@[0] is Str || l@[0] is Int || l@[0] is OtherLit
            || l@[0] is Path) {
            l@
        } else {
            Seq::empty()
        },
        ActionAttr::NotList => Seq::empty(),
    }
}

/// The items that the attributes of a variant give, one after another.
pub open spec fn all_given(attrs: Seq<ActionAttr>) -> Seq<ActionDesc>
    decreases attrs.len(),
{
    if attrs.len() == 0 {
        Seq::empty()
    } else {
        given_items(attrs[0]) + all_given(attrs.subrange(1, attrs.len() as int))
    }
}

proof fn lemma_all_given(attrs: Seq<ActionAttr>)
    ensures
        attrs.len() > 0 ==> all_given(attrs) == all_given(attrs.drop_last()) + given_items(
            attrs.last(),
        ),
    decreases attrs.len(),
{
    if attrs.len() == 1 {
        reveal_with_fuel(all_given, 2);
        assert(attrs.subrange(1, 1) =~= Seq::<ActionAttr>::empty());
        assert(attrs.drop_last() =~= Seq::<ActionAttr>::empty());
        assert(given_items(attrs[0]) + Seq::<ActionDesc>::empty() =~= Seq::<ActionDesc>::empty()
            + given_items(attrs[0]));
    } else if attrs.len() > 1 {
        let rest = attrs.subrange(1, attrs.len() as int);
        let head = attrs.drop_last();
        lemma_all_given(rest);
        assert(rest.drop_last() =~= head.subrange(1, head.len() as int));
        assert(given_items(attrs[0]) + (all_given(rest.drop_last()) + given_items(attrs.last()))
            =~= given_items(attrs[0]) + all_given(rest.drop_last()) + given_items(attrs.last()));
    }
}

proof fn lemma_counted(attrs: Seq<ActionAttr>)
    ensures
        action_count(attrs) == all_given(attrs).len(),
        match action_attr(attrs) {
            Some(k) => 0 <= k < attrs.len() && gives_action(attrs[k]) && all_given(attrs).len() > 0
                && (all_given(attrs).len() == 1 ==> all_given(attrs)[0] == attrs[k]->List_0@[0]),
            None => all_given(attrs).len() == 0,
        },
    decreases attrs.len(),
{
    if attrs.len() > 0 {
        let head = attrs.drop_last();
        lemma_counted(head);
        lemma_all_given(attrs);
        let last = attrs.last();
        assert(gives_action(last) <==> given_items(last).len() > 0) by {
            if let ActionAttr::List(l) = last {
                if l@.len() > 0 {
                    let d = l@[0];
                    assert(d is Str || d is Int || d is OtherLit || d is Path || d is OtherMeta);
                }
            }
        }
        if !gives_action(last) {
            assert(all_given(head) + given_items(last) =~= all_given(head));
            if let Some(k) = action_attr(head) {
                assert(head[k] == attrs[k]);
            }
        }
    }
}

/// The action of a variant is the one item that its attributes give. It is refused exactly if they
/// give more than one, however they are spread over attributes.
pub proof fn lemma_action_attribute(attrs: Vec<ActionAttr>, r: Result<Option<&ActionDesc>, ()>)
    requires
        call_ensures(get_action_attribute, (&attrs,), r),
    ensures
        r is Err <==> all_given(attrs@).len() > 1,
        r matches Ok(None) <==> all_given(attrs@).len() == 0,
        r matches Ok(Some(a)) ==> all_given(attrs@) == seq![*a],
{
    lemma_counted(attrs@);
    if let Ok(Some(a)) = r {
        assert(all_given(attrs@) =~= seq![*a]);
    }
}

/// Whether a variant can stand in an enum behind `before`: it holds one task, of a type that no
/// variant before it holds, and gives one action at most, which is a literal number, a literal
/// string or a name.
pub open spec fn variant_fits(before: Seq<VariantDesc>, v: VariantDesc) -> bool {
    let given = all_given(v.actions@);
    &&& v.inner is Some
    &&& forall|j: int|
        0 <= j < before.len() && (#[trigger] before[j]).inner is Some ==> before[j].inner->0@
            != v.inner->0@
    &&& given.len() <= 1
    &&& given.len() == 1 ==> !(given[0] is OtherLit)
}

/// Whether `a` is how a variant with these attributes tells its action.
pub open spec fn tells(attrs: Seq<ActionAttr>, a: VariantActionSpec) -> bool {
    let given = all_given(attrs);
    if given.len() == 0 {
        a is Inner
    } else {
        match given[0] {
            ActionDesc::Int(s, _) => a == VariantActionSpec::Int(s@),
            ActionDesc::Str(s) => a == VariantActionSpec::Str(s@),
            ActionDesc::Path(s) => a == VariantActionSpec::Path(s@),
            _ => false,
        }
    }
}

/// What is wrong with variant `i`, where something is.
pub open spec fn fault(vs: Seq<VariantDesc>, i: int, e: EnumDefError) -> bool {
    let v = vs[i];
    let alone = forall|j: int|
        0 <= j < i && (#[trigger] vs[j]).inner is Some ==> vs[j].inner->0@ != v.inner->0@;
    let given = all_given(v.actions@);
    match e {
        EnumDefError::NotSingleField(k) => k == i && v.inner is None,
        EnumDefError::DuplicateType(k) => k == i && v.inner is Some && !alone,
        EnumDefError::MultipleActions(k) => k == i && v.inner is Some && alone && given.len() > 1,
        EnumDefError::UnsupportedAction(k) => k == i && v.inner is Some && alone && given.len() == 1
            && given[0] is OtherLit,
        _ => false,
    }
}

proof fn lemma_variant(attrs: Seq<ActionAttr>, i: usize)
    ensures
        variant_action(attrs, i) is Ok <==> all_given(attrs).len() <= 1 && (all_given(attrs).len()
            == 1 ==> !(all_given(attrs)[0] is OtherLit)),
        variant_action(attrs, i) matches Ok(a) ==> tells(attrs, a),
        variant_action(attrs, i) matches Err(e) ==> e == if all_given(attrs).len() > 1 {
            EnumDefError::MultipleActions(i)
        } else {
            EnumDefError::UnsupportedAction(i)
        },
{
    lemma_counted(attrs);
    if let Some(k) = action_attr(attrs) {
        let d = attrs[k]->List_0@[0];
        assert(!(d is OtherMeta));
    }
}

proof fn lemma_plan(vs: Seq<VariantDesc>)
    requires
        vs.len() <= usize::MAX,
    ensures
        match plan_variants(vs) {
            Ok(actions) => {
                &&& actions.len() == vs.len()
                &&& forall|i: int|
                    0 <= i < vs.len() ==> variant_fits(vs.subrange(0, i), #[trigger] vs[i])
                        && tells(vs[i].actions@, actions[i])
            },
            Err(e) => exists|i: int|
                0 <= i < vs.len() && !variant_fits(vs.subrange(0, i), #[trigger] vs[i]) && fault(
                    vs,
                    i,
                    e,
                ) && forall|j: int|
                    0 <= j < i ==> variant_fits(vs.subrange(0, j), #[trigger] vs[j]),
        },
    decreases vs.len(),
{
    if vs.len() > 0 {
        let head = vs.drop_last();
        let n = vs.len() - 1;
        lemma_plan(head);
        lemma_variant(vs.last().actions@, n as usize);
        assert(vs[n] == vs.last());
        assert(vs.subrange(0, n) =~= head);
        assert forall|i: int| 0 <= i < n implies vs.subrange(0, i) == #[trigger] head.subrange(
            0,
            i,
        ) by {
            assert(vs.subrange(0, i) =~= head.subrange(0, i));
        }
        assert(forall|i: int| 0 <= i < n ==> head[i] == #[trigger] vs[i]);
        match plan_variants(head) {
            Err(e) => {
                let i = choose|i: int|
                    0 <= i < head.len() && !variant_fits(head.subrange(0, i), #[trigger] head[i])
                        && fault(head, i, e) && forall|j: int|
                        0 <= j < i ==> variant_fits(head.subrange(0, j), #[trigger] head[j]);
                assert(!variant_fits(vs.subrange(0, i), vs[i])) by {
                    assert(vs.subrange(0, i) == head.subrange(0, i));
                }
                assert(fault(vs, i, e)) by {
                    lemma_alone(head, vs, i);
                }
                assert forall|j: int| 0 <= j < i implies variant_fits(
                    vs.subrange(0, j),
                    #[trigger] vs[j],
                ) by {
                    assert(head[j] == vs[j]);
                    assert(vs.subrange(0, j) == head.subrange(0, j));
                }
            },
            Ok(actions) => {
                assert forall|j: int| 0 <= j < n implies variant_fits(
                    vs.subrange(0, j),
                    #[trigger] vs[j],
                ) && tells(vs[j].actions@, actions[j]) by {
                    assert(head[j] == vs[j]);
                    assert(vs.subrange(0, j) == head.subrange(0, j));
                }
                if let Some(ty) = vs.last().inner {
                    lemma_holds_type(head, ty@);
                }
                lemma_alone_at_end(vs);
            },
        }
    }
}

proof fn lemma_alone(a: Seq<VariantDesc>, b: Seq<VariantDesc>, i: int)
    requires
        0 <= i < a.len() <= b.len(),
        forall|j: int| 0 <= j < a.len() ==> a[j] == #[trigger] b[j],
    ensures
        (forall|j: int|
            0 <= j < i && (#[trigger] a[j]).inner is Some ==> a[j].inner->0@ != a[i].inner->0@)
            == (forall|j: int|
            0 <= j < i && (#[trigger] b[j]).inner is Some ==> b[j].inner->0@ != b[i].inner->0@),
{
    if forall|j: int|
        0 <= j < i && (#[trigger] a[j]).inner is Some ==> a[j].inner->0@ != a[i].inner->0@ {
        assert forall|j: int| 0 <= j < i && (#[trigger] b[j]).inner is Some implies b[j].inner->0@
            != b[i].inner->0@ by {
            assert(a[j] == b[j] && a[i] == b[i]);
        }
    }
    if forall|j: int|
        0 <= j < i && (#[trigger] b[j]).inner is Some ==> b[j].inner->0@ != b[i].inner->0@ {
        assert forall|j: int| 0 <= j < i && (#[trigger] a[j]).inner is Some implies a[j].inner->0@
            != a[i].inner->0@ by {
            assert(a[j] == b[j] && a[i] == b[i]);
        }
    }
}

proof fn lemma_alone_at_end(vs: Seq<VariantDesc>)
    requires
        vs.len() > 0,
    ensures
        ({
            let head = vs.drop_last();
            let n = vs.len() - 1;
            (forall|j: int|
                0 <= j < head.len() && (#[trigger] head[j]).inner is Some ==> head[j].inner->0@
                    != vs[n].inner->0@) == (forall|j: int|
                0 <= j < n && (#[trigger] vs[j]).inner is Some ==> vs[j].inner->0@
                    != vs[n].inner->0@)
        }),
{
    let head = vs.drop_last();
    let n = vs.len() - 1;
    if forall|j: int|
        0 <= j < head.len() && (#[trigger] head[j]).inner is Some ==> head[j].inner->0@
            != vs[n].inner->0@ {
        assert forall|j: int| 0 <= j < n && (#[trigger] vs[j]).inner is Some implies vs[j].inner->0@
            != vs[n].inner->0@ by {
            assert(head[j] == vs[j]);
        }
    }
    if forall|j: int|
        0 <= j < n && (#[trigger] vs[j]).inner is Some ==> vs[j].inner->0@ != vs[n].inner->0@ {
        assert forall|j: int|
            0 <= j < head.len() && (#[trigger] head[j]).inner is Some implies head[j].inner->0@
            != vs[n].inner->0@ by {
            assert(head[j] == vs[j]);
        }
    }
}

proof fn lemma_holds_type(vs: Seq<VariantDesc>, ty: Seq<char>)
    ensures
        holds_type(vs, ty) <==> !(forall|j: int|
            0 <= j < vs.len() && (#[trigger] vs[j]).inner is Some ==> vs[j].inner->0@ != ty),
{
    if holds_type(vs, ty) {
        let j = choose|j: int|
            0 <= j < vs.len() && (#[trigger] vs[j].inner matches Some(t) && t@ == ty);
        assert(vs[j].inner is Some);
    }
    if !(forall|j: int|
        0 <= j < vs.len() && (#[trigger] vs[j]).inner is Some ==> vs[j].inner->0@ != ty) {
        let j = choose|j: int|
            0 <= j < vs.len() && (#[trigger] vs[j]).inner is Some && vs[j].inner->0@ == ty;
        assert(vs[j].inner matches Some(t) && t@ == ty);
    }
}

/// An enum is accepted exactly if it names the type of its error and each of its variants fits
/// behind those before it. Each variant then tells its action as its attributes say, and else
/// leaves it to the task inside.
pub proof fn lemma_client_enum_is_accepted(
    error: Option<String>,
    variants: Vec<VariantDesc>,
    r: Result<EnumPlan, EnumDefError>,
)
    requires
        call_ensures(client_task_enum_impl, (error, Some(&variants)), r),
    ensures
        ({
            let vs = variants@;
            &&& r is Ok <==> error is Some && forall|i: int|
                0 <= i < vs.len() ==> variant_fits(vs.subrange(0, i), #[trigger] vs[i])
            &&& r matches Ok(p) ==> {
                &&& Some(p.error_type) == error
                &&& p.actions@.len() == vs.len()
                &&& forall|i: int|
                    0 <= i < vs.len() ==> tells((#[trigger] vs[i]).actions@, p.actions@[i]@)
            }
        }),
{
    let vs = variants@;
    assert(vs.len() == variants.len());
    lemma_plan(vs);
    if let Ok(p) = r {
        let views = action_views(p.actions@);
        assert(views.len() == p.actions@.len());
        assert forall|i: int| 0 <= i < vs.len() implies tells(
            (#[trigger] vs[i]).actions@,
            p.actions@[i]@,
        ) by {
            assert(views[i] == p.actions@[i]@);
        }
    }
}

/// Why an enum is refused: for want of a type of error first, then because it is no enum, and
/// then for the first of its variants that does not fit, by what is wrong with that.
pub proof fn lemma_client_enum_is_refused(
    error: Option<String>,
    variants: Option<&Vec<VariantDesc>>,
    e: EnumDefError,
)
    requires
        call_ensures(
            client_task_enum_impl,
            (error, variants),
            Err::<EnumPlan, EnumDefError>(e),
        ),
    ensures
        e is MissingError <==> error is None,
        e is NotEnum <==> error is Some && variants is None,
        error is Some && variants is Some ==> exists|i: int|
            0 <= i < variants->0@.len() && #[trigger] fault(variants->0@, i, e) && forall|j: int|
                0 <= j < i ==> variant_fits(
                    variants->0@.subrange(0, j),
                    #[trigger] variants->0@[j],
                ),
{
    if let Some(v) = variants {
        assert(v@.len() == v.len());
        lemma_plan(v@);
        if error is Some {
            let vs = v@;
            let i = choose|i: int|
                0 <= i < vs.len() && !variant_fits(vs.subrange(0, i), #[trigger] vs[i]) && fault(
                    vs,
                    i,
                    e,
                ) && forall|j: int|
                    0 <= j < i ==> variant_fits(vs.subrange(0, j), #[trigger] vs[j]);
            assert(fault(vs, i, e));
        }
    }
}

/// The action of a task in a variant: a fixed string is that, whatever is told; where the task
/// inside tells it, what it tells, if anything; and else the number that is told, and nothing
/// without a number.
pub proof fn lemma_variant_action(
    how: VariantAction,
    told: Option<RpcAction<'_>>,
    r: Option<RpcAction<'_>>,
)
    requires
        call_ensures(VariantAction::action, (&how, told), r),
    ensures
        how matches VariantAction::Str(s) ==> (r matches Some(RpcAction::Str(t)) && t@ == s@),
        how is Inner ==> (r is Some <==> told is Some) && (r is Some ==> r->0@ == told->0@),
        how is Int || how is Path ==> (r is Some <==> told is Some && told->0 is Num) && (r is Some
            ==> r->0@ == told->0@),
{
}

} // verus!
