//! Declaring an enum of client tasks.

use crate::declare::syntax::ActionDesc;
use crate::proto::{told_view, ActionSpec, RpcAction};
use vstd::prelude::*;

verus! {

/// An `#[action(..)]` attribute on a variant.
#[derive(Debug)]
pub enum ActionAttr {
    /// What stands in the brackets.
    List(Vec<ActionDesc>),
    /// An attribute of another form, which says nothing.
    NotList,
}

/// A variant of an enum.
#[derive(Debug)]
pub struct VariantDesc {
    pub name: String,
    /// The type of the one field, where the variant is tuple-style with a single field.
    pub inner: Option<String>,
    /// The attributes that are named `action`.
    pub actions: Vec<ActionAttr>,
}

/// How a variant tells its action.
#[derive(Debug)]
pub enum VariantAction {
    /// By the task inside.
    Inner,
    /// By a fixed number, as it is written.
    Int(String),
    /// By a fixed string.
    Str(String),
    /// By a fixed number that goes by a name.
    Path(String),
}

/// How a variant tells its action.
pub enum VariantActionSpec {
    Inner,
    Int(Seq<char>),
    Str(Seq<char>),
    Path(Seq<char>),
}

impl View for VariantAction {
    type V = VariantActionSpec;

    open spec fn view(&self) -> VariantActionSpec {
        match self {
            VariantAction::Inner => VariantActionSpec::Inner,
            VariantAction::Int(s) => VariantActionSpec::Int(s@),
            VariantAction::Str(s) => VariantActionSpec::Str(s@),
            VariantAction::Path(s) => VariantActionSpec::Path(s@),
        }
    }
}

/// Why a declaration is refused. An index is that of the variant.
#[derive(Clone, Copy, Debug, PartialEq, Eq, Structural)]
pub enum EnumDefError {
    MissingError,
    NotEnum,
    NotSingleField(usize),
    DuplicateType(usize),
    MultipleActions(usize),
    UnsupportedAction(usize),
}

/// What to implement: the type of the error, and for each variant how it tells its action. Each
/// variant is made from its task, and hands everything else on to it.
#[derive(Debug)]
pub struct EnumPlan {
    pub error_type: String,
    pub actions: Vec<VariantAction>,
}

impl EnumDefError {
    pub open spec fn text(self, enum_name: Seq<char>, variants: Seq<VariantDesc>) -> Seq<char> {
        match self {
            EnumDefError::MissingError =>
            "#[client_task_enum] requires an `error = <Type>` attribute"@,
            EnumDefError::NotEnum => "#[client_task_enum] can only be applied to enums"@,
            EnumDefError::NotSingleField(_) =>
            "Enum variants must be tuple-style with a single field"@,
            EnumDefError::DuplicateType(i) => "Duplicate sub-type `"@ + variants[i as int].inner->0@
                + "` found in enum `"@ + enum_name
                + "`. `From` implementation cannot be generated for duplicate sub-types."@,
            EnumDefError::MultipleActions(_) => "Only one action is allowed per variant"@,
            EnumDefError::UnsupportedAction(_) => "Unsupported action type"@,
        }
    }

    /// The message for an error that [`client_task_enum_impl`] found in these variants.
    pub fn describe(&self, enum_name: &str, variants: &Vec<VariantDesc>) -> (r: String)
        requires
            *self matches EnumDefError::DuplicateType(i) ==> i < variants@.len()
                && variants@[i as int].inner is Some,
        ensures
            r@ == self.text(enum_name@, variants@),
    {
        match self {
            EnumDefError::MissingError =>
            "#[client_task_enum] requires an `error = <Type>` attribute".to_owned(),
            EnumDefError::NotEnum => "#[client_task_enum] can only be applied to enums".to_owned(),
            EnumDefError::NotSingleField(_) =>
            "Enum variants must be tuple-style with a single field".to_owned(),
            EnumDefError::DuplicateType(i) => {
                let mut s: String = "Duplicate sub-type `".to_owned();
                if let Some(inner) = &variants[*i].inner {
                    s.append(inner.as_str());
                }
                s.append("` found in enum `");
                s.append(enum_name);
                s.append("`. `From` implementation cannot be generated for duplicate sub-types.");
                s
            },
            EnumDefError::MultipleActions(_) =>
            "Only one action is allowed per variant".to_owned(),
            EnumDefError::UnsupportedAction(_) => "Unsupported action type".to_owned(),
        }
    }
}

/// Whether an attribute gives an action: a literal or a name stands first in its brackets.
pub open spec fn gives_action(a: ActionAttr) -> bool {
    a matches ActionAttr::List(l) && l@.len() > 0 && !(l@[0] is OtherMeta)
}

/// How many actions the attributes of a variant give.
pub open spec fn action_count(attrs: Seq<ActionAttr>) -> nat
    decreases attrs.len(),
{
    if attrs.len() == 0 {
        0
    } else {
        action_count(attrs.drop_last()) + if gives_action(attrs.last()) {
            attrs.last()->List_0@.len()
        } else {
            0
        }
    }
}

/// The index of the last attribute that gives an action.
pub open spec fn action_attr(attrs: Seq<ActionAttr>) -> Option<int>
    decreases attrs.len(),
{
    if attrs.len() == 0 {
        None
    } else if gives_action(attrs.last()) {
        Some(attrs.len() - 1)
    } else {
        action_attr(attrs.drop_last())
    }
}

/// How the variant with this index tells its action. One action may be given, no more.
pub open spec fn variant_action(attrs: Seq<ActionAttr>, i: usize) -> Result<
    VariantActionSpec,
    EnumDefError,
> {
    if action_count(attrs) > 1 {
        Err(EnumDefError::MultipleActions(i))
    } else {
        match action_attr(attrs) {
            None => Ok(VariantActionSpec::Inner),
            Some(k) => match attrs[k]->List_0@[0] {
                ActionDesc::Int(s, _) => Ok(VariantActionSpec::Int(s@)),
                ActionDesc::Str(s) => Ok(VariantActionSpec::Str(s@)),
                ActionDesc::Path(p) => Ok(VariantActionSpec::Path(p@)),
                _ => Err(EnumDefError::UnsupportedAction(i)),
            },
        }
    }
}

/// Whether one of these variants holds a task of this type.
pub open spec fn holds_type(variants: Seq<VariantDesc>, ty: Seq<char>) -> bool {
    exists|j: int| 0 <= j < variants.len() && (#[trigger] variants[j].inner matches Some(t) && t@ == ty)
}

/// How the variants tell their actions, or what is wrong with the first of them that is wrong.
pub open spec fn plan_variants(variants: Seq<VariantDesc>) -> Result<
    Seq<VariantActionSpec>,
    EnumDefError,
>
    decreases variants.len(),
{
    if variants.len() == 0 {
        Ok(Seq::empty())
    } else {
        let i = (variants.len() - 1) as usize;
        match plan_variants(variants.drop_last()) {
            Err(e) => Err(e),
            Ok(actions) => match variants.last().inner {
                None => Err(EnumDefError::NotSingleField(i)),
                Some(ty) => if holds_type(variants.drop_last(), ty@) {
                    Err(EnumDefError::DuplicateType(i))
                } else {
                    match variant_action(variants.last().actions@, i) {
                        Err(e) => Err(e),
                        Ok(a) => Ok(actions.push(a)),
                    }
                },
            },
        }
    }
}

/// The views of the actions.
pub open spec fn action_views(actions: Seq<VariantAction>) -> Seq<VariantActionSpec> {
    Seq::new(actions.len(), |i: int| actions[i]@)
}

/// The action that the attributes of a variant give, if they give one.
pub fn get_action_attribute(attrs: &Vec<ActionAttr>) -> (r: Result<Option<&ActionDesc>, ()>)
    ensures
        r is Err <==> action_count(attrs@) > 1,
        r matches Ok(a) ==> match action_attr(attrs@) {
            Some(k) => a == Some(&attrs@[k]->List_0@[0]),
            None => a is None,
        },
{
    let mut found: Option<&ActionDesc> = None;
    let mut i: usize = 0;
    assert(attrs@.subrange(0, 0) =~= Seq::<ActionAttr>::empty());
    while i < attrs.len()
        invariant
            i <= attrs@.len(),
            action_count(attrs@.subrange(0, i as int)) <= 1,
            found is Some <==> action_count(attrs@.subrange(0, i as int)) == 1,
            match action_attr(attrs@.subrange(0, i as int)) {
                Some(k) => 0 <= k < i && found == Some(&attrs@[k]->List_0@[0]),
                None => found is None,
            },
        decreases attrs@.len() - i,
    {
        proof {
            let head = attrs@.subrange(0, i + 1);
            assert(head.drop_last() =~= attrs@.subrange(0, i as int));
            assert(head.last() == attrs@[i as int]);
        }
        if let ActionAttr::List(l) = &attrs[i] {
            if l.len() > 0 {
                match &l[0] {
                    ActionDesc::OtherMeta => {},
                    a => {
                        if l.len() > 1 || found.is_some() {
                            proof {
                                lemma_count_grows(attrs@, i + 1);
                            }
                            return Err(());
                        }
                        found = Some(a);
                    },
                }
            }
        }
        i += 1;
    }
    assert(attrs@.subrange(0, attrs@.len() as int) =~= attrs@);
    Ok(found)
}

proof fn lemma_count_grows(attrs: Seq<ActionAttr>, n: int)
    requires
        0 <= n <= attrs.len(),
    ensures
        action_count(attrs.subrange(0, n)) <= action_count(attrs),
    decreases attrs.len(),
{
    if n < attrs.len() {
        assert(attrs.drop_last().subrange(0, n) =~= attrs.subrange(0, n));
        lemma_count_grows(attrs.drop_last(), n);
    } else {
        assert(attrs.subrange(0, n) =~= attrs);
    }
}

fn plan_variant(attrs: &Vec<ActionAttr>, i: usize) -> (r: Result<VariantAction, EnumDefError>)
    ensures
        match variant_action(attrs@, i) {
            Ok(a) => r matches Ok(x) && x@ == a,
            Err(e) => r == Err::<VariantAction, EnumDefError>(e),
        },
        !(r matches Err(EnumDefError::DuplicateType(_))),
{
    match get_action_attribute(attrs) {
        Err(_) => Err(EnumDefError::MultipleActions(i)),
        Ok(None) => Ok(VariantAction::Inner),
        Ok(Some(a)) => match a {
            ActionDesc::Int(s, _) => Ok(VariantAction::Int(s.as_str().to_owned())),
            ActionDesc::Str(s) => Ok(VariantAction::Str(s.as_str().to_owned())),
            ActionDesc::Path(p) => Ok(VariantAction::Path(p.as_str().to_owned())),
            _ => Err(EnumDefError::UnsupportedAction(i)),
        },
    }
}

fn has_type_before(variants: &Vec<VariantDesc>, n: usize, ty: &String) -> (r: bool)
    requires
        n <= variants@.len(),
    ensures
        r == holds_type(variants@.subrange(0, n as int), ty@),
{
    let ghost head = variants@.subrange(0, n as int);
    let mut j: usize = 0;
    while j < n
        invariant
            j <= n <= variants@.len(),
            head == variants@.subrange(0, n as int),
            forall|k: int|
                0 <= k < j ==> !(#[trigger] head[k].inner matches Some(t) && t@ == ty@),
        decreases n - j,
    {
        assert(head[j as int] == variants@[j as int]);
        if let Some(t) = &variants[j].inner {
            if *t == *ty {
                assert(head[j as int].inner matches Some(t) && t@ == ty@);
                return true;
            }
        }
        j += 1;
    }
    false
}

fn plan_all(variants: &Vec<VariantDesc>) -> (r: Result<Vec<VariantAction>, EnumDefError>)
    ensures
        match plan_variants(variants@) {
            Ok(actions) => r matches Ok(x) && action_views(x@) == actions,
            Err(e) => r == Err::<Vec<VariantAction>, EnumDefError>(e),
        },
        r matches Err(EnumDefError::DuplicateType(i)) ==> i < variants@.len()
            && variants@[i as int].inner is Some,
{
    let mut actions: Vec<VariantAction> = Vec::new();
    let mut i: usize = 0;
    assert(variants@.subrange(0, 0) =~= Seq::<VariantDesc>::empty());
    assert(action_views(actions@) =~= Seq::<VariantActionSpec>::empty());
    while i < variants.len()
        invariant
            i <= variants@.len(),
            plan_variants(variants@.subrange(0, i as int)) == Ok::<
                Seq<VariantActionSpec>,
                EnumDefError,
            >(action_views(actions@)),
        decreases variants@.len() - i,
    {
        proof {
            let head = variants@.subrange(0, i + 1);
            assert(head.drop_last() =~= variants@.subrange(0, i as int));
            assert(head.last() == variants@[i as int]);
            if plan_variants(head) is Err {
                lemma_first_error(variants@, i + 1);
            }
        }
        let ty = match &variants[i].inner {
            Some(ty) => ty,
            None => {
                return Err(EnumDefError::NotSingleField(i));
            },
        };
        if has_type_before(variants, i, ty) {
            return Err(EnumDefError::DuplicateType(i));
        }
        match plan_variant(&variants[i].actions, i) {
            Err(e) => {
                return Err(e);
            },
            Ok(a) => {
                let ghost before = actions@;
                actions.push(a);
                assert(action_views(actions@) =~= action_views(before).push(a@));
            },
        }
        i += 1;
    }
    assert(variants@.subrange(0, variants@.len() as int) =~= variants@);
    Ok(actions)
}

/// Says what to implement for an enum with this type of error (`error`) and these variants, or
/// why it is refused. There are no variants where it is no enum.
pub fn client_task_enum_impl(
    error: Option<String>,
    variants: Option<&Vec<VariantDesc>>,
) -> (r: Result<EnumPlan, EnumDefError>)
    ensures
        match (error, variants) {
            (None, _) => r == Err::<EnumPlan, EnumDefError>(EnumDefError::MissingError),
            (Some(_), None) => r == Err::<EnumPlan, EnumDefError>(EnumDefError::NotEnum),
            (Some(e), Some(v)) => match plan_variants(v@) {
                Ok(actions) => r matches Ok(p) && p.error_type == e && action_views(p.actions@)
                    == actions,
                Err(x) => r == Err::<EnumPlan, EnumDefError>(x),
            },
        },
        r matches Err(EnumDefError::DuplicateType(i)) ==> (variants matches Some(v) && i < v@.len()
            && v@[i as int].inner is Some),
{
    let error_type = match error {
        Some(e) => e,
        None => {
            return Err(EnumDefError::MissingError);
        },
    };
    match variants {
        None => Err(EnumDefError::NotEnum),
        Some(v) => match plan_all(v) {
            Ok(actions) => Ok(EnumPlan { error_type, actions }),
            Err(e) => Err(e),
        },
    }
}

/// The action of a task in a variant that tells it like this, where `told` is what the task inside
/// says, or the number that is written or goes by the name.
pub open spec fn told_action(how: VariantActionSpec, told: Option<ActionSpec>) -> Option<
    ActionSpec,
> {
    match how {
        VariantActionSpec::Inner => told,
        VariantActionSpec::Str(s) => Some(ActionSpec::Str(s)),
        _ => match told {
            Some(ActionSpec::Num(_)) => told,
            _ => None,
        },
    }
}

impl VariantAction {
    /// The action of a task in a variant that tells it like this, where `told` is what the task
    /// inside says, or the number that is written or goes by the name. There is none where
    /// nothing is told, or no number where one is due.
    pub fn action<'a>(&'a self, told: Option<RpcAction<'a>>) -> (r: Option<RpcAction<'a>>)
        ensures
            match told_action(self@, told_view(told)) {
                Some(a) => r matches Some(x) && x@ == a,
                None => r is None,
            },
    {
        match self {
            VariantAction::Inner => told,
            VariantAction::Str(s) => Some(RpcAction::Str(s.as_str())),
            _ => match told {
                Some(RpcAction::Num(n)) => Some(RpcAction::Num(n)),
                _ => None,
            },
        }
    }
}

/// The action of a task in an accepted enum: what its variant gives, whatever the task inside says;
/// and what the task inside says where the variant gives none.
pub proof fn lemma_action_of_variant(variants: Seq<VariantDesc>, i: int, told: ActionSpec)
    requires
        variants.len() <= usize::MAX,
        plan_variants(variants) is Ok,
        0 <= i < variants.len(),
    ensures
        ({
            let attrs = variants[i].actions@;
            let action = told_action(plan_variants(variants)->Ok_0[i], Some(told));
            match action_attr(attrs) {
                None => action == Some(told),
                Some(k) => match attrs[k]->List_0@[0] {
                    ActionDesc::Str(s) => action == Some(ActionSpec::Str(s@)),
                    ActionDesc::Int(_, _) => told is Num ==> action == Some(told),
                    ActionDesc::Path(_) => told is Num ==> action == Some(told),
                    _ => false,
                },
            }
        }),
    decreases variants.len(),
{
    lemma_accepted_enum(variants);
    if i < variants.len() - 1 {
        let head = variants.drop_last();
        lemma_accepted_enum(head);
        lemma_action_of_variant(head, i, told);
        assert(head[i] == variants[i]);
    }
}

/// What is wrong with the first variants is wrong with all of them.
proof fn lemma_first_error(variants: Seq<VariantDesc>, n: int)
    requires
        0 <= n <= variants.len(),
        plan_variants(variants.subrange(0, n)) is Err,
    ensures
        plan_variants(variants) == plan_variants(variants.subrange(0, n)),
    decreases variants.len(),
{
    if n < variants.len() {
        let head = variants.drop_last();
        assert(head.subrange(0, n) =~= variants.subrange(0, n));
        lemma_first_error(head, n);
    } else {
        assert(variants.subrange(0, n) =~= variants);
    }
}

/// An enum is accepted only if each variant holds a single task, no two of the same type, and
/// has at most one action; and a variant leaves its action to the task inside only where it
/// gives none.
pub proof fn lemma_accepted_enum(variants: Seq<VariantDesc>)
    requires
        variants.len() <= usize::MAX,
        plan_variants(variants) is Ok,
    ensures
        plan_variants(variants)->Ok_0.len() == variants.len(),
        forall|i: int| 0 <= i < variants.len() ==> (#[trigger] variants[i]).inner is Some,
        forall|i: int, j: int|
            0 <= i < j < variants.len() ==> (#[trigger] variants[i]).inner->0@ != (
            #[trigger] variants[j]).inner->0@,
        forall|i: int|
            0 <= i < variants.len() ==> action_count((#[trigger] variants[i]).actions@) <= 1 && ((
            plan_variants(variants)->Ok_0[i] is Inner) == (action_attr(variants[i].actions@)
                is None)),
    decreases variants.len(),
{
    if variants.len() > 0 {
        let head = variants.drop_last();
        lemma_accepted_enum(head);
        let n = variants.len() - 1;
        assert forall|i: int, j: int| 0 <= i < j < variants.len() implies (
        #[trigger] variants[i]).inner->0@ != (#[trigger] variants[j]).inner->0@ by {
            assert(head[i] == variants[i]);
            if j < n {
                assert(head[j] == variants[j]);
            } else {
                assert(!holds_type(head, variants[j].inner->0@));
            }
        }
        assert forall|i: int| 0 <= i < variants.len() implies (#[trigger] variants[i]).inner is Some
            && action_count(variants[i].actions@) <= 1 && ((plan_variants(variants)->Ok_0[i]
            is Inner) == (action_attr(variants[i].actions@) is None)) by {
            if i < n {
                assert(head[i] == variants[i]);
            }
        }
    }
}

} // verus!
