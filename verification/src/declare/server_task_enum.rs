//! Declaring an enum of server tasks.
//!
//! Such an enum takes requests, each into the variant that lists its action, or gives responses,
//! or both.

use crate::declare::client_task_enum::{ActionAttr, VariantDesc};
use crate::declare::syntax::{str_is, ActionDesc};
use crate::proto::{told_view, ActionSpec, RpcAction, RpcActionOwned};
use vstd::prelude::*;

verus! {

/// An argument of the attribute on the enum: a name, with the type behind `=` if there is one.
#[derive(Debug)]
pub struct EnumArg {
    pub name: String,
    pub value: Option<String>,
}

/// An action of a variant.
#[derive(Debug)]
pub enum ServerAction {
    /// A number, as it is written.
    Int(String),
    Str(String),
    /// A number that goes by a name.
    Path(String),
}

/// An action of a variant.
pub enum ServerActionSpec {
    Int(Seq<char>),
    Str(Seq<char>),
    Path(Seq<char>),
}

impl View for ServerAction {
    type V = ServerActionSpec;

    open spec fn view(&self) -> ServerActionSpec {
        match self {
            ServerAction::Int(s) => ServerActionSpec::Int(s@),
            ServerAction::Str(s) => ServerActionSpec::Str(s@),
            ServerAction::Path(p) => ServerActionSpec::Path(p@),
        }
    }
}

/// Why a declaration is refused. An index is that of the argument or of the variant.
#[derive(Clone, Copy, Debug, PartialEq, Eq, Structural)]
pub enum ServerEnumError {
    UnknownArg(usize),
    /// Neither `req` nor `resp` is given.
    NoRole,
    MissingRespType,
    MissingError,
    NotEnum,
    NotSingleField(usize),
    UnsupportedAction(usize),
    MissingAction(usize),
}

impl ServerEnumError {
    pub open spec fn text(self) -> Seq<char> {
        match self {
            ServerEnumError::UnknownArg(_) => "Unsupported attribute argument"@,
            ServerEnumError::NoRole => "#[server_task_enum] requires `req` or `resp`"@,
            ServerEnumError::MissingRespType =>
            "#[server_task_enum] requires `resp_type = <Type>` where only `req` is given"@,
            ServerEnumError::MissingError =>
            "#[server_task_enum] requires an `error = <Type>` attribute"@,
            ServerEnumError::NotEnum => "#[server_task_enum] can only be applied to enums"@,
            ServerEnumError::NotSingleField(_) =>
            "Enum variants must be tuple-style with a single field"@,
            ServerEnumError::UnsupportedAction(_) => "Unsupported action type"@,
            ServerEnumError::MissingAction(_) =>
            "Each variant must have an #[action(...)] attribute"@,
        }
    }

    /// The message for this error.
    pub fn message(&self) -> (r: &'static str)
        ensures
            r@ == self.text(),
    {
        match self {
            ServerEnumError::UnknownArg(_) => "Unsupported attribute argument",
            ServerEnumError::NoRole => "#[server_task_enum] requires `req` or `resp`",
            ServerEnumError::MissingRespType =>
            "#[server_task_enum] requires `resp_type = <Type>` where only `req` is given",
            ServerEnumError::MissingError =>
            "#[server_task_enum] requires an `error = <Type>` attribute",
            ServerEnumError::NotEnum => "#[server_task_enum] can only be applied to enums",
            ServerEnumError::NotSingleField(_) =>
            "Enum variants must be tuple-style with a single field",
            ServerEnumError::UnsupportedAction(_) => "Unsupported action type",
            ServerEnumError::MissingAction(_) =>
            "Each variant must have an #[action(...)] attribute",
        }
    }
}

/// What to implement for an enum.
#[derive(Debug)]
pub struct ServerEnumPlan {
    /// Whether it takes requests.
    pub decode: bool,
    /// Whether it gives responses.
    pub encode: bool,
    /// The type that goes to the writer, or `None` where that is the enum itself.
    pub resp_type: Option<String>,
    pub error_type: Option<String>,
    /// The actions of each variant; none where the enum takes no requests.
    pub actions: Vec<Vec<ServerAction>>,
}

/// What to implement for an enum.
pub struct ServerPlanSpec {
    pub decode: bool,
    pub encode: bool,
    pub resp_type: Option<Seq<char>>,
    pub error_type: Option<Seq<char>>,
    pub actions: Seq<Seq<ServerActionSpec>>,
}

/// The text, where there is any.
pub open spec fn text_of(s: Option<String>) -> Option<Seq<char>> {
    match s {
        Some(s) => Some(s@),
        None => None,
    }
}

impl View for ServerEnumPlan {
    type V = ServerPlanSpec;

    open spec fn view(&self) -> ServerPlanSpec {
        ServerPlanSpec {
            decode: self.decode,
            encode: self.encode,
            resp_type: text_of(self.resp_type),
            error_type: text_of(self.error_type),
            actions: Seq::new(self.actions@.len(), |i: int| server_views(self.actions@[i]@)),
        }
    }
}

/// The views of the actions.
pub open spec fn server_views(actions: Seq<ServerAction>) -> Seq<ServerActionSpec> {
    actions.map_values(|a: ServerAction| a@)
}

/// Whether an argument has one of the names that are known.
pub open spec fn known_arg(a: EnumArg) -> bool {
    a.name@ == "req"@ || a.name@ == "resp"@ || a.name@ == "resp_type"@ || a.name@ == "error"@
}

/// The index of the first argument with an unknown name.
pub open spec fn unknown_arg(args: Seq<EnumArg>) -> Option<usize>
    decreases args.len(),
{
    if args.len() == 0 {
        None
    } else {
        match unknown_arg(args.drop_last()) {
            Some(i) => Some(i),
            None => if known_arg(args.last()) {
                None
            } else {
                Some((args.len() - 1) as usize)
            },
        }
    }
}

/// Whether there is an argument with this name.
pub open spec fn has_arg(args: Seq<EnumArg>, name: Seq<char>) -> bool {
    exists|i: int| 0 <= i < args.len() && (#[trigger] args[i]).name@ == name
}

/// The value of the argument with this name: the last one, where there are several.
pub open spec fn arg_value(args: Seq<EnumArg>, name: Seq<char>) -> Option<Seq<char>>
    decreases args.len(),
{
    if args.len() == 0 {
        None
    } else if args.last().name@ == name && args.last().value is Some {
        Some(args.last().value->0@)
    } else {
        arg_value(args.drop_last(), name)
    }
}

/// Everything that the `#[action(..)]` attributes of a variant list, in order.
pub open spec fn listed(attrs: Seq<ActionAttr>) -> Seq<ActionDesc>
    decreases attrs.len(),
{
    if attrs.len() == 0 {
        Seq::empty()
    } else {
        listed(attrs.drop_last()) + match attrs.last() {
            ActionAttr::List(l) => l@,
            ActionAttr::NotList => Seq::empty(),
        }
    }
}

/// The action that is written like this: a number, a string, or a name.
pub open spec fn written_action(d: ActionDesc) -> Option<ServerActionSpec> {
    match d {
        ActionDesc::Int(s, _) => Some(ServerActionSpec::Int(s@)),
        ActionDesc::Str(s) => Some(ServerActionSpec::Str(s@)),
        ActionDesc::Path(p) => Some(ServerActionSpec::Path(p@)),
        _ => None,
    }
}

/// Whether all of `ds` are actions.
pub open spec fn all_actions(ds: Seq<ActionDesc>) -> bool {
    forall|i: int| 0 <= i < ds.len() ==> written_action(#[trigger] ds[i]) is Some
}

/// The actions that are written like `ds`.
pub open spec fn written_actions(ds: Seq<ActionDesc>) -> Seq<ServerActionSpec> {
    ds.map_values(|d: ActionDesc| written_action(d)->0)
}

/// What is wrong with a variant, if anything. One that takes requests lists the actions for which
/// it does.
pub open spec fn variant_error(v: VariantDesc, req: bool, i: usize) -> Option<ServerEnumError> {
    let ds = listed(v.actions@);
    if v.inner is None {
        Some(ServerEnumError::NotSingleField(i))
    } else if !req {
        None
    } else if !all_actions(ds) {
        Some(ServerEnumError::UnsupportedAction(i))
    } else if ds.len() == 0 {
        Some(ServerEnumError::MissingAction(i))
    } else {
        None
    }
}

/// What is wrong with the first variant that is wrong, if one is.
pub open spec fn first_error(variants: Seq<VariantDesc>, req: bool) -> Option<ServerEnumError>
    decreases variants.len(),
{
    if variants.len() == 0 {
        None
    } else {
        match first_error(variants.drop_last(), req) {
            Some(e) => Some(e),
            None => variant_error(variants.last(), req, (variants.len() - 1) as usize),
        }
    }
}

/// The actions of a variant.
pub open spec fn variant_actions(v: VariantDesc, req: bool) -> Seq<ServerActionSpec> {
    if req {
        written_actions(listed(v.actions@))
    } else {
        Seq::empty()
    }
}

/// What to implement for an enum with these arguments and variants, or why it is refused. There are
/// no variants where it is no enum.
pub open spec fn server_plan(args: Seq<EnumArg>, variants: Option<Seq<VariantDesc>>) -> Result<
    ServerPlanSpec,
    ServerEnumError,
> {
    let req = has_arg(args, "req"@);
    let resp = has_arg(args, "resp"@);
    let resp_type = arg_value(args, "resp_type"@);
    let error_type = arg_value(args, "error"@);
    match unknown_arg(args) {
        Some(i) => Err(ServerEnumError::UnknownArg(i)),
        None => if !req && !resp {
            Err(ServerEnumError::NoRole)
        } else if !resp && resp_type is None {
            Err(ServerEnumError::MissingRespType)
        } else if resp && error_type is None {
            Err(ServerEnumError::MissingError)
        } else {
            match variants {
                None => Err(ServerEnumError::NotEnum),
                Some(vs) => match first_error(vs, req) {
                    Some(e) => Err(e),
                    None => Ok(
                        ServerPlanSpec {
                            decode: req,
                            encode: resp,
                            resp_type: if resp {
                                None
                            } else {
                                resp_type
                            },
                            error_type,
                            actions: Seq::new(vs.len(), |i: int| variant_actions(vs[i], req)),
                        },
                    ),
                },
            }
        },
    }
}

fn find_unknown(args: &Vec<EnumArg>) -> (r: Option<usize>)
    ensures
        r == unknown_arg(args@),
{
    let mut r: Option<usize> = None;
    let mut i: usize = 0;
    assert(args@.subrange(0, 0) =~= Seq::<EnumArg>::empty());
    while i < args.len()
        invariant
            i <= args@.len(),
            r == unknown_arg(args@.subrange(0, i as int)),
        decreases args@.len() - i,
    {
        proof {
            let head = args@.subrange(0, i + 1);
            assert(head.drop_last() =~= args@.subrange(0, i as int));
            assert(head.last() == args@[i as int]);
        }
        let name = &args[i].name;
        let known = str_is(name, "req") || str_is(name, "resp") || str_is(name, "resp_type")
            || str_is(name, "error");
        if r.is_none() && !known {
            r = Some(i);
        }
        i += 1;
    }
    assert(args@.subrange(0, args@.len() as int) =~= args@);
    r
}

fn find_arg(args: &Vec<EnumArg>, name: &str) -> (r: bool)
    ensures
        r == has_arg(args@, name@),
{
    let mut i: usize = 0;
    while i < args.len()
        invariant
            i <= args@.len(),
            forall|j: int| 0 <= j < i ==> (#[trigger] args@[j]).name@ != name@,
        decreases args@.len() - i,
    {
        if str_is(&args[i].name, name) {
            assert(args@[i as int].name@ == name@);
            return true;
        }
        i += 1;
    }
    false
}

fn find_value(args: &Vec<EnumArg>, name: &str) -> (r: Option<String>)
    ensures
        text_of(r) == arg_value(args@, name@),
{
    let mut r: Option<String> = None;
    let mut i: usize = 0;
    assert(args@.subrange(0, 0) =~= Seq::<EnumArg>::empty());
    while i < args.len()
        invariant
            i <= args@.len(),
            text_of(r) == arg_value(args@.subrange(0, i as int), name@),
        decreases args@.len() - i,
    {
        proof {
            let head = args@.subrange(0, i + 1);
            assert(head.drop_last() =~= args@.subrange(0, i as int));
            assert(head.last() == args@[i as int]);
        }
        if str_is(&args[i].name, name) {
            if let Some(v) = &args[i].value {
                r = Some(v.as_str().to_owned());
            }
        }
        i += 1;
    }
    assert(args@.subrange(0, args@.len() as int) =~= args@);
    r
}

fn read_action(d: &ActionDesc) -> (r: Option<ServerAction>)
    ensures
        match written_action(*d) {
            Some(a) => r matches Some(x) && x@ == a,
            None => r is None,
        },
{
    match d {
        ActionDesc::Int(s, _) => Some(ServerAction::Int(s.as_str().to_owned())),
        ActionDesc::Str(s) => Some(ServerAction::Str(s.as_str().to_owned())),
        ActionDesc::Path(p) => Some(ServerAction::Path(p.as_str().to_owned())),
        _ => None,
    }
}

/// Appends the actions in a list to `out`, and says whether all were actions.
fn read_list(list: &Vec<ActionDesc>, out: &mut Vec<ServerAction>) -> (r: bool)
    ensures
        r == all_actions(list@),
        r ==> server_views(final(out)@) == server_views(old(out)@) + written_actions(list@),
{
    let mut ok: bool = true;
    let mut i: usize = 0;
    let ghost before = server_views(out@);
    assert(server_views(out@) =~= before + written_actions(list@.subrange(0, 0)));
    while i < list.len()
        invariant
            i <= list@.len(),
            ok == all_actions(list@.subrange(0, i as int)),
            ok ==> server_views(out@) == before + written_actions(list@.subrange(0, i as int)),
        decreases list@.len() - i,
    {
        let ghost head = list@.subrange(0, i as int);
        let ghost next = list@.subrange(0, i + 1);
        let ghost had = out@;
        assert(next =~= head.push(list@[i as int]));
        assert(forall|j: int| 0 <= j < i ==> next[j] == #[trigger] head[j]);
        match read_action(&list[i]) {
            Some(a) => {
                out.push(a);
                assert(server_views(out@) =~= server_views(had).push(a@));
                assert(written_actions(next) =~= written_actions(head).push(a@));
                assert(before + written_actions(head).push(a@) =~= (before + written_actions(
                    head,
                )).push(a@));
                assert(all_actions(next) == all_actions(head)) by {
                    assert(next[i as int] == list@[i as int]);
                }
            },
            None => {
                ok = false;
                assert(written_action(next[i as int]) is None);
            },
        }
        i += 1;
    }
    assert(list@.subrange(0, list@.len() as int) =~= list@);
    ok
}

/// The actions that the attributes of a variant list, or `None` where one is no action.
fn read_attrs(attrs: &Vec<ActionAttr>) -> (r: Option<Vec<ServerAction>>)
    ensures
        r is Some <==> all_actions(listed(attrs@)),
        r matches Some(a) ==> server_views(a@) == written_actions(listed(attrs@)),
{
    let mut out: Vec<ServerAction> = Vec::new();
    let mut ok: bool = true;
    let mut i: usize = 0;
    assert(attrs@.subrange(0, 0) =~= Seq::<ActionAttr>::empty());
    assert(server_views(out@) =~= written_actions(Seq::<ActionDesc>::empty()));
    while i < attrs.len()
        invariant
            i <= attrs@.len(),
            ok == all_actions(listed(attrs@.subrange(0, i as int))),
            ok ==> server_views(out@) == written_actions(listed(attrs@.subrange(0, i as int))),
        decreases attrs@.len() - i,
    {
        let ghost head = attrs@.subrange(0, i as int);
        let ghost next = attrs@.subrange(0, i + 1);
        proof {
            assert(next.drop_last() =~= head);
            assert(next.last() == attrs@[i as int]);
        }
        match &attrs[i] {
            ActionAttr::List(l) => {
                let good = read_list(l, &mut out);
                proof {
                    lemma_all_actions(listed(head), l@);
                    assert(written_actions(listed(head) + l@) =~= written_actions(listed(head))
                        + written_actions(l@));
                }
                ok = ok && good;
            },
            ActionAttr::NotList => {
                assert(listed(next) =~= listed(head));
            },
        }
        i += 1;
    }
    assert(attrs@.subrange(0, attrs@.len() as int) =~= attrs@);
    if ok {
        Some(out)
    } else {
        None
    }
}

proof fn lemma_all_actions(a: Seq<ActionDesc>, b: Seq<ActionDesc>)
    ensures
        all_actions(a + b) == (all_actions(a) && all_actions(b)),
{
    let c = a + b;
    assert(forall|i: int| 0 <= i < a.len() ==> c[i] == #[trigger] a[i]);
    assert(forall|i: int| 0 <= i < b.len() ==> c[a.len() + i] == #[trigger] b[i]);
    if all_actions(c) {
        assert forall|i: int| 0 <= i < a.len() implies written_action(#[trigger] a[i]) is Some by {
            assert(c[i] == a[i]);
        }
        assert forall|i: int| 0 <= i < b.len() implies written_action(#[trigger] b[i]) is Some by {
            assert(c[a.len() + i] == b[i]);
        }
    }
}

fn read_variant(v: &VariantDesc, req: bool, i: usize) -> (r: Result<
    Vec<ServerAction>,
    ServerEnumError,
>)
    ensures
        match variant_error(*v, req, i) {
            Some(e) => r == Err::<Vec<ServerAction>, ServerEnumError>(e),
            None => r matches Ok(a) && server_views(a@) == variant_actions(*v, req),
        },
{
    if v.inner.is_none() {
        return Err(ServerEnumError::NotSingleField(i));
    }
    if !req {
        let none: Vec<ServerAction> = Vec::new();
        assert(server_views(none@) =~= Seq::<ServerActionSpec>::empty());
        return Ok(none);
    }
    match read_attrs(&v.actions) {
        None => Err(ServerEnumError::UnsupportedAction(i)),
        Some(a) => {
            proof {
                assert(server_views(a@).len() == written_actions(listed(v.actions@)).len());
            }
            if a.len() == 0 {
                Err(ServerEnumError::MissingAction(i))
            } else {
                Ok(a)
            }
        },
    }
}

fn read_variants(variants: &Vec<VariantDesc>, req: bool) -> (r: Result<
    Vec<Vec<ServerAction>>,
    ServerEnumError,
>)
    ensures
        match first_error(variants@, req) {
            Some(e) => r == Err::<Vec<Vec<ServerAction>>, ServerEnumError>(e),
            None => {
                &&& r matches Ok(a)
                &&& a@.len() == variants@.len()
                &&& forall|i: int|
                    0 <= i < a@.len() ==> server_views((#[trigger] a@[i])@) == variant_actions(
                        variants@[i],
                        req,
                    )
            },
        },
{
    let mut out: Vec<Vec<ServerAction>> = Vec::new();
    let mut err: Option<ServerEnumError> = None;
    let mut i: usize = 0;
    assert(variants@.subrange(0, 0) =~= Seq::<VariantDesc>::empty());
    while i < variants.len()
        invariant
            i <= variants@.len(),
            err == first_error(variants@.subrange(0, i as int), req),
            err is None ==> out@.len() == i && forall|k: int|
                0 <= k < i ==> server_views((#[trigger] out@[k])@) == variant_actions(
                    variants@[k],
                    req,
                ),
        decreases variants@.len() - i,
    {
        proof {
            let next = variants@.subrange(0, i + 1);
            assert(next.drop_last() =~= variants@.subrange(0, i as int));
            assert(next.last() == variants@[i as int]);
        }
        if err.is_none() {
            match read_variant(&variants[i], req, i) {
                Ok(a) => {
                    out.push(a);
                },
                Err(e) => {
                    err = Some(e);
                },
            }
        }
        i += 1;
    }
    assert(variants@.subrange(0, variants@.len() as int) =~= variants@);
    match err {
        Some(e) => Err(e),
        None => Ok(out),
    }
}

/// Says what to implement for an enum with these arguments and variants, or why it is refused. There
/// are no variants where it is no enum.
pub fn server_task_enum_impl(args: &Vec<EnumArg>, variants: Option<&Vec<VariantDesc>>) -> (r: Result<
    ServerEnumPlan,
    ServerEnumError,
>)
    ensures
        match server_plan(
            args@,
            match variants {
                Some(v) => Some(v@),
                None => None,
            },
        ) {
            Ok(p) => r matches Ok(x) && x@ == p,
            Err(e) => r == Err::<ServerEnumPlan, ServerEnumError>(e),
        },
{
    if let Some(i) = find_unknown(args) {
        return Err(ServerEnumError::UnknownArg(i));
    }
    let decode = find_arg(args, "req");
    let encode = find_arg(args, "resp");
    let given = find_value(args, "resp_type");
    let error_type = find_value(args, "error");
    if !decode && !encode {
        return Err(ServerEnumError::NoRole);
    }
    if !encode && given.is_none() {
        return Err(ServerEnumError::MissingRespType);
    }
    if encode && error_type.is_none() {
        return Err(ServerEnumError::MissingError);
    }
    let variants = match variants {
        Some(v) => v,
        None => {
            return Err(ServerEnumError::NotEnum);
        },
    };
    let actions = match read_variants(variants, decode) {
        Ok(a) => a,
        Err(e) => {
            return Err(e);
        },
    };
    let resp_type = if encode {
        None
    } else {
        given
    };
    let r = ServerEnumPlan { decode, encode, resp_type, error_type, actions };
    proof {
        let want = Seq::new(variants@.len(), |i: int| variant_actions(variants@[i], decode));
        assert(r@.actions =~= want) by {
            assert forall|i: int| 0 <= i < want.len() implies #[trigger] r@.actions[i]
                == want[i] by {
                assert(server_views(r.actions@[i]@) == variant_actions(variants@[i], decode));
            }
        }
    }
    Ok(r)
}

/// The action that is meant, where `number` is what is written or goes by the name.
pub open spec fn meant_action(a: ServerActionSpec, number: i32) -> ActionSpec {
    match a {
        ServerActionSpec::Str(s) => ActionSpec::Str(s),
        _ => ActionSpec::Num(number),
    }
}

impl ServerAction {
    /// The action that is meant, where `number` is what is written or goes by the name. It does not
    /// matter for a string.
    pub fn action(&self, number: i32) -> (r: RpcActionOwned)
        ensures
            r@ == meant_action(self@, number),
    {
        match self {
            ServerAction::Str(s) => RpcActionOwned::Str(s.as_str().to_owned()),
            _ => RpcActionOwned::Num(number),
        }
    }
}

/// Whether `actions` holds this action.
pub open spec fn lists(actions: Seq<RpcActionOwned>, action: ActionSpec) -> bool {
    exists|i: int| 0 <= i < actions.len() && (#[trigger] actions[i])@ == action
}

/// Whether `i` is the first variant for this action.
pub open spec fn variant_for(table: Seq<Vec<RpcActionOwned>>, action: ActionSpec, i: int) -> bool {
    &&& 0 <= i < table.len()
    &&& lists(table[i]@, action)
    &&& forall|j: int| 0 <= j < i ==> !lists((#[trigger] table[j])@, action)
}

/// Whether no variant takes this action.
pub open spec fn no_variant_for(table: Seq<Vec<RpcActionOwned>>, action: ActionSpec) -> bool {
    forall|j: int| 0 <= j < table.len() ==> !lists((#[trigger] table[j])@, action)
}

fn is_action(a: &RpcActionOwned, b: &RpcAction<'_>) -> (r: bool)
    ensures
        r == (a@ == b@),
{
    match a {
        RpcActionOwned::Str(s) => match b {
            RpcAction::Str(t) => str_is(s, t),
            RpcAction::Num(_) => false,
        },
        RpcActionOwned::Num(n) => match b {
            RpcAction::Str(_) => false,
            RpcAction::Num(m) => *n == *m,
        },
    }
}

/// The variant that takes a request with this action: the first that lists it, if one does.
pub fn select_variant(table: &Vec<Vec<RpcActionOwned>>, action: &RpcAction<'_>) -> (r: Option<usize>)
    ensures
        match r {
            Some(i) => variant_for(table@, action@, i as int),
            None => no_variant_for(table@, action@),
        },
{
    let mut i: usize = 0;
    while i < table.len()
        invariant
            i <= table@.len(),
            forall|j: int| 0 <= j < i ==> !lists((#[trigger] table@[j])@, action@),
        decreases table@.len() - i,
    {
        let actions = &table[i];
        let mut k: usize = 0;
        while k < actions.len()
            invariant
                i < table@.len(),
                *actions == table@[i as int],
                k <= actions@.len(),
                forall|j: int| 0 <= j < i ==> !lists((#[trigger] table@[j])@, action@),
                forall|j: int| 0 <= j < k ==> (#[trigger] actions@[j])@ != action@,
            decreases actions@.len() - k,
        {
            if is_action(&actions[k], action) {
                assert(actions@[k as int]@ == action@);
                return Some(i);
            }
            k += 1;
        }
        i += 1;
    }
    None
}

/// The action of a task in a variant with these actions, where `inner` is what the task inside says:
/// the one action that the variant has, or else what the task inside says.
pub open spec fn variant_tells(actions: Seq<RpcActionOwned>, inner: Option<ActionSpec>) -> Option<
    ActionSpec,
> {
    if actions.len() == 1 {
        Some(actions[0]@)
    } else {
        inner
    }
}

/// The action of a task in a variant with these actions, where `inner` is what the task inside says.
pub fn tell_action<'a>(actions: &'a Vec<RpcActionOwned>, inner: Option<RpcAction<'a>>) -> (r: Option<
    RpcAction<'a>,
>)
    ensures
        match variant_tells(actions@, told_view(inner)) {
            Some(a) => r matches Some(x) && x@ == a,
            None => r is None,
        },
{
    if actions.len() == 1 {
        Some(actions[0].to_action())
    } else {
        inner
    }
}

/// A request keeps its action: the variant that takes it tells the action that was asked for, where
/// the task inside keeps it too.
pub proof fn lemma_variant_tells_what_was_asked(
    table: Seq<Vec<RpcActionOwned>>,
    action: ActionSpec,
    i: int,
)
    requires
        variant_for(table, action, i),
    ensures
        variant_tells(table[i]@, Some(action)) == Some(action),
        table[i]@.len() == 1 ==> variant_tells(table[i]@, None) == Some(action),
{
}

/// An enum is accepted only if it takes requests or gives responses; each of its variants has an
/// action if it takes requests; and it names a type that goes to the writer exactly if it gives no
/// responses itself.
pub proof fn lemma_accepted_server_enum(args: Seq<EnumArg>, variants: Seq<VariantDesc>)
    requires
        variants.len() <= usize::MAX,
        server_plan(args, Some(variants)) is Ok,
    ensures
        ({
            let p = server_plan(args, Some(variants))->Ok_0;
            &&& p.decode == has_arg(args, "req"@) && p.encode == has_arg(args, "resp"@)
            &&& p.decode || p.encode
            &&& p.resp_type is Some <==> !p.encode
            &&& p.encode ==> p.error_type is Some
            &&& p.actions.len() == variants.len()
            &&& forall|i: int|
                0 <= i < variants.len() ==> (#[trigger] variants[i]).inner is Some && (p.decode
                    ==> p.actions[i].len() > 0)
        }),
{
    let req = has_arg(args, "req"@);
    assert forall|i: int| 0 <= i < variants.len() implies (#[trigger] variants[i]).inner is Some && (
    req ==> variant_actions(variants[i], req).len() > 0) by {
        lemma_no_error(variants, req, i);
    }
}

proof fn lemma_no_error(variants: Seq<VariantDesc>, req: bool, i: int)
    requires
        first_error(variants, req) is None,
        0 <= i < variants.len(),
    ensures
        variant_error(variants[i], req, i as usize) is None,
    decreases variants.len(),
{
    if i < variants.len() - 1 {
        lemma_no_error(variants.drop_last(), req, i);
    }
}

} // verus!
