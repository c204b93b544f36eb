//! Declaring a client task on a struct.

use crate::declare::syntax::{
    action_read, first_type, get_first_type, get_last_segment, last_segment, read_action, str_is,
    ActionDesc, ArgDesc, MetaDesc, SegmentDesc, TypeDesc,
};
use crate::proto::{told_view, ActionSpec, RpcAction};
use vstd::prelude::*;

verus! {

/// What a field of a task is for.
#[derive(Clone, Copy, Debug, PartialEq, Eq, Structural)]
pub enum FieldRole {
    /// What every task has in common
    Common,
    Req,
    Resp,
    ReqBlob,
    RespBlob,
    Action,
    /// The result
    Res,
    /// The way back to whoever issued the task
    Noti,
    /// Nothing that matters here
    Other,
}

/// The role with this name.
pub open spec fn role_named(name: Seq<char>) -> FieldRole {
    if name == "common"@ {
        FieldRole::Common
    } else if name == "req"@ {
        FieldRole::Req
    } else if name == "resp"@ {
        FieldRole::Resp
    } else if name == "req_blob"@ {
        FieldRole::ReqBlob
    } else if name == "resp_blob"@ {
        FieldRole::RespBlob
    } else if name == "action"@ {
        FieldRole::Action
    } else if name == "res"@ {
        FieldRole::Res
    } else if name == "noti"@ {
        FieldRole::Noti
    } else {
        FieldRole::Other
    }
}

/// The role with this name.
pub fn field_role(name: &String) -> (r: FieldRole)
    ensures
        r == role_named(name@),
{
    if str_is(name, "common") {
        FieldRole::Common
    } else if str_is(name, "req") {
        FieldRole::Req
    } else if str_is(name, "resp") {
        FieldRole::Resp
    } else if str_is(name, "req_blob") {
        FieldRole::ReqBlob
    } else if str_is(name, "resp_blob") {
        FieldRole::RespBlob
    } else if str_is(name, "action") {
        FieldRole::Action
    } else if str_is(name, "res") {
        FieldRole::Res
    } else if str_is(name, "noti") {
        FieldRole::Noti
    } else {
        FieldRole::Other
    }
}

/// A field, with the names of its roles in the order in which they are written.
#[derive(Debug)]
pub struct FieldDesc {
    pub name: String,
    pub ty: TypeDesc,
    pub roles: Vec<String>,
}

/// An argument of the attribute on the struct.
#[derive(Debug)]
pub enum TaskArg {
    Debug,
    Action(ActionDesc),
}

/// Whether an item is just this identifier.
pub open spec fn is_ident(m: MetaDesc, ident: Seq<char>) -> bool {
    m matches MetaDesc::Path(_, Some(i)) && i@ == ident
}

/// The argument that an item stands for: `debug`, or an action.
pub fn read_task_arg(m: MetaDesc) -> (r: TaskArg)
    ensures
        if is_ident(m, "debug"@) {
            r is Debug
        } else {
            r matches TaskArg::Action(a) && action_read(m, a)
        },
{
    let debug = match &m {
        MetaDesc::Path(_, Some(i)) => str_is(i, "debug"),
        _ => false,
    };
    if debug {
        TaskArg::Debug
    } else {
        TaskArg::Action(read_action(m))
    }
}

/// The names of roles in the brackets of an attribute: the identifiers there, in order.
pub open spec fn role_names(items: Seq<MetaDesc>) -> Seq<Seq<char>>
    decreases items.len(),
{
    if items.len() == 0 {
        Seq::empty()
    } else {
        match items.last() {
            MetaDesc::Path(_, Some(i)) => role_names(items.drop_last()).push(i@),
            _ => role_names(items.drop_last()),
        }
    }
}

/// Appends the names of roles in the brackets of an attribute.
pub fn read_roles(items: &Vec<MetaDesc>, out: &mut Vec<String>)
    ensures
        final(out)@.map_values(|s: String| s@) == old(out)@.map_values(|s: String| s@) + role_names(
            items@,
        ),
{
    let ghost before = out@.map_values(|s: String| s@);
    let mut i: usize = 0;
    proof {
        assert(items@.subrange(0, 0) =~= Seq::<MetaDesc>::empty());
        assert(before + Seq::<Seq<char>>::empty() =~= before);
    }
    while i < items.len()
        invariant
            i <= items@.len(),
            out@.map_values(|s: String| s@) == before + role_names(items@.subrange(0, i as int)),
        decreases items@.len() - i,
    {
        let ghost had = out@;
        let ghost head = items@.subrange(0, i as int);
        proof {
            let next = items@.subrange(0, i + 1);
            assert(next.drop_last() =~= head);
            assert(next.last() == items@[i as int]);
        }
        if let MetaDesc::Path(_, Some(name)) = &items[i] {
            out.push(name.as_str().to_owned());
            proof {
                assert(out@.map_values(|s: String| s@) =~= had.map_values(|s: String| s@).push(
                    name@,
                ));
                assert((before + role_names(head)).push(name@) =~= before + role_names(head).push(
                    name@,
                ));
            }
        }
        i += 1;
    }
    assert(items@.subrange(0, items@.len() as int) =~= items@);
}

/// Why a declaration is refused.
#[derive(Clone, Copy, Debug, PartialEq, Eq, Structural)]
pub enum TaskDefError {
    DuplicateDebug,
    MultipleActions,
    MultipleActionFields,
    BothActions,
    ResNotiApart,
    MissingCommon,
    MissingReq,
    MissingResp,
    RespNotOption,
    FieldActionType,
    InvalidInt,
    UnsupportedAction,
    ResNotPath,
    ResNotOption,
    OptionNoType,
    OptionNoArgs,
    ResInnerNotResult,
    ResNotOptionResult,
    ResultNoArgs,
    ResultNotTwo,
    ResultOkNotUnit,
    ResultNoError,
    ErrorNotRpcError,
    RpcErrorNoType,
    RpcErrorNoArgs,
    NotiNotPath,
    NotiNotOption,
    NotiInnerNotPath,
    NotiNotMTx,
    MTxNoType,
    MTxNoArgs,
}

impl TaskDefError {
    /// The message for this error.
    pub fn message(&self) -> (r: &'static str)
        ensures
            r@ == self.text(),
    {
        match self {
            TaskDefError::DuplicateDebug => "Duplicate `debug` attribute argument",
            TaskDefError::MultipleActions => "Only one action can be specified.",
            TaskDefError::MultipleActionFields => "Only one #[field(action)] is allowed.",
            TaskDefError::BothActions =>
            "Cannot specify both #[field(action)] and #[client_task(action = ...)] attributes.",
            TaskDefError::ResNotiApart =>
            "#[field(res)] and #[field(noti)] must be specified together.",
            TaskDefError::MissingCommon => "common field must be tagged with #[field(common)]",
            TaskDefError::MissingReq => "req field must be tagged with #[field(req)]",
            TaskDefError::MissingResp => "resp field must be tagged with #[field(resp)]",
            TaskDefError::RespNotOption => "resp field must be of type Option<T>",
            TaskDefError::FieldActionType => "Unsupported type for #[field(action)]",
            TaskDefError::InvalidInt => "Invalid integer literal for action",
            TaskDefError::UnsupportedAction =>
            "Unsupported action type in #[action(...)]. Only string/integer literals and enum variants are supported.",
            TaskDefError::ResNotPath => "res field must be a path type",
            TaskDefError::ResNotOption => "res field must be an Option",
            TaskDefError::OptionNoType => "Option needs a type argument",
            TaskDefError::OptionNoArgs => "Option needs angle bracketed arguments",
            TaskDefError::ResInnerNotResult => "res field's inner type must be a Result",
            TaskDefError::ResNotOptionResult => "res field must be an Option<Result<...>>",
            TaskDefError::ResultNoArgs => "Result needs angle bracketed arguments",
            TaskDefError::ResultNotTwo => "Result needs two type arguments",
            TaskDefError::ResultOkNotUnit => "Result's Ok type must be ()",
            TaskDefError::ResultNoError => "Could not get error type from Result",
            TaskDefError::ErrorNotRpcError => "Result's error type must be RpcError",
            TaskDefError::RpcErrorNoType => "RpcError needs a type argument",
            TaskDefError::RpcErrorNoArgs => "RpcError needs angle bracketed arguments",
            TaskDefError::NotiNotPath => "noti field must be a path type",
            TaskDefError::NotiNotOption => "noti field must be of type Option<MTx<T>>",
            TaskDefError::NotiInnerNotPath => "Inner type of Option must be a path type",
            TaskDefError::NotiNotMTx => "Inner type of Option must be MTx",
            TaskDefError::MTxNoType => "MTx needs a type argument",
            TaskDefError::MTxNoArgs => "MTx needs angle bracketed arguments",
        }
    }

    pub open spec fn text(self) -> Seq<char> {
        match self {
            TaskDefError::DuplicateDebug => "Duplicate `debug` attribute argument"@,
            TaskDefError::MultipleActions => "Only one action can be specified."@,
            TaskDefError::MultipleActionFields => "Only one #[field(action)] is allowed."@,
            TaskDefError::BothActions =>
            "Cannot specify both #[field(action)] and #[client_task(action = ...)] attributes."@,
            TaskDefError::ResNotiApart =>
            "#[field(res)] and #[field(noti)] must be specified together."@,
            TaskDefError::MissingCommon => "common field must be tagged with #[field(common)]"@,
            TaskDefError::MissingReq => "req field must be tagged with #[field(req)]"@,
            TaskDefError::MissingResp => "resp field must be tagged with #[field(resp)]"@,
            TaskDefError::RespNotOption => "resp field must be of type Option<T>"@,
            TaskDefError::FieldActionType => "Unsupported type for #[field(action)]"@,
            TaskDefError::InvalidInt => "Invalid integer literal for action"@,
            TaskDefError::UnsupportedAction =>
            "Unsupported action type in #[action(...)]. Only string/integer literals and enum variants are supported."@,
            TaskDefError::ResNotPath => "res field must be a path type"@,
            TaskDefError::ResNotOption => "res field must be an Option"@,
            TaskDefError::OptionNoType => "Option needs a type argument"@,
            TaskDefError::OptionNoArgs => "Option needs angle bracketed arguments"@,
            TaskDefError::ResInnerNotResult => "res field's inner type must be a Result"@,
            TaskDefError::ResNotOptionResult => "res field must be an Option<Result<...>>"@,
            TaskDefError::ResultNoArgs => "Result needs angle bracketed arguments"@,
            TaskDefError::ResultNotTwo => "Result needs two type arguments"@,
            TaskDefError::ResultOkNotUnit => "Result's Ok type must be ()"@,
            TaskDefError::ResultNoError => "Could not get error type from Result"@,
            TaskDefError::ErrorNotRpcError => "Result's error type must be RpcError"@,
            TaskDefError::RpcErrorNoType => "RpcError needs a type argument"@,
            TaskDefError::RpcErrorNoArgs => "RpcError needs angle bracketed arguments"@,
            TaskDefError::NotiNotPath => "noti field must be a path type"@,
            TaskDefError::NotiNotOption => "noti field must be of type Option<MTx<T>>"@,
            TaskDefError::NotiInnerNotPath => "Inner type of Option must be a path type"@,
            TaskDefError::NotiNotMTx => "Inner type of Option must be MTx"@,
            TaskDefError::MTxNoType => "MTx needs a type argument"@,
            TaskDefError::MTxNoArgs => "MTx needs angle bracketed arguments"@,
        }
    }
}

impl TaskDefError {
    /// The message for this error, with the names of the struct and of the field for the
    /// response where it is about that field.
    pub fn describe(&self, struct_name: &str, resp_field: &str) -> (r: String)
        ensures
            r@ == if *self == TaskDefError::RespNotOption {
                "`"@ + struct_name@ + "::"@ + resp_field@ + "` "@ + self.text()
            } else {
                self.text()
            },
    {
        if *self == TaskDefError::RespNotOption {
            let mut s: String = "`".to_owned();
            s.append(struct_name);
            s.append("::");
            s.append(resp_field);
            s.append("` ");
            s.append(self.message());
            s
        } else {
            self.message().to_owned()
        }
    }
}

/// How a task tells its action.
#[derive(Debug)]
pub enum ActionPlan {
    /// Not here.
    Absent,
    /// By a field, which is a string or else a number.
    Field { field: usize, string: bool },
    /// By a fixed string.
    Str(String),
    /// By a fixed number.
    Num(i32),
    /// By a fixed number that goes by a name.
    Path(String),
}

/// How a task tells its action.
pub enum ActionPlanSpec {
    Absent,
    Field { field: usize, string: bool },
    Str(Seq<char>),
    Num(i32),
    Path(Seq<char>),
}

impl View for ActionPlan {
    type V = ActionPlanSpec;

    open spec fn view(&self) -> ActionPlanSpec {
        match self {
            ActionPlan::Absent => ActionPlanSpec::Absent,
            ActionPlan::Field { field, string } => ActionPlanSpec::Field {
                field: *field,
                string: *string,
            },
            ActionPlan::Str(s) => ActionPlanSpec::Str(s@),
            ActionPlan::Num(n) => ActionPlanSpec::Num(*n),
            ActionPlan::Path(p) => ActionPlanSpec::Path(p@),
        }
    }
}

/// How a task gets its result and goes back: the fields for the result and for the way back, and
/// the types of the error and of what is handed back.
#[derive(Debug)]
pub struct DonePlan {
    pub res: usize,
    pub noti: usize,
    pub error_type: String,
    pub noti_type: String,
}

/// How a task gets its result and goes back.
pub struct DoneSpec {
    pub res: usize,
    pub noti: usize,
    pub error_type: Seq<char>,
    pub noti_type: Seq<char>,
}

impl View for DonePlan {
    type V = DoneSpec;

    open spec fn view(&self) -> DoneSpec {
        DoneSpec {
            res: self.res,
            noti: self.noti,
            error_type: self.error_type@,
            noti_type: self.noti_type@,
        }
    }
}

/// What to implement for a task, by the indexes of its fields.
#[derive(Debug)]
pub struct ClientTaskPlan {
    /// Whether to implement `Debug`.
    pub debug: bool,
    pub common: usize,
    pub req: usize,
    pub resp: usize,
    pub req_blob: Option<usize>,
    pub resp_blob: Option<usize>,
    pub action: ActionPlan,
    pub done: Option<DonePlan>,
}

/// What to implement for a task, by the indexes of its fields.
pub struct PlanSpec {
    pub debug: bool,
    pub common: usize,
    pub req: usize,
    pub resp: usize,
    pub req_blob: Option<usize>,
    pub resp_blob: Option<usize>,
    pub action: ActionPlanSpec,
    pub done: Option<DoneSpec>,
}

impl View for ClientTaskPlan {
    type V = PlanSpec;

    open spec fn view(&self) -> PlanSpec {
        PlanSpec {
            debug: self.debug,
            common: self.common,
            req: self.req,
            resp: self.resp,
            req_blob: self.req_blob,
            resp_blob: self.resp_blob,
            action: self.action@,
            done: match self.done {
                Some(d) => Some(d@),
                None => None,
            },
        }
    }
}

/// How often a role is given in one list.
pub open spec fn role_count(roles: Seq<String>, role: FieldRole) -> nat
    decreases roles.len(),
{
    if roles.len() == 0 {
        0
    } else {
        role_count(roles.drop_last(), role) + if role_named(roles.last()@) == role {
            1nat
        } else {
            0nat
        }
    }
}

/// How often a role is given among all fields.
pub open spec fn role_uses(fields: Seq<FieldDesc>, role: FieldRole) -> nat
    decreases fields.len(),
{
    if fields.len() == 0 {
        0
    } else {
        role_uses(fields.drop_last(), role) + role_count(fields.last().roles@, role)
    }
}

/// The field with a role: the last one, where there are several.
pub open spec fn field_with(fields: Seq<FieldDesc>, role: FieldRole) -> Option<usize>
    decreases fields.len(),
{
    if fields.len() == 0 {
        None
    } else if role_count(fields.last().roles@, role) > 0 {
        Some((fields.len() - 1) as usize)
    } else {
        field_with(fields.drop_last(), role)
    }
}

/// What the arguments of the attribute say: whether `Debug` is wanted, and which argument is the
/// action.
pub open spec fn read_args(args: Seq<TaskArg>) -> Result<(bool, Option<usize>), TaskDefError>
    decreases args.len(),
{
    if args.len() == 0 {
        Ok((false, None))
    } else {
        match read_args(args.drop_last()) {
            Err(e) => Err(e),
            Ok((debug, action)) => match args.last() {
                TaskArg::Debug => if debug {
                    Err(TaskDefError::DuplicateDebug)
                } else {
                    Ok((true, action))
                },
                TaskArg::Action(_) => if action is Some {
                    Err(TaskDefError::MultipleActions)
                } else {
                    Ok((debug, Some((args.len() - 1) as usize)))
                },
            },
        }
    }
}

/// Whether a type is `Option<T>`.
pub open spec fn is_option(ty: TypeDesc) -> bool {
    match ty {
        TypeDesc::Path(p) => {
            &&& !p.qself
            &&& !p.leading_colon
            &&& p.segments@.len() == 1
            &&& p.segments@[0].ident@ == "Option"@
            &&& p.segments@[0].args matches Some(a)
            &&& a@.len() == 1
            &&& a@[0].ty is Some
        },
        _ => false,
    }
}

/// The action of a task whose fixed action, if any, is `fixed`.
pub open spec fn plan_action(
    fields: Seq<FieldDesc>,
    fixed: Option<ActionDesc>,
) -> Result<ActionPlanSpec, TaskDefError> {
    match (field_with(fields, FieldRole::Action), fixed) {
        (Some(i), _) => match last_segment(fields[i as int].ty) {
            Some(s) => Ok(ActionPlanSpec::Field { field: i, string: s.ident@ == "String"@ }),
            None => Err(TaskDefError::FieldActionType),
        },
        (None, Some(ActionDesc::Str(s))) => Ok(ActionPlanSpec::Str(s@)),
        (None, Some(ActionDesc::Int(_, Some(n)))) => Ok(ActionPlanSpec::Num(n)),
        (None, Some(ActionDesc::Int(_, None))) => Err(TaskDefError::InvalidInt),
        (None, Some(ActionDesc::Path(p))) => Ok(ActionPlanSpec::Path(p@)),
        (None, Some(_)) => Err(TaskDefError::UnsupportedAction),
        (None, None) => Ok(ActionPlanSpec::Absent),
    }
}

/// The first type in the angle brackets of a segment, or one of two errors.
pub open spec fn type_argument(
    s: SegmentDesc,
    no_type: TaskDefError,
    no_args: TaskDefError,
) -> Result<ArgDesc, TaskDefError> {
    match s.args {
        None => Err(no_args),
        Some(args) => match first_type(args@) {
            None => Err(no_type),
            Some(a) => Ok(a),
        },
    }
}

/// `E`, for the type `Option<Result<(), RpcError<E>>>` of the field for the result.
pub open spec fn result_error_type(ty: TypeDesc) -> Result<Seq<char>, TaskDefError> {
    match last_segment(ty) {
        None => Err(TaskDefError::ResNotPath),
        Some(s) => if s.ident@ != "Option"@ {
            Err(TaskDefError::ResNotOption)
        } else {
            match type_argument(s, TaskDefError::OptionNoType, TaskDefError::OptionNoArgs) {
                Err(e) => Err(e),
                Ok(a) => result_type_error(a.ty->0),
            }
        },
    }
}

/// `E`, for the type `Result<(), RpcError<E>>`.
pub open spec fn result_type_error(ty: TypeDesc) -> Result<Seq<char>, TaskDefError> {
    match last_segment(ty) {
        None => Err(TaskDefError::ResInnerNotResult),
        Some(s) => if s.ident@ != "Result"@ {
            Err(TaskDefError::ResNotOptionResult)
        } else {
            match s.args {
                None => Err(TaskDefError::ResultNoArgs),
                Some(args) => if args@.len() != 2 {
                    Err(TaskDefError::ResultNotTwo)
                } else if args@[0].ty != Some(TypeDesc::Tuple { empty: true }) {
                    Err(TaskDefError::ResultOkNotUnit)
                } else {
                    match args@[1].ty {
                        None => Err(TaskDefError::ResultNoError),
                        Some(t) => rpc_error_type(t),
                    }
                },
            }
        },
    }
}

/// `E`, for the type `RpcError<E>`.
pub open spec fn rpc_error_type(ty: TypeDesc) -> Result<Seq<char>, TaskDefError> {
    match last_segment(ty) {
        None => Err(TaskDefError::ErrorNotRpcError),
        Some(s) => if s.ident@ != "RpcError"@ {
            Err(TaskDefError::ErrorNotRpcError)
        } else {
            match type_argument(s, TaskDefError::RpcErrorNoType, TaskDefError::RpcErrorNoArgs) {
                Err(e) => Err(e),
                Ok(a) => Ok(a.text@),
            }
        },
    }
}

/// `T`, for the type `Option<MTx<T>>` of the field for the way back.
pub open spec fn noti_inner_type(ty: TypeDesc) -> Result<Seq<char>, TaskDefError> {
    match last_segment(ty) {
        None => Err(TaskDefError::NotiNotPath),
        Some(s) => if s.ident@ != "Option"@ {
            Err(TaskDefError::NotiNotOption)
        } else {
            match type_argument(s, TaskDefError::OptionNoType, TaskDefError::OptionNoArgs) {
                Err(e) => Err(e),
                Ok(a) => match last_segment(a.ty->0) {
                    None => Err(TaskDefError::NotiInnerNotPath),
                    Some(m) => if m.ident@ != "MTx"@ {
                        Err(TaskDefError::NotiNotMTx)
                    } else {
                        match type_argument(m, TaskDefError::MTxNoType, TaskDefError::MTxNoArgs) {
                            Err(e) => Err(e),
                            Ok(t) => Ok(t.text@),
                        }
                    },
                },
            }
        },
    }
}

/// The result of a task, where it has fields for it.
pub open spec fn plan_done(fields: Seq<FieldDesc>) -> Result<Option<DoneSpec>, TaskDefError> {
    match (field_with(fields, FieldRole::Res), field_with(fields, FieldRole::Noti)) {
        (Some(res), Some(noti)) => match result_error_type(fields[res as int].ty) {
            Err(e) => Err(e),
            Ok(error_type) => match noti_inner_type(fields[noti as int].ty) {
                Err(e) => Err(e),
                Ok(noti_type) => Ok(Some(DoneSpec { res, noti, error_type, noti_type })),
            },
        },
        _ => Ok(None),
    }
}

/// What to implement for a task with these arguments and fields, or why it is refused.
pub open spec fn plan(args: Seq<TaskArg>, fields: Seq<FieldDesc>) -> Result<PlanSpec, TaskDefError> {
    let common = field_with(fields, FieldRole::Common);
    let req = field_with(fields, FieldRole::Req);
    let resp = field_with(fields, FieldRole::Resp);
    match read_args(args) {
        Err(e) => Err(e),
        Ok((debug, fixed)) => {
            let fixed_action = match fixed {
                Some(i) => Some(args[i as int]->Action_0),
                None => None,
            };
            if role_uses(fields, FieldRole::Action) > 1 {
                Err(TaskDefError::MultipleActionFields)
            } else if field_with(fields, FieldRole::Action) is Some && fixed is Some {
                Err(TaskDefError::BothActions)
            } else if field_with(fields, FieldRole::Res) is Some != field_with(
                fields,
                FieldRole::Noti,
            ) is Some {
                Err(TaskDefError::ResNotiApart)
            } else if common is None {
                Err(TaskDefError::MissingCommon)
            } else if req is None {
                Err(TaskDefError::MissingReq)
            } else if resp is None {
                Err(TaskDefError::MissingResp)
            } else if !is_option(fields[resp->0 as int].ty) {
                Err(TaskDefError::RespNotOption)
            } else {
                match plan_action(fields, fixed_action) {
                    Err(e) => Err(e),
                    Ok(action) => match plan_done(fields) {
                        Err(e) => Err(e),
                        Ok(done) => Ok(
                            PlanSpec {
                                debug,
                                common: common->0,
                                req: req->0,
                                resp: resp->0,
                                req_blob: field_with(fields, FieldRole::ReqBlob),
                                resp_blob: field_with(fields, FieldRole::RespBlob),
                                action,
                                done,
                            },
                        ),
                    },
                }
            }
        },
    }
}

/// Whether a type is `Option<T>`.
pub fn check_option_inner_type(ty: &TypeDesc) -> (r: bool)
    ensures
        r == is_option(*ty),
{
    match ty {
        TypeDesc::Path(p) => {
            if p.qself || p.leading_colon || p.segments.len() != 1 {
                return false;
            }
            let s = &p.segments[0];
            if !str_is(&s.ident, "Option") {
                return false;
            }
            match &s.args {
                Some(args) => args.len() == 1 && args[0].ty.is_some(),
                None => false,
            }
        },
        _ => false,
    }
}

fn count_roles(roles: &Vec<String>, role: FieldRole) -> (r: usize)
    ensures
        r == role_count(roles@, role),
{
    let mut n: usize = 0;
    let mut i: usize = 0;
    assert(roles@.subrange(0, 0) =~= Seq::<String>::empty());
    while i < roles.len()
        invariant
            i <= roles@.len(),
            n <= i,
            n == role_count(roles@.subrange(0, i as int), role),
        decreases roles@.len() - i,
    {
        proof {
            let head = roles@.subrange(0, i + 1);
            assert(head.drop_last() =~= roles@.subrange(0, i as int));
            assert(head.last() == roles@[i as int]);
        }
        if field_role(&roles[i]) == role {
            n += 1;
        }
        i += 1;
    }
    assert(roles@.subrange(0, roles@.len() as int) =~= roles@);
    n
}

/// Finds the field with a role, and says whether the role is given more than once.
fn find_field(fields: &Vec<FieldDesc>, role: FieldRole) -> (r: (Option<usize>, bool))
    ensures
        r.0 == field_with(fields@, role),
        r.1 == (role_uses(fields@, role) > 1),
        r.0 matches Some(i) ==> i < fields@.len(),
{
    let mut found: Option<usize> = None;
    let mut once = false;
    let mut twice = false;
    let mut i: usize = 0;
    assert(fields@.subrange(0, 0) =~= Seq::<FieldDesc>::empty());
    while i < fields.len()
        invariant
            i <= fields@.len(),
            found == field_with(fields@.subrange(0, i as int), role),
            once == (role_uses(fields@.subrange(0, i as int), role) >= 1),
            twice == (role_uses(fields@.subrange(0, i as int), role) > 1),
            found matches Some(k) ==> k < i,
        decreases fields@.len() - i,
    {
        proof {
            let head = fields@.subrange(0, i + 1);
            assert(head.drop_last() =~= fields@.subrange(0, i as int));
            assert(head.last() == fields@[i as int]);
        }
        let n: usize = count_roles(&fields[i].roles, role);
        if n > 0 {
            found = Some(i);
            if once || n > 1 {
                twice = true;
            }
            once = true;
        }
        i += 1;
    }
    assert(fields@.subrange(0, fields@.len() as int) =~= fields@);
    (found, twice)
}

fn scan_args(args: &Vec<TaskArg>) -> (r: Result<(bool, Option<usize>), TaskDefError>)
    ensures
        r == read_args(args@),
        r matches Ok((_, Some(i))) ==> i < args@.len() && args@[i as int] is Action,
{
    let mut debug = false;
    let mut action: Option<usize> = None;
    let mut i: usize = 0;
    assert(args@.subrange(0, 0) =~= Seq::<TaskArg>::empty());
    while i < args.len()
        invariant
            i <= args@.len(),
            read_args(args@.subrange(0, i as int)) == Ok::<(bool, Option<usize>), TaskDefError>(
                (debug, action),
            ),
            action matches Some(k) ==> k < i && args@[k as int] is Action,
        decreases args@.len() - i,
    {
        proof {
            let head = args@.subrange(0, i + 1);
            assert(head.drop_last() =~= args@.subrange(0, i as int));
            assert(head.last() == args@[i as int]);
        }
        match &args[i] {
            TaskArg::Debug => {
                if debug {
                    proof {
                        lemma_args_fail(args@, i + 1);
                    }
                    return Err(TaskDefError::DuplicateDebug);
                }
                debug = true;
            },
            TaskArg::Action(_) => {
                if action.is_some() {
                    proof {
                        lemma_args_fail(args@, i + 1);
                    }
                    return Err(TaskDefError::MultipleActions);
                }
                action = Some(i);
            },
        }
        i += 1;
    }
    assert(args@.subrange(0, args@.len() as int) =~= args@);
    Ok((debug, action))
}

/// What is wrong with the first arguments is wrong with all of them.
proof fn lemma_args_fail(args: Seq<TaskArg>, n: int)
    requires
        0 <= n <= args.len(),
        read_args(args.subrange(0, n)) is Err,
    ensures
        read_args(args) == read_args(args.subrange(0, n)),
    decreases args.len(),
{
    if n < args.len() {
        let head = args.drop_last();
        assert(head.subrange(0, n) =~= args.subrange(0, n));
        lemma_args_fail(head, n);
    } else {
        assert(args.subrange(0, n) =~= args);
    }
}

fn get_type_argument(s: &SegmentDesc, no_type: TaskDefError, no_args: TaskDefError) -> (r: Result<
    &ArgDesc,
    TaskDefError,
>)
    ensures
        match type_argument(*s, no_type, no_args) {
            Ok(a) => r == Ok::<&ArgDesc, TaskDefError>(&a),
            Err(e) => r == Err::<&ArgDesc, TaskDefError>(e),
        },
{
    match &s.args {
        None => Err(no_args),
        Some(args) => match get_first_type(args) {
            None => Err(no_type),
            Some(a) => Ok(a),
        },
    }
}

/// Whether `r` is what is written as `s`.
pub open spec fn text_result(
    r: Result<String, TaskDefError>,
    s: Result<Seq<char>, TaskDefError>,
) -> bool {
    match s {
        Ok(t) => r matches Ok(x) && x@ == t,
        Err(e) => r == Err::<String, TaskDefError>(e),
    }
}

fn get_rpc_error_type(ty: &TypeDesc) -> (r: Result<String, TaskDefError>)
    ensures
        text_result(r, rpc_error_type(*ty)),
{
    let s = match get_last_segment(ty) {
        None => {
            return Err(TaskDefError::ErrorNotRpcError);
        },
        Some(s) => s,
    };
    if !str_is(&s.ident, "RpcError") {
        return Err(TaskDefError::ErrorNotRpcError);
    }
    match get_type_argument(s, TaskDefError::RpcErrorNoType, TaskDefError::RpcErrorNoArgs) {
        Err(e) => Err(e),
        Ok(a) => Ok(a.text.as_str().to_owned()),
    }
}

fn get_result_type_error(ty: &TypeDesc) -> (r: Result<String, TaskDefError>)
    ensures
        text_result(r, result_type_error(*ty)),
{
    let s = match get_last_segment(ty) {
        None => {
            return Err(TaskDefError::ResInnerNotResult);
        },
        Some(s) => s,
    };
    if !str_is(&s.ident, "Result") {
        return Err(TaskDefError::ResNotOptionResult);
    }
    let args = match &s.args {
        None => {
            return Err(TaskDefError::ResultNoArgs);
        },
        Some(a) => a,
    };
    if args.len() != 2 {
        return Err(TaskDefError::ResultNotTwo);
    }
    match &args[0].ty {
        Some(TypeDesc::Tuple { empty }) => {
            if !*empty {
                return Err(TaskDefError::ResultOkNotUnit);
            }
        },
        _ => {
            return Err(TaskDefError::ResultOkNotUnit);
        },
    }
    match &args[1].ty {
        None => Err(TaskDefError::ResultNoError),
        Some(t) => get_rpc_error_type(t),
    }
}

fn get_error_type(ty: &TypeDesc) -> (r: Result<String, TaskDefError>)
    ensures
        text_result(r, result_error_type(*ty)),
{
    let s = match get_last_segment(ty) {
        None => {
            return Err(TaskDefError::ResNotPath);
        },
        Some(s) => s,
    };
    if !str_is(&s.ident, "Option") {
        return Err(TaskDefError::ResNotOption);
    }
    match get_type_argument(s, TaskDefError::OptionNoType, TaskDefError::OptionNoArgs) {
        Err(e) => Err(e),
        Ok(a) => match &a.ty {
            Some(t) => get_result_type_error(t),
            None => Err(TaskDefError::OptionNoType),
        },
    }
}

fn get_noti_type(ty: &TypeDesc) -> (r: Result<String, TaskDefError>)
    ensures
        text_result(r, noti_inner_type(*ty)),
{
    let s = match get_last_segment(ty) {
        None => {
            return Err(TaskDefError::NotiNotPath);
        },
        Some(s) => s,
    };
    if !str_is(&s.ident, "Option") {
        return Err(TaskDefError::NotiNotOption);
    }
    let inner = match get_type_argument(
        s,
        TaskDefError::OptionNoType,
        TaskDefError::OptionNoArgs,
    ) {
        Err(e) => {
            return Err(e);
        },
        Ok(a) => match &a.ty {
            Some(t) => t,
            None => {
                return Err(TaskDefError::OptionNoType);
            },
        },
    };
    let m = match get_last_segment(inner) {
        None => {
            return Err(TaskDefError::NotiInnerNotPath);
        },
        Some(m) => m,
    };
    if !str_is(&m.ident, "MTx") {
        return Err(TaskDefError::NotiNotMTx);
    }
    match get_type_argument(m, TaskDefError::MTxNoType, TaskDefError::MTxNoArgs) {
        Err(e) => Err(e),
        Ok(t) => Ok(t.text.as_str().to_owned()),
    }
}

fn action_plan(
    fields: &Vec<FieldDesc>,
    field_action: Option<usize>,
    fixed: Option<&ActionDesc>,
) -> (r: Result<ActionPlan, TaskDefError>)
    requires
        field_action == field_with(fields@, FieldRole::Action),
        field_action matches Some(i) ==> i < fields@.len(),
    ensures
        match plan_action(
            fields@,
            match fixed {
                Some(a) => Some(*a),
                None => None,
            },
        ) {
            Ok(p) => r matches Ok(x) && x@ == p,
            Err(e) => r == Err::<ActionPlan, TaskDefError>(e),
        },
{
    if let Some(i) = field_action {
        return match get_last_segment(&fields[i].ty) {
            Some(s) => Ok(ActionPlan::Field { field: i, string: str_is(&s.ident, "String") }),
            None => Err(TaskDefError::FieldActionType),
        };
    }
    match fixed {
        None => Ok(ActionPlan::Absent),
        Some(a) => match a {
            ActionDesc::Str(s) => Ok(ActionPlan::Str(s.as_str().to_owned())),
            ActionDesc::Int(_, n) => match n {
                Some(n) => Ok(ActionPlan::Num(*n)),
                None => Err(TaskDefError::InvalidInt),
            },
            ActionDesc::Path(p) => Ok(ActionPlan::Path(p.as_str().to_owned())),
            _ => Err(TaskDefError::UnsupportedAction),
        },
    }
}

fn done_plan(fields: &Vec<FieldDesc>, res: Option<usize>, noti: Option<usize>) -> (r: Result<
    Option<DonePlan>,
    TaskDefError,
>)
    requires
        res == field_with(fields@, FieldRole::Res),
        noti == field_with(fields@, FieldRole::Noti),
        res matches Some(i) ==> i < fields@.len(),
        noti matches Some(i) ==> i < fields@.len(),
    ensures
        match plan_done(fields@) {
            Ok(Some(p)) => r matches Ok(Some(x)) && x@ == p,
            Ok(None) => r matches Ok(None),
            Err(e) => r == Err::<Option<DonePlan>, TaskDefError>(e),
        },
{
    if let Some(res) = res {
        if let Some(noti) = noti {
            let error_type = match get_error_type(&fields[res].ty) {
                Ok(t) => t,
                Err(e) => {
                    return Err(e);
                },
            };
            let noti_type = match get_noti_type(&fields[noti].ty) {
                Ok(t) => t,
                Err(e) => {
                    return Err(e);
                },
            };
            return Ok(Some(DonePlan { res, noti, error_type, noti_type }));
        }
    }
    Ok(None)
}

/// Says what to implement for a task with these arguments and fields, or why it is refused.
pub fn client_task_impl(args: &Vec<TaskArg>, fields: &Vec<FieldDesc>) -> (r: Result<
    ClientTaskPlan,
    TaskDefError,
>)
    ensures
        match plan(args@, fields@) {
            Ok(p) => r matches Ok(x) && x@ == p,
            Err(e) => r == Err::<ClientTaskPlan, TaskDefError>(e),
        },
{
    let (debug, fixed) = match scan_args(args) {
        Ok(x) => x,
        Err(e) => {
            return Err(e);
        },
    };
    let (field_action, many_actions) = find_field(fields, FieldRole::Action);
    if many_actions {
        return Err(TaskDefError::MultipleActionFields);
    }
    if field_action.is_some() && fixed.is_some() {
        return Err(TaskDefError::BothActions);
    }
    let (res, _) = find_field(fields, FieldRole::Res);
    let (noti, _) = find_field(fields, FieldRole::Noti);
    if res.is_some() != noti.is_some() {
        return Err(TaskDefError::ResNotiApart);
    }
    let (common, _) = find_field(fields, FieldRole::Common);
    let common: usize = match common {
        Some(i) => i,
        None => {
            return Err(TaskDefError::MissingCommon);
        },
    };
    let (req, _) = find_field(fields, FieldRole::Req);
    let req: usize = match req {
        Some(i) => i,
        None => {
            return Err(TaskDefError::MissingReq);
        },
    };
    let (resp, _) = find_field(fields, FieldRole::Resp);
    let resp: usize = match resp {
        Some(i) => i,
        None => {
            return Err(TaskDefError::MissingResp);
        },
    };
    if !check_option_inner_type(&fields[resp].ty) {
        return Err(TaskDefError::RespNotOption);
    }
    let fixed_action: Option<&ActionDesc> = match fixed {
        Some(i) => match &args[i] {
            TaskArg::Action(a) => Some(a),
            TaskArg::Debug => None,
        },
        None => None,
    };
    let action = match action_plan(fields, field_action, fixed_action) {
        Ok(a) => a,
        Err(e) => {
            return Err(e);
        },
    };
    let done = match done_plan(fields, res, noti) {
        Ok(d) => d,
        Err(e) => {
            return Err(e);
        },
    };
    let (req_blob, _) = find_field(fields, FieldRole::ReqBlob);
    let (resp_blob, _) = find_field(fields, FieldRole::RespBlob);
    Ok(ClientTaskPlan { debug, common, req, resp, req_blob, resp_blob, action, done })
}

/// The action of a task of this plan, where `told` is what its field or the name says.
pub open spec fn planned_action(plan: ActionPlanSpec, told: Option<ActionSpec>) -> Option<
    ActionSpec,
> {
    match plan {
        ActionPlanSpec::Absent => None,
        ActionPlanSpec::Field { string: true, .. } => match told {
            Some(ActionSpec::Str(_)) => told,
            _ => None,
        },
        ActionPlanSpec::Field { string: false, .. } => match told {
            Some(ActionSpec::Num(_)) => told,
            _ => None,
        },
        ActionPlanSpec::Path(_) => match told {
            Some(ActionSpec::Num(_)) => told,
            _ => None,
        },
        ActionPlanSpec::Str(s) => Some(ActionSpec::Str(s)),
        ActionPlanSpec::Num(n) => Some(ActionSpec::Num(n)),
    }
}

impl ActionPlan {
    /// The action of a task of this plan, where `told` is what its field or the name says: a
    /// string for a field of type `String`, and a number for any other field or for a name. There
    /// is none where the plan has no action, or `told` is not of that kind.
    pub fn action<'a>(&'a self, told: Option<RpcAction<'a>>) -> (r: Option<RpcAction<'a>>)
        ensures
            match planned_action(self@, told_view(told)) {
                Some(a) => r matches Some(x) && x@ == a,
                None => r is None,
            },
    {
        match self {
            ActionPlan::Absent => None,
            ActionPlan::Str(s) => Some(RpcAction::Str(s.as_str())),
            ActionPlan::Num(n) => Some(RpcAction::Num(*n)),
            ActionPlan::Field { string: true, .. } => match told {
                Some(RpcAction::Str(s)) => Some(RpcAction::Str(s)),
                _ => None,
            },
            _ => match told {
                Some(RpcAction::Num(n)) => Some(RpcAction::Num(n)),
                _ => None,
            },
        }
    }
}

/// The action of an accepted task: what its field says, with a string for a field of type `String`
/// and a number for any other; or the literal that its attribute gives, or the number that goes by
/// the name given there. Without either it has none.
pub proof fn lemma_action_of_task(args: Seq<TaskArg>, fields: Seq<FieldDesc>, told: ActionSpec)
    requires
        plan(args, fields) is Ok,
    ensures
        ({
            let action = planned_action(plan(args, fields)->Ok_0.action, Some(told));
            match (field_with(fields, FieldRole::Action), read_args(args)->Ok_0.1) {
                (Some(i), _) => action == if (last_segment(fields[i as int].ty)->0.ident@
                    == "String"@) == (told is Str) {
                    Some(told)
                } else {
                    None
                },
                (None, Some(i)) => match args[i as int]->Action_0 {
                    ActionDesc::Str(s) => action == Some(ActionSpec::Str(s@)),
                    ActionDesc::Int(_, n) => n is Some && action == Some(ActionSpec::Num(n->0)),
                    ActionDesc::Path(_) => told is Num ==> action == Some(told),
                    _ => false,
                },
                (None, None) => action is None,
            }
        }),
{
}

/// A task type is accepted only if it has a field for what tasks have in common, one for the
/// request and one of type `Option<T>` for the response; and it gets a result exactly if it has
/// fields for the result and for the way back.
pub proof fn lemma_accepted_task(args: Seq<TaskArg>, fields: Seq<FieldDesc>)
    requires
        fields.len() <= usize::MAX,
        plan(args, fields) is Ok,
    ensures
        ({
            let p = plan(args, fields)->Ok_0;
            &&& p.common < fields.len() && role_count(
                fields[p.common as int].roles@,
                FieldRole::Common,
            ) > 0
            &&& p.req < fields.len() && role_count(fields[p.req as int].roles@, FieldRole::Req) > 0
            &&& p.resp < fields.len() && role_count(
                fields[p.resp as int].roles@,
                FieldRole::Resp,
            ) > 0
            &&& is_option(fields[p.resp as int].ty)
            &&& p.done is Some <==> field_with(fields, FieldRole::Res) is Some && field_with(
                fields,
                FieldRole::Noti,
            ) is Some
        }),
{
    lemma_field_with(fields, FieldRole::Common);
    lemma_field_with(fields, FieldRole::Req);
    lemma_field_with(fields, FieldRole::Resp);
}

proof fn lemma_field_with(fields: Seq<FieldDesc>, role: FieldRole)
    requires
        fields.len() <= usize::MAX,
    ensures
        field_with(fields, role) matches Some(i) ==> i < fields.len() && role_count(
            fields[i as int].roles@,
            role,
        ) > 0,
    decreases fields.len(),
{
    if fields.len() > 0 {
        lemma_field_with(fields.drop_last(), role);
    }
}

} // verus!
