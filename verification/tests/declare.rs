use occams_rpc::declare::client_task::{
    check_option_inner_type, client_task_impl, field_role, read_roles, read_task_arg, FieldDesc,
    FieldRole, TaskArg, TaskDefError,
};
use occams_rpc::declare::client_task_enum::{
    client_task_enum_impl, get_action_attribute, ActionAttr, EnumDefError, VariantDesc,
};
use occams_rpc::declare::syntax::{
    read_action, ActionDesc, ArgDesc, MetaDesc, PathDesc, SegmentDesc, TypeDesc,
};

fn path(ident: &str, args: Option<Vec<ArgDesc>>) -> TypeDesc {
    TypeDesc::Path(PathDesc {
        qself: false,
        leading_colon: false,
        segments: vec![SegmentDesc { ident: ident.to_string(), args }],
    })
}

fn named(ident: &str) -> TypeDesc {
    path(ident, None)
}

fn arg(ty: TypeDesc) -> ArgDesc {
    ArgDesc { ty: Some(ty), text: "T".to_string() }
}

fn lifetime() -> ArgDesc {
    ArgDesc { ty: None, text: "'a".to_string() }
}

fn of(ident: &str, args: Vec<ArgDesc>) -> TypeDesc {
    path(ident, Some(args))
}

fn unit() -> TypeDesc {
    TypeDesc::Tuple { empty: true }
}

fn field(ty: TypeDesc, roles: &[&str]) -> FieldDesc {
    FieldDesc {
        name: "f".to_string(),
        ty,
        roles: roles.iter().map(|r| r.to_string()).collect(),
    }
}

fn base() -> Vec<FieldDesc> {
    vec![
        field(named("ClientTaskCommon"), &["common"]),
        field(unit(), &["req"]),
        field(of("Option", vec![arg(unit())]), &["resp"]),
    ]
}

fn refused(args: Vec<TaskArg>, fields: Vec<FieldDesc>) -> TaskDefError {
    client_task_impl(&args, &fields).expect_err("accepted")
}

fn with(more: Vec<FieldDesc>) -> Vec<FieldDesc> {
    let mut f = base();
    f.extend(more);
    f
}

fn number(n: i32) -> TaskArg {
    TaskArg::Action(ActionDesc::Int(n.to_string(), Some(n)))
}

fn good_res() -> TypeDesc {
    let error = of("RpcError", vec![arg(named("Errno"))]);
    of("Option", vec![arg(of("Result", vec![arg(unit()), arg(error)]))])
}

fn good_noti() -> TypeDesc {
    of("Option", vec![arg(of("MTx", vec![arg(named("Self"))]))])
}

fn done_refused(res: TypeDesc, noti: TypeDesc) -> TaskDefError {
    refused(vec![], with(vec![field(res, &["res"]), field(noti, &["noti"])]))
}

#[test]
fn roles_by_name() {
    let role = |s: &str| field_role(&s.to_string());
    assert_eq!(role("common"), FieldRole::Common);
    assert_eq!(role("req_blob"), FieldRole::ReqBlob);
    assert_eq!(role("resp_blob"), FieldRole::RespBlob);
    assert_eq!(role("noti"), FieldRole::Noti);
    assert_eq!(role("other"), FieldRole::Other);
}

#[test]
fn option_types() {
    assert!(check_option_inner_type(&of("Option", vec![arg(unit())])));
    assert!(!check_option_inner_type(&unit()));
    assert!(!check_option_inner_type(&TypeDesc::Other));
    assert!(!check_option_inner_type(&named("Option")));
    assert!(!check_option_inner_type(&of("Vec", vec![arg(unit())])));
    assert!(!check_option_inner_type(&of("Option", vec![lifetime()])));
    assert!(!check_option_inner_type(&of("Option", vec![arg(unit()), arg(unit())])));
    let std_option = TypeDesc::Path(PathDesc {
        qself: false,
        leading_colon: false,
        segments: vec![
            SegmentDesc { ident: "std".to_string(), args: None },
            SegmentDesc { ident: "Option".to_string(), args: Some(vec![arg(unit())]) },
        ],
    });
    assert!(!check_option_inner_type(&std_option));
}

#[test]
fn arguments_that_are_refused() {
    assert_eq!(
        refused(vec![TaskArg::Debug, TaskArg::Debug], base()),
        TaskDefError::DuplicateDebug
    );
    assert_eq!(refused(vec![number(1), number(2)], base()), TaskDefError::MultipleActions);
    assert_eq!(
        refused(vec![number(1), number(2), TaskArg::Debug, TaskArg::Debug], base()),
        TaskDefError::MultipleActions
    );
    assert_eq!(
        refused(vec![TaskArg::Action(ActionDesc::Int("9999999999".to_string(), None))], base()),
        TaskDefError::InvalidInt
    );
    assert_eq!(
        refused(vec![TaskArg::Action(ActionDesc::OtherLit)], base()),
        TaskDefError::UnsupportedAction
    );
    assert_eq!(
        refused(vec![TaskArg::Action(ActionDesc::OtherMeta)], base()),
        TaskDefError::UnsupportedAction
    );
}

#[test]
fn fields_that_are_refused() {
    let action = || field(named("u8"), &["action"]);
    assert_eq!(
        refused(vec![], with(vec![action(), action()])),
        TaskDefError::MultipleActionFields
    );
    assert_eq!(
        refused(vec![], with(vec![field(named("u8"), &["action", "action"])])),
        TaskDefError::MultipleActionFields
    );
    assert_eq!(refused(vec![number(1)], with(vec![action()])), TaskDefError::BothActions);
    assert_eq!(
        refused(vec![], with(vec![field(unit(), &["action"])])),
        TaskDefError::FieldActionType
    );
    assert_eq!(
        refused(vec![], with(vec![field(good_res(), &["res"])])),
        TaskDefError::ResNotiApart
    );
    assert_eq!(
        refused(vec![], with(vec![field(good_noti(), &["noti"])])),
        TaskDefError::ResNotiApart
    );
    let without = |i: usize| {
        let mut f = base();
        f.remove(i);
        f
    };
    assert_eq!(refused(vec![], without(0)), TaskDefError::MissingCommon);
    assert_eq!(refused(vec![], without(1)), TaskDefError::MissingReq);
    assert_eq!(refused(vec![], without(2)), TaskDefError::MissingResp);
    let mut f = without(2);
    f.push(field(unit(), &["resp"]));
    assert_eq!(refused(vec![], f), TaskDefError::RespNotOption);
    assert_eq!(refused(vec![], vec![]), TaskDefError::MissingCommon);
}

#[test]
fn the_last_field_with_a_role_counts() {
    let f = with(vec![field(named("Q"), &["req"]), field(unit(), &["unknown"])]);
    let p = client_task_impl(&vec![], &f).unwrap();
    assert_eq!((p.common, p.req, p.resp), (0, 3, 2));
}

#[test]
fn results_that_are_refused() {
    let r = |t| done_refused(t, good_noti());
    let opt = |t| of("Option", vec![arg(t)]);
    let result = |a, b| opt(of("Result", vec![arg(a), arg(b)]));
    assert_eq!(r(unit()), TaskDefError::ResNotPath);
    assert_eq!(r(named("Vec")), TaskDefError::ResNotOption);
    assert_eq!(r(named("Option")), TaskDefError::OptionNoArgs);
    assert_eq!(r(of("Option", vec![])), TaskDefError::OptionNoType);
    assert_eq!(r(opt(unit())), TaskDefError::ResInnerNotResult);
    assert_eq!(r(opt(named("Vec"))), TaskDefError::ResNotOptionResult);
    assert_eq!(r(opt(named("Result"))), TaskDefError::ResultNoArgs);
    assert_eq!(r(opt(of("Result", vec![arg(unit())]))), TaskDefError::ResultNotTwo);
    assert_eq!(r(result(named("u8"), unit())), TaskDefError::ResultOkNotUnit);
    assert_eq!(
        r(result(TypeDesc::Tuple { empty: false }, unit())),
        TaskDefError::ResultOkNotUnit
    );
    assert_eq!(
        r(opt(of("Result", vec![arg(unit()), lifetime()]))),
        TaskDefError::ResultNoError
    );
    assert_eq!(r(result(unit(), unit())), TaskDefError::ErrorNotRpcError);
    assert_eq!(r(result(unit(), named("Errno"))), TaskDefError::ErrorNotRpcError);
    assert_eq!(r(result(unit(), named("RpcError"))), TaskDefError::RpcErrorNoArgs);
    assert_eq!(r(result(unit(), of("RpcError", vec![lifetime()]))), TaskDefError::RpcErrorNoType);
}

#[test]
fn ways_back_that_are_refused() {
    let n = |t| done_refused(good_res(), t);
    let opt = |t| of("Option", vec![arg(t)]);
    assert_eq!(n(unit()), TaskDefError::NotiNotPath);
    assert_eq!(n(named("MTx")), TaskDefError::NotiNotOption);
    assert_eq!(n(named("Option")), TaskDefError::OptionNoArgs);
    assert_eq!(n(of("Option", vec![lifetime()])), TaskDefError::OptionNoType);
    assert_eq!(n(opt(unit())), TaskDefError::NotiInnerNotPath);
    assert_eq!(n(opt(named("Tx"))), TaskDefError::NotiNotMTx);
    assert_eq!(n(opt(named("MTx"))), TaskDefError::MTxNoArgs);
    assert_eq!(n(opt(of("MTx", vec![]))), TaskDefError::MTxNoType);
}

#[test]
fn messages_about_structs() {
    assert_eq!(
        TaskDefError::RespNotOption.describe("FileTask", "resp"),
        "`FileTask::resp` resp field must be of type Option<T>"
    );
    assert_eq!(
        TaskDefError::MissingReq.describe("FileTask", "resp"),
        "req field must be tagged with #[field(req)]"
    );
}

fn variant(inner: Option<&str>, actions: Vec<ActionAttr>) -> VariantDesc {
    VariantDesc { name: "V".to_string(), inner: inner.map(|s| s.to_string()), actions }
}

fn text(s: &str) -> ActionDesc {
    ActionDesc::Str(s.to_string())
}

fn enum_refused(variants: Vec<VariantDesc>) -> (EnumDefError, String) {
    let e = client_task_enum_impl(Some("E".to_string()), Some(&variants)).expect_err("accepted");
    (e, e.describe("MyEnum", &variants))
}

#[test]
fn enums_that_are_refused() {
    assert_eq!(
        client_task_enum_impl(None, Some(&vec![])).expect_err("accepted"),
        EnumDefError::MissingError
    );
    assert_eq!(
        client_task_enum_impl(Some("E".to_string()), None).expect_err("accepted"),
        EnumDefError::NotEnum
    );
    assert_eq!(
        EnumDefError::NotEnum.describe("X", &vec![]),
        "#[client_task_enum] can only be applied to enums"
    );
    assert_eq!(
        enum_refused(vec![variant(Some("A"), vec![]), variant(None, vec![])]),
        (
            EnumDefError::NotSingleField(1),
            "Enum variants must be tuple-style with a single field".to_string()
        )
    );
    let a = || variant(Some("TaskA < E >"), vec![]);
    assert_eq!(
        enum_refused(vec![a(), variant(Some("B"), vec![]), a()]),
        (
            EnumDefError::DuplicateType(2),
            "Duplicate sub-type `TaskA < E >` found in enum `MyEnum`. `From` implementation cannot be generated for duplicate sub-types.".to_string()
        )
    );
    let two = ActionAttr::List(vec![text("a"), text("b")]);
    assert_eq!(
        enum_refused(vec![variant(Some("A"), vec![two])]),
        (
            EnumDefError::MultipleActions(0),
            "Only one action is allowed per variant".to_string()
        )
    );
    let twice = vec![ActionAttr::List(vec![text("a")]), ActionAttr::List(vec![text("b")])];
    assert_eq!(
        enum_refused(vec![variant(Some("A"), twice)]).0,
        EnumDefError::MultipleActions(0)
    );
    let other = ActionAttr::List(vec![ActionDesc::OtherLit]);
    assert_eq!(
        enum_refused(vec![variant(Some("A"), vec![other])]),
        (EnumDefError::UnsupportedAction(0), "Unsupported action type".to_string())
    );
}

#[test]
fn attributes_that_give_no_action() {
    let attrs = vec![
        ActionAttr::NotList,
        ActionAttr::List(vec![]),
        ActionAttr::List(vec![ActionDesc::OtherMeta]),
    ];
    assert!(matches!(get_action_attribute(&attrs), Ok(None)));
    let attrs = vec![ActionAttr::NotList, ActionAttr::List(vec![text("a")])];
    assert!(matches!(
        get_action_attribute(&attrs),
        Ok(Some(ActionDesc::Str(s))) if s == "a"
    ));
}

#[test]
fn items_of_attributes() {
    let ident = |s: &str| MetaDesc::Path(s.to_string(), Some(s.to_string()));
    let path = || MetaDesc::Path("Action::Open".to_string(), None);
    assert!(matches!(read_task_arg(ident("debug")), TaskArg::Debug));
    assert!(matches!(
        read_task_arg(MetaDesc::Path("a::debug".to_string(), None)),
        TaskArg::Action(ActionDesc::Path(p)) if p == "a::debug"
    ));
    assert!(matches!(
        read_task_arg(MetaDesc::Str("debug".to_string())),
        TaskArg::Action(ActionDesc::Str(s)) if s == "debug"
    ));
    assert!(matches!(
        read_action(MetaDesc::Int("7".to_string(), Some(7))),
        ActionDesc::Int(s, Some(7)) if s == "7"
    ));
    assert!(matches!(read_action(MetaDesc::OtherLit), ActionDesc::OtherLit));
    assert!(matches!(read_action(MetaDesc::Other), ActionDesc::OtherMeta));
    let mut roles = vec!["common".to_string()];
    read_roles(&vec![ident("req"), path(), MetaDesc::Other, ident("res")], &mut roles);
    assert_eq!(roles, ["common", "req", "res"]);
}
