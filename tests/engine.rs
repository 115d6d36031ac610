use azure_api::bound_args::{ArgValue, BoundArgs};
use azure_api::complete::{completion_labels, CompletionInfo};
use azure_api::invoke::{build_request, plan_request, route_response, InvokeError, RequestError, ResponseError};
use azure_api::metadata_command::{
    Body, BodyJSON, Command, Condition, ConditionOperator, ConditionOperatorType, DefaultValue, Http, Method,
    Operation, Request, RequestPath, RequestPathParam, RequestQuery, RequestQueryConst, RequestQueryParam, Response,
    Schema,
};
use azure_api::metadata_index::{Command as IndexCommand, CommandGroup, Index, LocateError};
use azure_api::resource_id::{IdError, ResourceId};
use azure_api::semantic_tokens::{semantic_token_types, SemanticTokenType};

const RG_TEMPLATE: &str = "/subscriptions/{subscriptionId}/resourcegroups/{resourceGroupName}";

fn bind(pairs: &[(&str, &str)]) -> BoundArgs {
    let mut args = BoundArgs::new();
    for (k, v) in pairs {
        args.insert(k.to_string(), ArgValue::Str(v.to_string()));
    }
    args
}

fn has_value(arg: &str) -> ConditionOperator {
    ConditionOperator::Arg { arg: arg.to_string(), type_: ConditionOperatorType::HasValue }
}

fn and(ops: Vec<ConditionOperator>) -> ConditionOperator {
    ConditionOperator::Operators { operators: ops, type_: ConditionOperatorType::And }
}

fn not(op: ConditionOperator) -> ConditionOperator {
    ConditionOperator::Operator { operator: Box::new(op), type_: ConditionOperatorType::Not }
}

fn path_param(name: &str) -> RequestPathParam {
    RequestPathParam {
        type_: "string".to_string(),
        name: name.to_string(),
        arg: format!("$Path.{name}"),
        required: Some(true),
        format: None,
    }
}

fn api_version_const() -> RequestQueryConst {
    RequestQueryConst {
        name: "api-version".to_string(),
        type_: "string".to_string(),
        required: Some(true),
        read_only: Some(true),
        const_: true,
        default: DefaultValue { value: "2024-11-01".to_string() },
    }
}

fn operation(id: &str, method: Method, path: &str, params: Vec<RequestPathParam>, when: &[&str]) -> Operation {
    Operation {
        operation_id: Some(id.to_string()),
        http: Some(Http {
            path: path.to_string(),
            request: Request {
                method,
                path: RequestPath { params },
                query: RequestQuery { consts: vec![api_version_const()], params: None },
                body: None,
            },
            responses: vec![Response { status_code: Some(vec![200]), body: None, is_error: None }],
        }),
        when: Some(when.iter().map(|w| w.to_string()).collect()),
    }
}

fn list_command() -> Command {
    Command {
        conditions: Some(vec![
            Condition {
                operator: and(vec![has_value("$Path.subscriptionId"), not(has_value("$Path.resourceGroupName"))]),
                var: "$Condition_ListAll".to_string(),
            },
            Condition {
                operator: and(vec![has_value("$Path.subscriptionId"), has_value("$Path.resourceGroupName")]),
                var: "$Condition_List".to_string(),
            },
        ]),
        operations: vec![
            operation(
                "VirtualNetworks_ListAll",
                Method::Get,
                "/subscriptions/{subscriptionId}/providers/Microsoft.Network/virtualNetworks",
                vec![path_param("subscriptionId")],
                &["$Condition_ListAll"],
            ),
            operation(
                "VirtualNetworks_List",
                Method::Get,
                "/subscriptions/{subscriptionId}/resourceGroups/{resourceGroupName}/providers/Microsoft.Network/virtualNetworks",
                vec![path_param("subscriptionId"), path_param("resourceGroupName")],
                &["$Condition_List"],
            ),
        ],
        ..Command::default()
    }
}

fn index() -> Index {
    let versions = |vs: &[&str]| IndexCommand { help: None, versions: vs.iter().map(|v| v.to_string()).collect() };
    Index {
        help: None,
        command_groups: vec![(
            "group".to_string(),
            CommandGroup {
                command_groups: Some(vec![(
                    "sub".to_string(),
                    CommandGroup {
                        command_groups: None,
                        commands: Some(vec![("list".to_string(), versions(&["2023-01-01"]))]),
                        help: None,
                    },
                )]),
                commands: Some(vec![
                    ("show".to_string(), versions(&["2022-09-01", "2024-11-01", "2023-07-01"])),
                    ("create".to_string(), versions(&[])),
                ]),
                help: None,
            },
        )],
    }
}

fn strings(v: &[&str]) -> Vec<String> {
    v.iter().map(|s| s.to_string()).collect()
}

#[test]
fn resource_id_with_trailing_slash_and_other_case_validates() {
    let id = ResourceId::from("/subscriptions/00000000-0000-0000-0000-000000000000/resourcegroups/MyRG/");
    assert_eq!(id.id(), "/subscriptions/00000000-0000-0000-0000-000000000000/resourcegroups/MyRG");
    assert!(id.validate_pattern(RG_TEMPLATE, &Method::Put).is_ok());
    let upper = ResourceId::from("/SUBSCRIPTIONS/00000000-0000-0000-0000-000000000000/RESOURCEGROUPS/MyRG");
    assert!(upper.validate_pattern(RG_TEMPLATE, &Method::Put).is_ok());
}

#[test]
fn resource_id_missing_a_segment_is_a_length_mismatch() {
    let id = ResourceId::from("/subscriptions/00000000-0000-0000-0000-000000000000/resourcegroups");
    match id.validate_pattern(RG_TEMPLATE, &Method::Put) {
        Err(IdError::LengthMismatch { expect, got }) => {
            assert_eq!(expect, 5);
            assert_eq!(got, 4);
        }
        other => panic!("unexpected {other:?}"),
    }
}

#[test]
fn resource_id_segment_mismatch_and_post_action() {
    let id = ResourceId::from("/subscriptions/x/resourceGroupz/rg");
    match id.validate_pattern(RG_TEMPLATE, &Method::Put) {
        Err(IdError::SegmentMismatch { expect, got }) => {
            assert_eq!(expect, "RESOURCEGROUPS");
            assert_eq!(got, "RESOURCEGROUPZ");
        }
        other => panic!("unexpected {other:?}"),
    }
    let id = ResourceId::from("/subscriptions/x/resourcegroups/rg");
    let action = format!("{RG_TEMPLATE}/restart");
    assert!(id.validate_pattern(&action, &Method::Post).is_ok());
    assert!(id.validate_pattern(&action, &Method::Put).is_err());
}

#[test]
fn trailing_slash_gives_the_same_validation() {
    for raw in ["/subscriptions/a/resourcegroups/b", "/subscriptions/a", "/x/y/z/w"] {
        let plain = ResourceId::from(raw).validate_pattern(RG_TEMPLATE, &Method::Get).is_ok();
        let slashed = ResourceId::from(&format!("{raw}/")).validate_pattern(RG_TEMPLATE, &Method::Get).is_ok();
        assert_eq!(plain, slashed);
    }
}

#[test]
fn condition_selects_list_all_for_subscription_only() {
    let cmd = list_command();
    let args = bind(&[("$Path.subscriptionId", "sub")]);
    assert_eq!(cmd.match_condition(&args, None), Some("$Condition_ListAll".to_string()));
    let op = cmd.select_operation(&args, None).unwrap();
    assert_eq!(op.operation_id.as_deref(), Some("VirtualNetworks_ListAll"));

    let both = bind(&[("$Path.subscriptionId", "sub"), ("$Path.resourceGroupName", "rg")]);
    assert_eq!(cmd.match_condition(&both, None), Some("$Condition_List".to_string()));

    let none = BoundArgs::new();
    assert_eq!(cmd.match_condition(&none, None), None);
    assert!(cmd.select_operation(&none, None).is_none());
}

#[test]
fn condition_selected_by_resource_id() {
    let cmd = list_command();
    let id = ResourceId::from("/subscriptions/s/resourceGroups/rg/providers/Microsoft.Network/virtualNetworks");
    assert_eq!(cmd.match_condition(&BoundArgs::new(), Some(&id)), Some("$Condition_List".to_string()));
    let unknown = ResourceId::from("/nothing");
    assert_eq!(cmd.match_condition(&BoundArgs::new(), Some(&unknown)), None);
}

#[test]
fn unconditional_command_selects_its_single_operation() {
    let mut cmd = list_command();
    cmd.conditions = None;
    assert!(cmd.select_operation(&BoundArgs::new(), None).is_none());
    cmd.operations.truncate(1);
    let op = cmd.select_operation(&BoundArgs::new(), None).unwrap();
    assert_eq!(op.operation_id.as_deref(), Some("VirtualNetworks_ListAll"));
    cmd.operations.clear();
    assert!(cmd.select_operation_by_cond(None).is_none());
}

#[test]
fn binding_more_arguments_keeps_and_conditions_true() {
    let cmd = list_command();
    let cond = and(vec![has_value("a"), has_value("b")]);
    let mut args = bind(&[("a", "1"), ("b", "2")]);
    assert!(cmd.match_operator(&cond, &args));
    args.insert("c".to_string(), ArgValue::Int(3));
    assert!(cmd.match_operator(&cond, &args));
    let or = ConditionOperator::Operators { operators: vec![has_value("x"), has_value("c")], type_: ConditionOperatorType::Or };
    assert!(cmd.match_operator(&or, &args));
}

#[test]
fn locate_resolves_latest_or_requested_version() {
    let idx = index();
    let args = strings(&["rp", "group", "show"]);
    assert_eq!(idx.locate_command_file(None, &args).unwrap(), "rp_group_show_2024-11-01.json");
    assert_eq!(
        idx.locate_command_file(Some("2022-09-01".to_string()), &args).unwrap(),
        "rp_group_show_2022-09-01.json"
    );
    let nested = strings(&["rp", "group", "sub", "list"]);
    assert_eq!(idx.locate_command_file(None, &nested).unwrap(), "rp_group_sub_list_2023-01-01.json");
}

#[test]
fn locate_is_idempotent() {
    let idx = index();
    let args = strings(&["rp", "group", "show"]);
    let first = idx.locate_command_file(None, &args).unwrap();
    let second = idx.locate_command_file(None, &args).unwrap();
    assert_eq!(first, second);
}

#[test]
fn locate_errors() {
    let idx = index();
    assert!(matches!(idx.locate_command_file(None, &vec![]), Err(LocateError::EmptyInput)));
    assert!(matches!(idx.locate_command_file(None, &strings(&["rp"])), Err(LocateError::NotACommand)));
    assert!(matches!(idx.locate_command_file(None, &strings(&["rp", "group"])), Err(LocateError::NotACommand)));
    match idx.locate_command_file(None, &strings(&["rp", "nope"])) {
        Err(LocateError::UnknownArgument(a)) => assert_eq!(a, "nope"),
        other => panic!("unexpected {other:?}"),
    }
    match idx.locate_command_file(None, &strings(&["rp", "group", "show", "extra"])) {
        Err(LocateError::UnknownArgument(a)) => assert_eq!(a, "extra"),
        other => panic!("unexpected {other:?}"),
    }
    match idx.locate_command_file(Some("1999-01-01".to_string()), &strings(&["rp", "group", "show"])) {
        Err(LocateError::VersionNotAvailable(v)) => assert_eq!(v, "1999-01-01"),
        other => panic!("unexpected {other:?}"),
    }
    assert!(matches!(
        idx.locate_command_file(None, &strings(&["rp", "group", "create"])),
        Err(LocateError::NoVersion)
    ));
}

fn create_operation() -> Operation {
    let mut op = operation(
        "ResourceGroups_CreateOrUpdate",
        Method::Put,
        RG_TEMPLATE,
        vec![path_param("resourceGroupName"), path_param("subscriptionId")],
        &[],
    );
    let http = op.http.as_mut().unwrap();
    http.request.query.params = Some(vec![RequestQueryParam {
        arg: "$Query.filter".to_string(),
        description: String::new(),
        name: "$filter".to_string(),
        type_: "string".to_string(),
    }]);
    http.request.body = Some(Body {
        json: BodyJSON {
            schema: Some(Schema {
                type_: "object".to_string(),
                name: Some("parameters".to_string()),
                props: Some(vec![Schema {
                    type_: "ResourceLocation".to_string(),
                    name: Some("location".to_string()),
                    arg: Some("$parameters.location".to_string()),
                    required: Some(true),
                    description: Some("Where it lives.".to_string()),
                    ..Schema::default()
                }]),
                ..Schema::default()
            }),
            var: None,
            ref_: None,
        },
    });
    op
}

#[test]
fn request_from_discrete_parameters() {
    let op = create_operation();
    let args = bind(&[
        ("$Path.subscriptionId", "sub1"),
        ("$Path.resourceGroupName", "rg1"),
        ("$parameters.location", "westus"),
        ("$Query.filter", "x eq 1"),
    ]);
    let req = build_request(&op, &args, None, None).unwrap();
    assert_eq!(req.method, Method::Put);
    assert_eq!(req.path, "/subscriptions/sub1/resourcegroups/rg1");
    assert_eq!(
        req.query,
        vec![
            ("api-version".to_string(), "2024-11-01".to_string()),
            ("$filter".to_string(), "x eq 1".to_string())
        ]
    );
    match req.body {
        Some(azure_api::body::BodyValue::Object(fields)) => {
            assert_eq!(fields.len(), 1);
            assert_eq!(fields[0].0, "location");
        }
        other => panic!("unexpected {other:?}"),
    }
}

#[test]
fn request_errors_and_overrides() {
    let op = create_operation();
    let args = bind(&[("$Path.subscriptionId", "sub1")]);
    match build_request(&op, &args, None, None) {
        Err(RequestError::MissingRequiredParameter(n)) => assert_eq!(n, "resourceGroupName"),
        other => panic!("unexpected {other:?}"),
    }
    let id = ResourceId::from("/subscriptions/s/resourcegroups/r/");
    let explicit = r#"{"location":"eastus"}"#.to_string();
    let mut with_version = BoundArgs::new();
    with_version.insert("api-version".to_string(), ArgValue::Str("2020-01-01".to_string()));
    let req = build_request(&op, &with_version, Some(&id), Some(&explicit)).unwrap();
    assert_eq!(req.path, "/subscriptions/s/resourcegroups/r");
    assert_eq!(req.query, vec![("api-version".to_string(), "2020-01-01".to_string())]);
    assert!(matches!(req.body, Some(azure_api::body::BodyValue::Raw(ref t)) if t == &explicit));

    let bad = ResourceId::from("/subscriptions/s");
    assert!(matches!(build_request(&op, &with_version, Some(&bad), None), Err(RequestError::InvalidId(_))));

    let mut optional = op.clone();
    optional.http.as_mut().unwrap().request.path.params[0].required = None;
    match build_request(&optional, &args, None, None) {
        Err(RequestError::OptionalParameterUnsupported(n)) => assert_eq!(n, "resourceGroupName"),
        other => panic!("unexpected {other:?}"),
    }

    let no_http = Operation { operation_id: Some("Design".to_string()), http: None, when: None };
    match build_request(&no_http, &args, None, None) {
        Err(RequestError::NoHttp(n)) => assert_eq!(n, "Design"),
        other => panic!("unexpected {other:?}"),
    }
}

#[test]
fn post_action_path_appends_the_action() {
    let template = format!("{RG_TEMPLATE}/restart");
    let op = operation("Restart", Method::Post, &template, vec![], &[]);
    let id = ResourceId::from("/subscriptions/s/resourcegroups/r");
    let req = build_request(&op, &BoundArgs::new(), Some(&id), None).unwrap();
    assert_eq!(req.path, "/subscriptions/s/resourcegroups/r/restart");
    assert!(req.body.is_none());
}

#[test]
fn response_routing_by_status() {
    let responses = vec![
        Response { status_code: Some(vec![200, 201]), body: None, is_error: None },
        Response { status_code: None, body: None, is_error: Some(true) },
    ];
    assert_eq!(route_response(201, b"{\"ok\":1}".to_vec(), &responses).unwrap(), "{\"ok\":1}");
    match route_response(404, b"not found".to_vec(), &responses) {
        Err(ResponseError::Unexpected { status, body }) => {
            assert_eq!(status, 404);
            assert_eq!(body, b"not found".to_vec());
        }
        other => panic!("unexpected {other:?}"),
    }
    assert!(matches!(route_response(200, vec![0xff, 0xfe], &responses), Err(ResponseError::InvalidUtf8)));
}

#[test]
fn schema_lookup_by_path_returns_the_named_node() {
    let op = create_operation();
    let node = op.schema_by_path(&["location"]).unwrap();
    assert_eq!(node.name.as_deref(), Some("location"));
    assert_eq!(op.schema_by_path(&[]).unwrap().name.as_deref(), Some("parameters"));
    assert!(op.schema_by_path(&["missing"]).is_none());
    assert_eq!(node.to_hover_content(), "location *required*, ResourceLocation\n\nWhere it lives.");
    assert!(op.contains_request_body());
    assert!(!list_command().contains_request_body());
}

#[test]
fn completion_offers_absent_properties() {
    let op = create_operation();
    let info = CompletionInfo::new(vec![], vec![]);
    assert_eq!(completion_labels(&op, &info), Some(vec!["location".to_string()]));
    let info = CompletionInfo::new(vec![], vec!["location".to_string()]);
    assert_eq!(completion_labels(&op, &info), Some(vec![]));
    let info = CompletionInfo::new(vec!["location".to_string()], vec![]);
    assert_eq!(completion_labels(&op, &info), None);
}

#[test]
fn semantic_token_classes() {
    assert_eq!(semantic_token_types().len(), 5);
    assert_eq!(SemanticTokenType::from_kinds("identifier", Some("block")), Some(SemanticTokenType::BlockIdent));
    assert_eq!(SemanticTokenType::from_kinds("identifier", Some("attribute")), Some(SemanticTokenType::AttributeIdent));
    assert_eq!(SemanticTokenType::from_kinds("identifier", None), None);
    assert_eq!(SemanticTokenType::from_kinds("numeric_lit", None), Some(SemanticTokenType::Number));
    assert_eq!(SemanticTokenType::Bool.name(), "hcl-type-bool");
}

#[test]
fn bound_args_replace_values() {
    let mut args = BoundArgs::new();
    args.insert("k".to_string(), ArgValue::Str("a".to_string()));
    args.insert("k".to_string(), ArgValue::Int(5));
    assert_eq!(args.entries.len(), 1);
    assert!(matches!(args.get("k"), Some(ArgValue::Int(5))));
    assert!(args.has_value("k"));
    assert!(!args.has_value("j"));
}

#[test]
fn planning_checks_the_document_and_selects() {
    let cmd = list_command();
    let args = bind(&[("$Path.subscriptionId", "s1")]);
    let req = plan_request(&cmd, &args, None, None).unwrap();
    assert_eq!(req.path, "/subscriptions/s1/providers/Microsoft.Network/virtualNetworks");
    assert!(matches!(plan_request(&cmd, &BoundArgs::new(), None, None), Err(InvokeError::NoOperation)));

    let mut unknown_tag = list_command();
    unknown_tag.operations[0].when = Some(vec!["$Condition_Missing".to_string()]);
    assert!(matches!(plan_request(&unknown_tag, &args, None, None), Err(InvokeError::Metadata(_))));

    let mut lone_and = list_command();
    lone_and.conditions.as_mut().unwrap()[0].operator = and(vec![has_value("$Path.subscriptionId")]);
    assert!(matches!(lone_and.check_integrity(), Err(azure_api::condition::MetadataFault::MalformedCondition(_))));

    let mut none = list_command();
    none.conditions = None;
    assert!(matches!(none.check_integrity(), Err(azure_api::condition::MetadataFault::NotExactlyOneOperation)));
    assert!(list_command().check_integrity().is_ok());

    let mut missing = list_command();
    missing.operations.truncate(1);
    let args2 = bind(&[("$Path.subscriptionId", "s1"), ("$Path.resourceGroupName", "rg")]);
    assert!(matches!(plan_request(&missing, &args2, None, None), Err(InvokeError::NoOperation)));
}
