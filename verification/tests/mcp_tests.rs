use itsm_manager::api::FetchError;
use itsm_manager::config::Config;
use itsm_manager::json::Json;
use itsm_manager::mcp::{
    build_replenish_params, default_support_group, fetch_error, pagination, pick_detail_fields,
    replies_result, reply_order_type, required_text, search_result, ticket_by_code_result,
    ticket_by_code_target, CreateTicketParams, ToolErrorKind,
};

fn s(x: &str) -> Json {
    Json::Str(x.to_string())
}

fn object(fields: Vec<(&str, Json)>) -> Json {
    Json::Object(fields.into_iter().map(|(k, v)| (k.to_string(), v)).collect())
}

fn cgp(overrides: impl FnOnce(&mut CreateTicketParams)) -> CreateTicketParams {
    let mut p = CreateTicketParams {
        service_type: "ST1".into(),
        service_sub_type: "SST1".into(),
        order_subject: "主题".into(),
        detail: "<p>描述</p>".into(),
        contact_customer_group: "CG1".into(),
        contact_customer_group_name: "客户组A".into(),
        requestor: "RQ1".into(),
        requestor_name: "张三".into(),
        assign: None,
        assign_name: None,
        support_by: None,
        support_name: None,
        create_template_id: None,
    };
    overrides(&mut p);
    p
}

#[test]
fn pagination_defaults_and_validates() {
    assert_eq!(pagination(None, None).unwrap(), (1, 50));
    assert_eq!(pagination(Some(2), Some(100)).unwrap(), (2, 100));
    assert!(pagination(Some(0), Some(50)).is_err());
    assert!(pagination(Some(1), Some(0)).is_err());
    assert!(pagination(Some(1), Some(201)).is_err());
}

#[test]
fn required_text_trims_and_rejects_blank() {
    assert_eq!(required_text("id", " A-1 ".into()).unwrap(), "A-1");
    assert!(required_text("id", "   ".into()).is_err());
}

#[test]
fn required_text_message_names_the_field() {
    let e = required_text("keyword", "\t\u{3000}".into()).unwrap_err();
    assert_eq!(e.kind, ToolErrorKind::InvalidParams);
    assert_eq!(e.message, "keyword 不能为空");
}

#[test]
fn build_replenish_params_missing_required_returns_error() {
    let p = cgp(|p| p.order_subject = "  ".into());
    let err = build_replenish_params(&p, None).unwrap_err();
    assert!(err.message.contains("order_subject"), "实际: {}", err.message);
}

#[test]
fn build_replenish_params_fills_assign_from_config() {
    let p = cgp(|_| {});
    let v = build_replenish_params(&p, Some(&("SG1".into(), "支持组X".into()))).unwrap();
    assert_eq!(v.get("assign"), Some(&s("SG1")));
    assert_eq!(v.get("assignName"), Some(&s("支持组X")));
}

#[test]
fn build_replenish_params_missing_assign_no_config_returns_error() {
    let p = cgp(|_| {});
    let err = build_replenish_params(&p, None).unwrap_err();
    assert!(err.message.contains("默认支持组"), "实际: {}", err.message);
}

#[test]
fn build_replenish_params_overrides_assign() {
    let p = cgp(|p| {
        p.assign = Some("SG9".into());
        p.assign_name = Some("自定义组".into());
    });
    let v = build_replenish_params(&p, Some(&("SG1".into(), "默认组".into()))).unwrap();
    assert_eq!(v.get("assign"), Some(&s("SG9")));
    assert_eq!(v.get("assignName"), Some(&s("自定义组")));
}

#[test]
fn build_replenish_params_pair_check() {
    let p = cgp(|p| p.assign = Some("SG9".into()));
    let err = build_replenish_params(&p, Some(&("SG1".into(), "默认组".into()))).unwrap_err();
    assert!(err.message.contains("assign") && err.message.contains("assign_name"), "实际: {}", err.message);
}

#[test]
fn build_replenish_params_hardcoded_fields() {
    let p = cgp(|_| {});
    let v = build_replenish_params(&p, Some(&("SG1".into(), "G".into()))).unwrap();
    assert_eq!(v.get("fileIds"), Some(&Json::Array(vec![])));
    assert_eq!(v.get("priority"), Some(&s("3")));
    assert_eq!(v.get("effect"), Some(&s("4")));
    assert_eq!(v.get("urgency"), Some(&s("1")));
    assert_eq!(v.get("cc"), Some(&Json::Array(vec![])));
    assert_eq!(v.get("orderSign"), Some(&Json::Int(1)));
    assert_eq!(v.get("assignLevel"), Some(&Json::Int(1)));
    assert_eq!(v.get("relatedorderList"), Some(&Json::Array(vec![])));
}

#[test]
fn build_replenish_params_matches_frontend_shape() {
    let p = cgp(|p| {
        p.support_by = Some("U2".into());
        p.support_name = Some("李四".into());
        p.create_template_id = Some("TPL1".into());
    });
    let v = build_replenish_params(&p, Some(&("SG1".into(), "G".into()))).unwrap();
    let keys: Vec<&str> = match &v {
        Json::Object(f) => f.iter().map(|(k, _)| k.as_str()).collect(),
        _ => panic!("not an object"),
    };
    let expected = [
        "serviceType", "serviceSubType", "orderSubject", "detail", "fileIds", "priority",
        "contactCustomerGroup", "requestor", "assign", "supportBy", "effect", "urgency", "cc",
        "orderSign", "contactCustomerGroupName", "requestorName", "assignName", "assignLevel",
        "supportName", "relatedorderList", "createTemplateId",
    ];
    for k in expected {
        assert!(keys.contains(&k), "缺字段 {k}");
    }
    assert_eq!(keys.len(), expected.len(), "字段数不匹配：{:?}", keys);
    assert_eq!(v.get("supportBy"), Some(&s("U2")));
    assert_eq!(v.get("supportName"), Some(&s("李四")));
    assert_eq!(v.get("createTemplateId"), Some(&s("TPL1")));
}

#[test]
fn build_replenish_params_trims_values() {
    let p = cgp(|p| {
        p.order_subject = "  主题  ".into();
        p.create_template_id = Some("   ".into());
    });
    let v = build_replenish_params(&p, Some(&("SG1".into(), "G".into()))).unwrap();
    assert_eq!(v.get("orderSubject"), Some(&s("主题")));
    assert_eq!(v.get("createTemplateId"), Some(&s("")));
    assert_eq!(v.get("supportBy"), Some(&s("")));
}

#[test]
fn pick_detail_keeps_core_fields_only() {
    let v = object(vec![(
        "data",
        object(vec![
            ("extField1", s("x")),
            ("status", s("Open")),
            ("incidentId", s("I1")),
            ("formFields", Json::Array(vec![])),
        ]),
    )]);
    let d = pick_detail_fields(&v);
    assert_eq!(d, object(vec![("incidentId", s("I1")), ("status", s("Open"))]));
    assert_eq!(pick_detail_fields(&object(vec![])), object(vec![]));
    assert_eq!(pick_detail_fields(&object(vec![("data", s("x"))])), object(vec![]));
}

#[test]
fn replies_and_search_results() {
    let r = replies_result(&object(vec![("data", Json::Array(vec![s("a"), s("b")]))]));
    assert_eq!(r, object(vec![("replies", Json::Array(vec![s("a"), s("b")])), ("count", Json::Int(2))]));
    let r = replies_result(&object(vec![]));
    assert_eq!(r, object(vec![("replies", Json::Array(vec![])), ("count", Json::Int(0))]));
    let r = search_result(Json::Array(vec![]), 4, 7, 1, 50);
    assert_eq!(r.get("count"), Some(&Json::Int(4)));
    assert_eq!(r.get("seach_type"), Some(&Json::Int(7)));
}

#[test]
fn ticket_by_code_picks_first_hit() {
    let data = Json::Array(vec![
        object(vec![("incidentId", s("ID1")), ("incidentCode", s("IM1"))]),
        object(vec![("incidentId", s("ID2"))]),
    ]);
    let (id, code) = ticket_by_code_target("IM1", &data).unwrap();
    assert_eq!(id, "ID1");
    assert_eq!(code, s("IM1"));
    let e = ticket_by_code_target("IM1", &Json::Array(vec![])).unwrap_err();
    assert_eq!(e.kind, ToolErrorKind::InvalidParams);
    assert_eq!(e.message, "未找到单号为 IM1 的工单");
    let e = ticket_by_code_target("IM1", &object(vec![])).unwrap_err();
    assert_eq!((e.kind, e.message.as_str()), (ToolErrorKind::Internal, "搜索响应非数组"));
    let e = ticket_by_code_target("IM1", &Json::Array(vec![object(vec![])])).unwrap_err();
    assert_eq!(e.message, "搜索结果缺 incidentId");
    let (_, code) = ticket_by_code_target("X", &Json::Array(vec![object(vec![("incidentId", s("I"))])])).unwrap();
    assert_eq!(code, Json::Null);
}

#[test]
fn ticket_by_code_result_hints_on_many_hits() {
    let r = ticket_by_code_result(3, "I".into(), s("C"), object(vec![]), Json::Array(vec![]));
    assert_eq!(r.get("hint"), Some(&s("命中 3 条，已取首条；如非目标请用更完整的单号")));
    let r = ticket_by_code_result(1, "I".into(), s("C"), object(vec![]), Json::Array(vec![]));
    assert!(r.get("hint").is_none());
    assert_eq!(r.get("incident_id"), Some(&s("I")));
}

#[test]
fn tool_errors() {
    let e = fetch_error(FetchError::Auth);
    assert_eq!((e.kind, e.message.as_str()), (ToolErrorKind::Internal, "登录已失效"));
    assert_eq!(fetch_error(FetchError::Server("HTTP 500".into())).message, "HTTP 500");
    assert_eq!(reply_order_type(None).unwrap(), "1");
    assert_eq!(reply_order_type(Some(" 2 ".into())).unwrap(), "2");
    assert_eq!(reply_order_type(Some(" ".into())).unwrap_err().message, "order_type 不能为空");
}

#[test]
fn default_support_group_needs_both_non_blank() {
    let mut c = Config::default_with(2);
    assert!(default_support_group(&c).is_none());
    c.default_support_group_id = Some("SG1".into());
    c.default_support_group_name = Some(" ".into());
    assert!(default_support_group(&c).is_none());
    c.default_support_group_name = Some(" G ".into());
    assert_eq!(default_support_group(&c), Some(("SG1".to_string(), " G ".to_string())));
}
