use itsm_manager::api::{
    call_result, change_status, change_status_update, claim, classify, fetch_body, fetch_send_error,
    fetch_status_check, fetch_tickets_request, get_detail, get_dict, is_permission_not_pass, list_tickets,
    map_fetch_error, merge_search, parse_tickets_response, parse_upload_response, reply_body,
    suspend_or_unhang, Body, CallOutcome, FetchError, RefreshError, SearchParams,
};
use itsm_manager::json::{set_field, Json};

fn s(x: &str) -> Json {
    Json::Str(x.to_string())
}

fn object(fields: Vec<(&str, Json)>) -> Json {
    Json::Object(fields.into_iter().map(|(k, v)| (k.to_string(), v)).collect())
}

fn body_of(b: &Body) -> &Json {
    match b {
        Body::Json(j) => j,
        _ => panic!("not a JSON body"),
    }
}

#[test]
fn search_params_empty_when_all_blank() {
    assert!(SearchParams::default().is_empty());
    assert!(SearchParams {
        code_and_subject: Some("".into()),
        status: Some("".into()),
        creation_date_begin: None,
        creation_date_end: Some("".into()),
        contact_customer_group_name: Some("".into()),
    }
    .is_empty());
}

#[test]
fn search_params_not_empty_when_any_filled() {
    assert!(!SearchParams { status: Some("Suspend".into()), ..Default::default() }.is_empty());
}

#[test]
fn search_params_to_params_full() {
    let p = SearchParams {
        code_and_subject: Some("kw".into()),
        status: Some("Suspend".into()),
        creation_date_begin: Some("2026-01-01".into()),
        creation_date_end: Some("2026-07-22".into()),
        contact_customer_group_name: Some("cg".into()),
    };
    let v = p.to_params();
    assert_eq!(v.get("codeAndSubject"), Some(&s("kw")));
    assert_eq!(v.get("status"), Some(&s("Suspend")));
    assert_eq!(
        v.get("creationDateSearch"),
        Some(&Json::Array(vec![s("2026-01-01"), s("2026-07-22")]))
    );
    assert_eq!(v.get("contactCustomerGroupName"), Some(&s("cg")));
}

#[test]
fn search_params_to_params_skips_blanks_and_single_date() {
    let p = SearchParams {
        creation_date_begin: Some("2026-01-01".into()),
        creation_date_end: Some("".into()),
        code_and_subject: Some("kw".into()),
        ..Default::default()
    };
    let v = p.to_params();
    assert!(v.get("creationDateSearch").is_none());
    assert_eq!(v.get("codeAndSubject"), Some(&s("kw")));
}

#[test]
fn search_params_to_params_empty_yields_empty_object() {
    let v = SearchParams::default().to_params();
    assert!(matches!(v, Json::Object(ref m) if m.is_empty()));
}

#[test]
fn classify_401_is_auth() {
    assert_eq!(classify(Some(401), false, false), RefreshError::Auth);
}

#[test]
fn classify_connect_is_network() {
    assert_eq!(classify(None, true, false), RefreshError::Network);
}

#[test]
fn classify_503_is_server() {
    assert_eq!(classify(Some(503), false, false), RefreshError::Server);
}

#[test]
fn classify_parse_fail_is_server() {
    assert_eq!(classify(Some(200), false, true), RefreshError::Server);
}

#[test]
fn classify_400_is_server() {
    assert_eq!(classify(Some(400), false, false), RefreshError::Server);
}

#[test]
fn classify_no_status_is_network() {
    assert_eq!(classify(None, false, false), RefreshError::Network);
    assert_eq!(classify(Some(401), true, true), RefreshError::Auth);
}

#[test]
fn map_network() {
    assert_eq!(map_fetch_error(&FetchError::Network("x".into())), RefreshError::Network);
}

#[test]
fn map_auth() {
    assert_eq!(map_fetch_error(&FetchError::Auth), RefreshError::Auth);
}

#[test]
fn map_server() {
    assert_eq!(map_fetch_error(&FetchError::Server("y".into())), RefreshError::Server);
}

#[test]
fn parse_normal() {
    let v = object(vec![
        ("code", Json::Int(800)),
        (
            "data",
            object(vec![
                ("data", Json::Array(vec![object(vec![("id", s("A"))])])),
                ("count", Json::Int(5)),
            ]),
        ),
    ]);
    let (arr, count) = parse_tickets_response(&v).unwrap();
    assert_eq!(count, 5);
    assert_eq!(arr, Json::Array(vec![object(vec![("id", s("A"))])]));
}

#[test]
fn parse_missing_data_is_error() {
    let v = object(vec![("code", Json::Int(800))]);
    assert!(parse_tickets_response(&v).is_err());
}

#[test]
fn parse_missing_count_defaults_zero() {
    let v = object(vec![("data", object(vec![("data", Json::Array(vec![]))]))]);
    let (_, count) = parse_tickets_response(&v).unwrap();
    assert_eq!(count, 0);
}

#[test]
fn parse_missing_inner_data_defaults_empty() {
    let v = object(vec![("data", object(vec![("count", Json::Int(3))]))]);
    let (arr, count) = parse_tickets_response(&v).unwrap();
    assert_eq!(count, 3);
    assert_eq!(arr, Json::Array(vec![]));
}

#[test]
fn parse_upload_ok() {
    let v = object(vec![
        ("code", Json::Int(800)),
        (
            "data",
            object(vec![
                ("fileId", s("123")),
                ("filePath", s("https://x/y.png")),
                ("sourceFileName", s("a.png")),
            ]),
        ),
        ("msg", s("操作成功")),
    ]);
    let r = parse_upload_response(&v).unwrap();
    assert_eq!(r.file_id, "123");
    assert_eq!(r.file_path, "https://x/y.png");
    assert_eq!(r.file_name, "a.png");
}

#[test]
fn parse_upload_wrong_code_is_err() {
    let v = object(vec![("code", Json::Int(500)), ("msg", s("失败"))]);
    let e = parse_upload_response(&v).unwrap_err();
    assert!(parse_upload_response(&v).is_err());
    assert_eq!(e, "上传失败: 失败");
}

#[test]
fn parse_upload_missing_data_is_err() {
    let v = object(vec![("code", Json::Int(800))]);
    assert!(parse_upload_response(&v).is_err());
}

#[test]
fn parse_upload_missing_fileid_is_err() {
    let v = object(vec![("code", Json::Int(800)), ("data", object(vec![("filePath", s("https://x/y.png"))]))]);
    assert!(parse_upload_response(&v).is_err());
}

#[test]
fn parse_upload_code_as_text_is_err() {
    let v = object(vec![("code", s("800")), ("data", object(vec![("fileId", s("1")), ("filePath", s("p"))]))]);
    assert_eq!(parse_upload_response(&v).unwrap_err(), "上传失败: ");
}

#[test]
fn parse_upload_missing_name_defaults_empty() {
    let v = object(vec![("code", Json::Int(800)), ("data", object(vec![("fileId", s("1")), ("filePath", s("p"))]))]);
    let r = parse_upload_response(&v).unwrap();
    assert_eq!(r.file_name, "");
}

#[test]
fn reply_body_carries_file_ids_and_html() {
    let body = reply_body("OID", "<p>hi <strong>x</strong></p>", &["a".into(), "b".into()], false, "1");
    let p = body.get("params").unwrap();
    assert_eq!(p.get("detail").unwrap(), &s("<p>hi <strong>x</strong></p>"));
    assert_eq!(p.get("fileIds").unwrap(), &Json::Array(vec![s("a"), s("b")]));
    assert_eq!(p.get("isPrivate").unwrap(), &Json::Int(0));
}

#[test]
fn reply_body_empty_file_ids() {
    let body = reply_body("OID", "<p>x</p>", &[], true, "1");
    let p = body.get("params").unwrap();
    assert_eq!(p.get("fileIds").unwrap(), &Json::Array(vec![]));
    assert_eq!(p.get("isPrivate").unwrap(), &Json::Int(1));
}

#[test]
fn permission_not_pass_is_detected_for_all_http_helpers() {
    let v = object(vec![
        ("code", s("-1")),
        ("msgCode", s("1011_common_119")),
        ("status", s("PERMISSION_NOT_PASS")),
    ]);
    assert!(is_permission_not_pass(&v));
    assert!(!is_permission_not_pass(&object(vec![("code", Json::Int(800))])));
}

#[test]
fn call_result_turns_refused_token_into_expired_login() {
    let req = get_detail("X1");
    let refused = object(vec![("status", s("PERMISSION_NOT_PASS"))]);
    assert_eq!(call_result(&req, CallOutcome::Body(refused)).unwrap_err(), "登录已失效");
    let ok = object(vec![("code", Json::Int(800))]);
    assert_eq!(call_result(&req, CallOutcome::Body(object(vec![("code", Json::Int(800))]))).unwrap(), ok);
    assert_eq!(call_result(&req, CallOutcome::SendFailed("boom".into())).unwrap_err(), "请求失败: boom");
    assert_eq!(call_result(&req, CallOutcome::Unreadable("bad".into())).unwrap_err(), "解析失败: bad");
}

#[test]
fn claim_does_not_check_the_token() {
    let req = claim("ID9");
    assert_eq!(req.url, "https://api-itsm.chinasie.com/api/itsm/incidentService/snatch-order");
    let refused = object(vec![("status", s("PERMISSION_NOT_PASS"))]);
    assert!(call_result(&req, CallOutcome::Body(refused)).is_ok());
    assert_eq!(call_result(&req, CallOutcome::SendFailed("e".into())).unwrap_err(), "接单失败: e");
    match &req.body {
        Body::Form(f) => assert_eq!(f, &vec![("id".to_string(), "ID9".to_string())]),
        _ => panic!("claim is a form"),
    }
}

#[test]
fn request_paths_carry_their_arguments() {
    assert_eq!(
        get_detail("A B").url,
        "https://api-itsm.chinasie.com/api/itsm/incidentService/get-with-fields?id=A B"
    );
    assert_eq!(
        get_dict("T1", "PRIORITY").url,
        "https://api-itsm.chinasie.com/dictionary/dic-items/get-dictype-notoken?dicType=PRIORITY&tenantId=T1"
    );
    assert_eq!(change_status("Z").url, get_detail("Z").url);
    let r = suspend_or_unhang("I", "suspend", "why");
    assert_eq!(r.send_error_prefix, "上传失败: ");
    match &r.body {
        Body::Form(f) => {
            assert_eq!(f[1], ("optionType".to_string(), "suspend".to_string()));
            assert_eq!(f[2], ("detail".to_string(), "why".to_string()));
        }
        _ => panic!("suspend is a form"),
    }
}

#[test]
fn list_tickets_body_merges_search() {
    let p = SearchParams { status: Some("Suspend".into()), ..Default::default() };
    let req = list_tickets(7, Some(&p));
    let b = body_of(&req.body);
    assert_eq!(b.get("pageIndex"), Some(&Json::Int(1)));
    assert_eq!(b.get("pageRows"), Some(&Json::Int(200)));
    let params = b.get("params").unwrap();
    assert_eq!(params.get("seachType"), Some(&Json::Int(7)));
    assert_eq!(params.get("status"), Some(&s("Suspend")));
    let req = fetch_tickets_request(3, 2, 100, None);
    let b = body_of(&req.body);
    assert_eq!(b.get("pageIndex"), Some(&Json::Int(2)));
    assert_eq!(b.get("pageRows"), Some(&Json::Int(100)));
    assert_eq!(b.get("params"), Some(&object(vec![("seachType", Json::Int(3))])));
}

#[test]
fn merge_search_overrides_existing_keys() {
    let mut params = vec![("status".to_string(), s("Old")), ("seachType".to_string(), Json::Int(2))];
    let p = SearchParams { status: Some("New".into()), ..Default::default() };
    merge_search(&mut params, Some(&p));
    assert_eq!(params.len(), 2);
    assert_eq!(params[0], ("status".to_string(), s("New")));
}

#[test]
fn change_status_update_sets_resolution_fields() {
    let detail = object(vec![("data", object(vec![("incidentId", s("X")), ("status", s("Open"))]))]);
    let req = change_status_update(&detail, "Resolved", "fixed", true).unwrap();
    assert_eq!(req.url, "https://api-itsm.chinasie.com/api/itsm/incidentService/update");
    let p = body_of(&req.body).get("params").unwrap();
    assert_eq!(p.get("incidentId"), Some(&s("X")));
    assert_eq!(p.get("status"), Some(&s("Resolved")));
    assert_eq!(p.get("solution"), Some(&s("fixed")));
    assert_eq!(p.get("statusName"), Some(&s("已解决")));
    assert_eq!(p.get("endCode"), Some(&s("1")));
    assert_eq!(p.get("accountability"), Some(&s("3")));
    assert_eq!(p.get("statusIndex"), Some(&Json::Int(3)));
    let req = change_status_update(&detail, "Other", "c", false).unwrap();
    let p = body_of(&req.body).get("params").unwrap();
    assert!(p.get("statusName").is_none());
}

#[test]
fn change_status_update_errors() {
    let missing = object(vec![("code", Json::Int(800))]);
    assert_eq!(change_status_update(&missing, "Resolved", "x", true).err().unwrap(), "未取到工单数据");
    let wrong = object(vec![("data", Json::Array(vec![]))]);
    assert_eq!(change_status_update(&wrong, "Resolved", "x", true).err().unwrap(), "工单数据格式异常");
}

#[test]
fn fetch_checks_status_then_body() {
    assert!(matches!(fetch_status_check(401), Err(FetchError::Auth)));
    assert!(fetch_status_check(204).is_ok());
    match fetch_status_check(503) {
        Err(FetchError::Server(m)) => assert_eq!(m, "HTTP 503"),
        _ => panic!("expected a server error"),
    }
    match fetch_body(Err("eof".into())) {
        Err(FetchError::Server(m)) => assert_eq!(m, "解析失败: eof"),
        _ => panic!("expected a server error"),
    }
    let refused = object(vec![("status", s("PERMISSION_NOT_PASS"))]);
    assert!(matches!(fetch_body(Ok(refused)), Err(FetchError::Auth)));
    match fetch_body(Ok(object(vec![]))) {
        Err(FetchError::Server(m)) => assert_eq!(m, "响应缺 data"),
        _ => panic!("expected a server error"),
    }
    match fetch_send_error(true, "t".into()) {
        FetchError::Network(m) => assert_eq!(m, "t"),
        _ => panic!("expected a network error"),
    }
    assert!(matches!(fetch_send_error(false, "t".into()), FetchError::Server(_)));
}

#[test]
fn empty_search_lists_like_no_search() {
    let empty = SearchParams { code_and_subject: Some("".into()), ..SearchParams::default() };
    let with_empty = list_tickets(2, Some(&empty));
    let without = list_tickets(2, None);
    assert_eq!(body_of(&with_empty.body), body_of(&without.body));
}

#[test]
fn set_field_replaces_in_place_or_appends() {
    let mut f = vec![("a".to_string(), Json::Int(1)), ("b".to_string(), Json::Int(2))];
    set_field(&mut f, "a".to_string(), Json::Int(9));
    set_field(&mut f, "c".to_string(), Json::Int(3));
    let o = Json::Object(f);
    assert_eq!(o.get("a"), Some(&Json::Int(9)));
    assert_eq!(o.get("b"), Some(&Json::Int(2)));
    assert_eq!(o.get("c"), Some(&Json::Int(3)));
    match o {
        Json::Object(f) => assert_eq!(f.iter().map(|(k, _)| k.as_str()).collect::<Vec<_>>(), vec!["a", "b", "c"]),
        _ => unreachable!(),
    }
}
