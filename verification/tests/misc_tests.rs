use itsm_manager::api::{FetchError, RefreshError, SearchParams};
use itsm_manager::cache::{cache_hit, tickets_filename, whitelist_files, CachedTickets};
use itsm_manager::commands::{
    attachment_from_decoded, cached_listing, check_external_url, decide_migration, decode_attachment,
    loaded_cred, plan_listing, progress_step, removes_plaintext, update_info, verify_token_result, FoundUpdate,
    ListingPlan, MigrationAction,
};
use itsm_manager::json::Json;
use itsm_manager::login::{
    autofill_script, autofill_step, is_login_form, FillStep, is_signed_in_page, parse_login_callback, url_decode, LoginCallback,
    FILL_HEAD, FILL_MIDDLE, FILL_TAIL,
};
use itsm_manager::scheduler::{
    after_refresh, next_round_delay, refresh_outcome, refresh_without_login, should_alert, LoopAction,
};
use itsm_manager::state::{now_unix, unix_time, StoredCred, TokenStore};
use itsm_manager::tray::{close_action, pause_label, CloseAction};

// ---- credential migration ----

#[test]
fn decide_migration_no_plaintext_no_keychain() {
    assert_eq!(decide_migration(false, false), MigrationAction::NoAction);
}

#[test]
fn decide_migration_no_plaintext_has_keychain() {
    assert_eq!(decide_migration(false, true), MigrationAction::NoAction);
}

#[test]
fn decide_migration_plaintext_no_keychain_migrate() {
    assert_eq!(decide_migration(true, false), MigrationAction::Migrate);
}

#[test]
fn decide_migration_both_delete_plaintext() {
    assert_eq!(decide_migration(true, true), MigrationAction::DeletePlaintext);
}

// ---- scheduler ----

#[test]
fn should_alert_below_threshold() {
    assert!(!should_alert(0));
    assert!(!should_alert(2));
}

#[test]
fn should_alert_at_and_above_threshold() {
    assert!(should_alert(3));
    assert!(should_alert(5));
}

#[test]
fn three_server_failures_in_a_row_alert_once() {
    let (c1, a1) = after_refresh(0, Some(RefreshError::Server));
    assert_eq!((c1, a1), (1, LoopAction::Continue));
    let (c2, a2) = after_refresh(c1, Some(RefreshError::Server));
    assert_eq!((c2, a2), (2, LoopAction::Continue));
    let (c3, a3) = after_refresh(c2, Some(RefreshError::Server));
    assert_eq!((c3, a3), (0, LoopAction::Alert));
}

#[test]
fn success_and_network_reset_the_counter() {
    assert_eq!(after_refresh(2, None), (0, LoopAction::Continue));
    assert_eq!(after_refresh(2, Some(RefreshError::Network)), (0, LoopAction::Continue));
}

#[test]
fn expired_login_stops_the_loop() {
    assert_eq!(after_refresh(1, Some(RefreshError::Auth)), (1, LoopAction::Stop));
}

#[test]
fn paused_interval_ends_the_loop() {
    assert_eq!(next_round_delay(0), None);
    assert_eq!(next_round_delay(300), Some(300));
}

#[test]
fn refresh_outcome_maps_errors() {
    let ok: Result<(Json, i64), FetchError> = Ok((Json::Array(vec![]), 0));
    assert_eq!(refresh_outcome(&ok), (None, false));
    let auth: Result<(Json, i64), FetchError> = Err(FetchError::Auth);
    assert_eq!(refresh_outcome(&auth), (Some(RefreshError::Auth), true));
    let net: Result<(Json, i64), FetchError> = Err(FetchError::Network("timeout".into()));
    assert_eq!(refresh_outcome(&net), (Some(RefreshError::Network), false));
    let server: Result<(Json, i64), FetchError> = Err(FetchError::Server("HTTP 503".into()));
    assert_eq!(refresh_outcome(&server), (Some(RefreshError::Server), false));
    assert_eq!(refresh_without_login(), (Some(RefreshError::Auth), true));
}

// ---- token store ----

#[test]
fn token_store_missing_returns_not_logged_in() {
    let store = TokenStore::default();
    assert_eq!(store.get().unwrap_err(), "未登录");
}

#[test]
fn token_store_clones_share_updates() {
    let store = TokenStore::default();
    let clone = store.clone();
    store.set(Some("token-a".into()));
    assert_eq!(clone.get().unwrap(), "token-a");
    clone.set(Some("token-b".into()));
    assert_eq!(store.get().unwrap(), "token-b");
}

#[test]
fn token_store_clear_removes_token() {
    let store = TokenStore::default();
    store.set(Some("token-a".into()));
    store.set(None);
    assert_eq!(store.get().unwrap_err(), "未登录");
}

#[test]
fn unix_time_of_clock_readings() {
    assert_eq!(unix_time(None), 0);
    assert_eq!(unix_time(Some(1_700_000_000)), 1_700_000_000);
    assert_eq!(unix_time(Some(u64::MAX)), -1);
    assert!(now_unix() > 1_600_000_000);
}

// ---- cache ----

#[test]
fn tickets_filename_per_view() {
    assert_eq!(tickets_filename(2), "tickets_2.json");
    assert_eq!(tickets_filename(-3), "tickets_-3.json");
    assert_eq!(tickets_filename(0), "tickets_0.json");
}

#[test]
fn whitelist_files_one_per_view() {
    assert_eq!(whitelist_files(&[1, 2, 9]), vec!["tickets_1.json", "tickets_2.json", "tickets_9.json"]);
    assert!(whitelist_files(&[]).is_empty());
}

fn page(page_index: i64, page_size: i64) -> CachedTickets {
    CachedTickets { fetched_at: 1000, count: 7, page_index, page_size, data: Json::Array(vec![]) }
}

#[test]
fn cache_hit_needs_same_page_and_size() {
    assert!(cache_hit(page(1, 50), 1, 50).is_some());
    assert!(cache_hit(page(1, 50), 2, 50).is_none());
    assert!(cache_hit(page(1, 50), 1, 20).is_none());
}

#[test]
fn cached_listing_is_marked_from_cache() {
    let j = cached_listing(page(1, 50));
    assert_eq!(j.get("from_cache"), Some(&Json::Bool(true)));
    assert_eq!(j.get("fetched_at"), Some(&Json::Int(1000)));
    assert_eq!(j.get("count"), Some(&Json::Int(7)));
    assert_eq!(j.get("search"), Some(&Json::Bool(false)));
}

// ---- commands ----

#[test]
fn external_links_only_http() {
    assert!(check_external_url("https://example.com").is_ok());
    assert!(check_external_url("http://example.com").is_ok());
    assert_eq!(check_external_url("file:///etc/passwd").unwrap_err(), "仅支持 http/https 链接");
    assert!(check_external_url("javascript:alert(1)").is_err());
}

#[test]
fn verify_token_result_by_probe() {
    assert_eq!(verify_token_result(Ok(true)), Ok(true));
    assert_eq!(verify_token_result(Ok(false)), Ok(false));
    assert_eq!(verify_token_result(Err(RefreshError::Auth)), Ok(false));
    assert_eq!(verify_token_result(Err(RefreshError::Network)), Err("网络错误".to_string()));
    assert_eq!(verify_token_result(Err(RefreshError::Server)), Err("服务器错误".to_string()));
}

#[test]
fn update_info_with_and_without_release() {
    let none = update_info("1.0.0".into(), None);
    assert!(!none.available);
    assert_eq!(none.current_version, "1.0.0");
    assert!(none.version.is_none());
    let some = update_info(
        "1.0.0".into(),
        Some(FoundUpdate { version: "1.1.0".into(), notes: Some("fixes".into()), pub_date: None }),
    );
    assert!(some.available);
    assert_eq!(some.version.as_deref(), Some("1.1.0"));
    assert_eq!(some.notes.as_deref(), Some("fixes"));
    assert!(some.pub_date.is_none());
}

#[test]
fn progress_keeps_last_known_total() {
    assert_eq!(progress_step(0, 0, 100, Some(1000)), (100, 1000));
    assert_eq!(progress_step(100, 1000, 50, None), (150, 1000));
}

#[test]
fn decode_attachment_base64() {
    assert_eq!(decode_attachment("aGk=").unwrap(), b"hi".to_vec());
    assert_eq!(decode_attachment("").unwrap(), Vec::<u8>::new());
    let err = decode_attachment("@@@").unwrap_err();
    assert!(err.starts_with("base64 解码失败: "), "{err}");
    assert!(err.len() > "base64 解码失败: ".len());
}

#[test]
fn attachment_error_prefix() {
    assert_eq!(attachment_from_decoded(Err("bad".into())), Err("base64 解码失败: bad".to_string()));
    assert_eq!(attachment_from_decoded(Ok(vec![1, 2])), Ok(vec![1, 2]));
}

// ---- login ----

#[test]
fn url_decode_escapes_and_plus() {
    assert_eq!(url_decode("a%20b+c"), "a b c");
    assert_eq!(url_decode("%E4%B8%AD"), "中");
    assert_eq!(url_decode("%41"), "A");
    assert_eq!(url_decode("%4"), "%4");
    assert_eq!(url_decode("x%zz"), "x%zz");
    assert_eq!(url_decode("%+5"), "\u{5}");
    assert_eq!(url_decode("%FF"), "\u{FFFD}");
    assert_eq!(url_decode(""), "");
}

fn get(path: &str) -> String {
    format!("GET {path} HTTP/1.1\r\nHost: 127.0.0.1:17539\r\n\r\n")
}

#[test]
fn login_callback_with_token() {
    let token = "abcdefghijklmnopqrstuvwxyz";
    match parse_login_callback(&get(&format!("/cb?t={token}&u=%E5%BC%A0%E4%B8%89&ti=42"))) {
        LoginCallback::LoggedIn(c) => {
            assert_eq!(c.token, token);
            assert_eq!(c.user_name, "张三");
            assert_eq!(c.tenant_id, "42");
        },
        other => panic!("unexpected {other:?}"),
    }
}

#[test]
fn login_callback_default_tenant_and_quotes() {
    let token = "abcdefghijklmnopqrstuvwxyz";
    match parse_login_callback(&get(&format!("/cb?t=%22{token}%22&u=x"))) {
        LoginCallback::LoggedIn(c) => {
            assert_eq!(c.token, token);
            assert_eq!(c.tenant_id, "466553071648915456");
        },
        other => panic!("unexpected {other:?}"),
    }
}

#[test]
fn login_callback_short_token_ignored() {
    assert!(matches!(parse_login_callback(&get("/cb?t=short")), LoginCallback::Ignored));
}

#[test]
fn login_callback_failure_and_captcha() {
    match parse_login_callback(&get("/login_fail?msg=%E5%AF%86%E7%A0%81%E9%94%99%E8%AF%AF")) {
        LoginCallback::Failed(m) => assert_eq!(m, "密码错误"),
        other => panic!("unexpected {other:?}"),
    }
    assert!(matches!(parse_login_callback(&get("/login_captcha")), LoginCallback::Captcha));
    assert!(matches!(parse_login_callback(&get("/favicon.ico")), LoginCallback::Ignored));
    assert!(matches!(parse_login_callback(""), LoginCallback::Ignored));
}

#[test]
fn login_page_states() {
    assert!(is_login_form("https://itsm.example.com/#/login?x=1"));
    assert!(!is_login_form("https://itsm.example.com/#/home"));
    assert!(is_signed_in_page("https://help.chinasie.com/maintenance"));
    assert!(is_signed_in_page("https://help.chinasie.com/portal/x"));
    assert!(!is_signed_in_page("https://help.chinasie.com/login"));
}

#[test]
fn autofill_script_quotes_credentials() {
    let s = autofill_script("u\"1", "p\\2");
    let expected = format!("{FILL_HEAD}\"u\\\"1\"{FILL_MIDDLE}\"p\\\\2\"{FILL_TAIL}");
    assert_eq!(s, expected);
}

#[test]
fn autofill_fills_the_form_then_stops() {
    assert_eq!(autofill_step("https://help.chinasie.com/login?redirect=/maintenance"), FillStep::Fill);
    assert_eq!(autofill_step("https://help.chinasie.com/maintenance"), FillStep::Done);
    assert_eq!(autofill_step("about:blank"), FillStep::Wait);
}

// ---- tray and window ----

#[test]
fn pause_entry_label() {
    assert_eq!(pause_label(0), "恢复自动刷新");
    assert_eq!(pause_label(300), "暂停自动刷新");
}

#[test]
fn closing_hides_to_tray_and_hints_once() {
    assert_eq!(close_action(false, false), CloseAction::Close);
    assert_eq!(close_action(true, false), CloseAction::HideToTray { show_hint: true });
    assert_eq!(close_action(true, true), CloseAction::HideToTray { show_hint: false });
}

fn cred(account: &str) -> StoredCred {
    StoredCred { account: account.to_string(), password: "p".to_string() }
}

#[test]
fn migration_picks_the_password_and_cleans_up() {
    let k = loaded_cred(MigrationAction::NoAction, Some(cred("k")), None).unwrap();
    assert_eq!(k.account, "k");
    let k = loaded_cred(MigrationAction::DeletePlaintext, Some(cred("k")), Some(cred("p"))).unwrap();
    assert_eq!(k.account, "k");
    let p = loaded_cred(MigrationAction::Migrate, None, Some(cred("p"))).unwrap();
    assert_eq!(p.account, "p");
    assert!(loaded_cred(MigrationAction::Migrate, None, None).is_none());
    assert!(!removes_plaintext(MigrationAction::NoAction, true));
    assert!(removes_plaintext(MigrationAction::DeletePlaintext, false));
    assert!(removes_plaintext(MigrationAction::Migrate, true));
    assert!(!removes_plaintext(MigrationAction::Migrate, false));
}

#[test]
fn listing_plan_serves_cache_or_fetches() {
    match plan_listing(None, Some(page(1, 50)), 1, 50) {
        ListingPlan::Answer(j) => assert_eq!(j.get("from_cache"), Some(&Json::Bool(true))),
        ListingPlan::Fetch { .. } => panic!("expected the cached page"),
    }
    assert!(matches!(
        plan_listing(None, Some(page(1, 50)), 2, 50),
        ListingPlan::Fetch { write_cache: true, search: false }
    ));
    assert!(matches!(plan_listing(None, None, 1, 50), ListingPlan::Fetch { write_cache: true, search: false }));
    let s = SearchParams { code_and_subject: Some("IM1".into()), ..SearchParams::default() };
    assert!(matches!(
        plan_listing(Some(&s), Some(page(1, 50)), 1, 50),
        ListingPlan::Fetch { write_cache: false, search: true }
    ));
    let blank = SearchParams { status: Some("".into()), ..SearchParams::default() };
    assert!(matches!(plan_listing(Some(&blank), Some(page(1, 50)), 1, 50), ListingPlan::Answer(_)));
}

#[test]
fn url_decode_undoes_encode_uri_component() {
    // encodeURIComponent("张三 a+b%/'!") in a browser
    assert_eq!(url_decode("%E5%BC%A0%E4%B8%89%20a%2Bb%25%2F'!"), "张三 a+b%/'!");
    assert_eq!(url_decode("abc-_.~*()"), "abc-_.~*()");
    assert_eq!(url_decode("100%"), "100%");
}
