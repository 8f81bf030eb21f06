use std::collections::HashMap;

use itsm_manager::config::{
    default_last_interval, default_mcp_port, default_mcp_seach_type, default_true, sorted_unique, Config,
};

fn base() -> Config {
    Config {
        whitelist: vec![1],
        interval_sec: 300,
        default_customer_group_id: None,
        default_customer_group_name: None,
        default_requestor_id: None,
        default_requestor_name: None,
        default_support_group_id: None,
        default_support_group_name: None,
        view_page_sizes: HashMap::new(),
        autostart_enabled: false,
        minimize_to_tray: true,
        tray_hint_shown: false,
        last_interval_sec: 300,
        auto_claim_enabled: false,
        auto_claim_seach_type: None,
        mcp_enabled: true,
        mcp_port: 17540,
        mcp_default_seach_type: 7,
    }
}

#[test]
fn default_with_sets_single_whitelist_and_300() {
    let c = Config::default_with(7);
    assert_eq!(c.whitelist, vec![7]);
    assert_eq!(c.interval_sec, 300);
}

#[test]
fn clamp_below_min() {
    assert_eq!(Config::clamp_interval(0), 0);
    assert_eq!(Config::clamp_interval(29), 30);
}

#[test]
fn clamp_above_max() {
    assert_eq!(Config::clamp_interval(1801), 1800);
    assert_eq!(Config::clamp_interval(99999), 1800);
}

#[test]
fn clamp_in_range() {
    assert_eq!(Config::clamp_interval(120), 120);
}

#[test]
fn dedup_removes_duplicates_sorted() {
    let c = Config { whitelist: vec![3, 1, 2, 1, 3], ..base() }.dedup();
    assert_eq!(c.whitelist, vec![1, 2, 3]);
}

#[test]
fn normalize_clamps_and_dedups() {
    let c = Config { whitelist: vec![2, 2, 1], interval_sec: 5, ..base() }.normalize();
    assert_eq!(c.whitelist, vec![1, 2]);
    assert_eq!(c.interval_sec, 30);
}

#[test]
fn last_interval_clamped_no_zero() {
    let zero = || Config { last_interval_sec: 0, ..base() };
    assert_eq!(zero().normalize().last_interval_sec, 30, "0 -> 最小 30");
    let mut c = zero();
    c.last_interval_sec = 5;
    assert_eq!(c.normalize().last_interval_sec, 30, "低于最小 -> 30");
    let mut c = zero();
    c.last_interval_sec = 99999;
    assert_eq!(c.normalize().last_interval_sec, 1800, "超过最大 -> 1800");
}

#[test]
fn normalize_keeps_last_when_interval_zero() {
    let mut c = Config { interval_sec: 0, last_interval_sec: 120, ..base() };
    c = c.normalize();
    assert_eq!(c.interval_sec, 0, "interval 0 = 暂停，保留");
    assert_eq!(c.last_interval_sec, 120, "last 保留原值");
}

#[test]
fn toggled_pause_to_zero_and_back() {
    let mut c = base();
    c = c.toggled_pause();
    assert_eq!(c.interval_sec, 0);
    assert_eq!(c.last_interval_sec, 300);
    c = c.toggled_pause();
    assert_eq!(c.interval_sec, 300);
}

#[test]
fn toggled_pause_resumes_at_least_min() {
    let c = Config { interval_sec: 0, last_interval_sec: 0, ..base() }.toggled_pause();
    assert_eq!(c.interval_sec, 30);
}

#[test]
fn default_with_auto_claim_off() {
    let c = Config::default_with(2);
    assert!(!c.auto_claim_enabled);
    assert_eq!(c.auto_claim_seach_type, None);
}

#[test]
fn normalize_preserves_auto_claim() {
    let mut c = Config::default_with(2);
    c.auto_claim_enabled = true;
    c.auto_claim_seach_type = Some(5);
    let n = c.normalize();
    assert!(n.auto_claim_enabled);
    assert_eq!(n.auto_claim_seach_type, Some(5));
}

#[test]
fn default_with_searches_all_tickets_over_mcp() {
    assert_eq!(Config::default_with(2).mcp_default_seach_type, 7);
    assert_eq!(default_mcp_seach_type(), 7);
    let mut c = Config::default_with(2);
    c.mcp_default_seach_type = 3;
    assert_eq!(c.normalize().mcp_default_seach_type, 3);
}

#[test]
fn default_with_enables_mcp_on_17540() {
    let c = Config::default_with(2);
    assert!(c.mcp_enabled);
    assert_eq!(c.mcp_port, 17540);
}

#[test]
fn clamp_mcp_port_accepts_user_port() {
    assert_eq!(Config::clamp_mcp_port(1024), 1024);
    assert_eq!(Config::clamp_mcp_port(17541), 17541);
    assert_eq!(Config::clamp_mcp_port(65535), 65535);
}

#[test]
fn clamp_mcp_port_rejects_privileged_or_zero() {
    assert_eq!(Config::clamp_mcp_port(0), 17540);
    assert_eq!(Config::clamp_mcp_port(1023), 17540);
}

#[test]
fn normalize_repairs_invalid_mcp_port() {
    let mut c = Config::default_with(2);
    c.mcp_enabled = false;
    c.mcp_port = 80;
    let n = c.normalize();
    assert!(!n.mcp_enabled);
    assert_eq!(n.mcp_port, 17540);
}

#[test]
fn defaults_of_missing_fields() {
    assert!(default_true());
    assert_eq!(default_last_interval(), 300);
    assert_eq!(default_mcp_port(), 17540);
}

#[test]
fn normalize_twice_is_normalize_once() {
    let c = Config {
        whitelist: vec![9, -1, 9, 4, -1],
        interval_sec: 7,
        last_interval_sec: 5000,
        mcp_port: 10,
        ..base()
    };
    let once = c.normalize();
    assert_eq!(once.whitelist, vec![-1, 4, 9]);
    assert_eq!(once.interval_sec, 30);
    assert_eq!(once.last_interval_sec, 1800);
    assert_eq!(once.mcp_port, 17540);
    let (w, i, l, p) = (once.whitelist.clone(), once.interval_sec, once.last_interval_sec, once.mcp_port);
    let twice = once.normalize();
    assert_eq!(twice.whitelist, w);
    assert_eq!((twice.interval_sec, twice.last_interval_sec, twice.mcp_port), (i, l, p));
}

#[test]
fn pause_then_resume_restores_interval() {
    let c = Config { interval_sec: 600, last_interval_sec: 120, ..base() }.normalize();
    let back = c.toggled_pause().toggled_pause();
    assert_eq!(back.interval_sec, 600);
    assert_eq!(back.last_interval_sec, 600);
}

#[test]
fn page_size_for_reads_supported_sizes_only() {
    let c = Config {
        view_page_sizes: HashMap::from([(7, 100), (-3, 200), (8, 75)]),
        ..base()
    };
    assert_eq!(c.page_size_for(7), 100);
    assert_eq!(c.page_size_for(-3), 200);
    assert_eq!(c.page_size_for(8), 50);
    assert_eq!(c.page_size_for(9), 50);
}

#[test]
fn fallback_and_save_sync() {
    assert_eq!(Config { whitelist: vec![5, 1], ..base() }.fallback_seach_type(), 5);
    assert_eq!(Config { whitelist: vec![], ..base() }.fallback_seach_type(), 2);
    let c = Config { interval_sec: 90, last_interval_sec: 300, ..base() }.synced_for_save();
    assert_eq!(c.last_interval_sec, 90);
    let c = Config { interval_sec: 0, last_interval_sec: 300, ..base() }.synced_for_save();
    assert_eq!(c.last_interval_sec, 300);
}

#[test]
fn sorted_unique_of_empty_and_extremes() {
    assert_eq!(sorted_unique(&vec![]), Vec::<i64>::new());
    assert_eq!(sorted_unique(&vec![i64::MAX, i64::MIN, 0, i64::MAX]), vec![i64::MIN, 0, i64::MAX]);
}
