//! Decisions of the background refresh: after each view's refresh, whether
//! to go on, stop, or alert; between rounds, whether and how long to wait.
use vstd::prelude::*;

use crate::api::{map_fetch_error, spec_map_fetch_error, FetchError, RefreshError};
use crate::json::{Json, JsonV};
use crate::api::{fld, obj};
use crate::json::fields_view;

verus! {

/// Consecutive server failures after which the user is alerted.
pub const ALERT_THRESHOLD: u32 = 3;

/// Whether this many consecutive server failures call for an alert.
pub fn should_alert(consec_fail: u32) -> (r: bool)
    ensures
        r == (consec_fail >= ALERT_THRESHOLD),
{
    consec_fail >= ALERT_THRESHOLD
}

/// What the refresh loop does after refreshing one view.
#[derive(Debug, Clone, Copy, PartialEq, Eq, Structural)]
pub enum LoopAction {
    /// Go on with the next view.
    Continue,
    /// The login expired: stop the loop until it is restarted.
    Stop,
    /// Report that the view keeps failing, then go on.
    Alert,
}

/// The failure counter and the action after one refresh.
pub open spec fn spec_after_refresh(consec_fail: u32, result: Option<RefreshError>) -> (int, LoopAction) {
    match result {
        None => (0, LoopAction::Continue),
        Some(RefreshError::Auth) => (consec_fail as int, LoopAction::Stop),
        Some(RefreshError::Network) => (0, LoopAction::Continue),
        Some(RefreshError::Server) => if consec_fail + 1 >= ALERT_THRESHOLD {
            (0, LoopAction::Alert)
        } else {
            (consec_fail + 1, LoopAction::Continue)
        },
    }
}

/// The loop's step after one refresh: success and network trouble reset the
/// counter, an expired login stops, a server failure counts and alerts (and
/// resets) on the third in a row.
pub fn after_refresh(consec_fail: u32, result: Option<RefreshError>) -> (r: (u32, LoopAction))
    requires
        consec_fail < u32::MAX,
    ensures
        (r.0 as int, r.1) == spec_after_refresh(consec_fail, result),
{
    match result {
        None => (0, LoopAction::Continue),
        Some(RefreshError::Auth) => (consec_fail, LoopAction::Stop),
        Some(RefreshError::Network) => (0, LoopAction::Continue),
        Some(RefreshError::Server) => {
            let c = consec_fail + 1;
            if should_alert(c) {
                (0, LoopAction::Alert)
            } else {
                (c, LoopAction::Continue)
            }
        },
    }
}

/// The counter of the loop stays below the alert threshold: it starts at 0
/// and no step leaves it at 3 or more.
pub proof fn lemma_counter_stays_below_threshold(consec_fail: u32, result: Option<RefreshError>)
    requires
        consec_fail < ALERT_THRESHOLD,
    ensures
        spec_after_refresh(consec_fail, result).0 < ALERT_THRESHOLD,
        spec_after_refresh(consec_fail, result).0 >= 0,
{
}

/// The failure counter after `n` server failures in a row from a fresh start.
pub open spec fn counter_after_server_failures(n: nat) -> u32
    decreases n,
{
    if n == 0 {
        0
    } else {
        spec_after_refresh(counter_after_server_failures((n - 1) as nat), Some(RefreshError::Server)).0 as u32
    }
}

/// Server failures in a row alert on every third one: after `n` of them the
/// counter is `n % 3`, and the `n`-th alerts exactly when `n` is a multiple
/// of 3.
pub proof fn lemma_alert_every_third_failure(n: nat)
    ensures
        counter_after_server_failures(n) == n % 3,
        n >= 1 ==> (spec_after_refresh(
            counter_after_server_failures((n - 1) as nat),
            Some(RefreshError::Server),
        ).1 == LoopAction::Alert <==> n % 3 == 0),
    decreases n,
{
    if n > 0 {
        lemma_alert_every_third_failure((n - 1) as nat);
    }
}

/// How long to wait before the next round: `None` ends the loop (the
/// interval 0 means paused), otherwise the interval in seconds.
pub fn next_round_delay(interval_sec: u64) -> (r: Option<u64>)
    ensures
        interval_sec == 0 ==> r is None,
        interval_sec > 0 ==> r == Some(interval_sec),
{
    if interval_sec == 0 {
        None
    } else {
        Some(interval_sec)
    }
}

/// The result of refreshing a view and whether the user must log in again.
pub open spec fn spec_refresh_outcome(fetched: &Result<(Json, i64), FetchError>) -> (Option<RefreshError>, bool) {
    match fetched {
        Ok(_) => (None, false),
        Err(e) => (Some(spec_map_fetch_error(e)), spec_map_fetch_error(e) == RefreshError::Auth),
    }
}

/// The result of refreshing a view and whether the user must log in again.
pub fn refresh_outcome(fetched: &Result<(Json, i64), FetchError>) -> (r: (Option<RefreshError>, bool))
    ensures
        r == spec_refresh_outcome(fetched),
{
    match fetched {
        Ok(_) => (None, false),
        Err(e) => {
            let c = map_fetch_error(e);
            (Some(c), c == RefreshError::Auth)
        },
    }
}

/// Refreshing without a token: an expired login, and the user must log in.
pub fn refresh_without_login() -> (r: (Option<RefreshError>, bool))
    ensures
        r == (Some(RefreshError::Auth), true),
{
    (Some(RefreshError::Auth), true)
}

/// The event sent when a view keeps failing: `{seachType}`.
pub fn refresh_failed_payload(seach_type: i64) -> (r: Json)
    ensures
        r@ == JsonV::Object(seq![("seachType"@, JsonV::Int(seach_type as int))]),
{
    let mut b: Vec<(String, Json)> = Vec::new();
    b.push(fld("seachType", Json::Int(seach_type)));
    assert(fields_view(b@) =~= seq![("seachType"@, JsonV::Int(seach_type as int))]);
    obj(b)
}

/// The event sent after a view was refreshed.
pub fn tickets_updated_payload(
    seach_type: i64,
    data: Json,
    count: i64,
    fetched_at: i64,
    page_index: i64,
    page_size: i64,
) -> (r: Json)
    ensures
        r@ == JsonV::Object(
            seq![
                ("seachType"@, JsonV::Int(seach_type as int)),
                ("data"@, data@),
                ("count"@, JsonV::Int(count as int)),
                ("fetched_at"@, JsonV::Int(fetched_at as int)),
                ("page_index"@, JsonV::Int(page_index as int)),
                ("page_size"@, JsonV::Int(page_size as int)),
            ],
        ),
{
    let ghost dv = data@;
    let mut b: Vec<(String, Json)> = Vec::new();
    b.push(fld("seachType", Json::Int(seach_type)));
    b.push(fld("data", data));
    b.push(fld("count", Json::Int(count)));
    b.push(fld("fetched_at", Json::Int(fetched_at)));
    b.push(fld("page_index", Json::Int(page_index)));
    b.push(fld("page_size", Json::Int(page_size)));
    assert(fields_view(b@) =~= seq![
        ("seachType"@, JsonV::Int(seach_type as int)),
        ("data"@, dv),
        ("count"@, JsonV::Int(count as int)),
        ("fetched_at"@, JsonV::Int(fetched_at as int)),
        ("page_index"@, JsonV::Int(page_index as int)),
        ("page_size"@, JsonV::Int(page_size as int)),
    ]);
    obj(b)
}

} // verus!
