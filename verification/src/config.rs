//! The user's refresh configuration: which views are refreshed in the
//! background and how often, the back-fill defaults, the paging, the tray
//! settings and the local MCP server.
use vstd::prelude::*;

use std::collections::HashMap;

use crate::text::owned;

verus! {

/// Shortest automatic refresh interval, in seconds.
pub const MIN_INTERVAL: u64 = 30;

/// Longest automatic refresh interval, in seconds.
pub const MAX_INTERVAL: u64 = 1800;

/// Refresh interval of a new configuration, in seconds.
pub const DEFAULT_INTERVAL: u64 = 300;

/// Port of the local MCP server unless the user chose another.
pub const DEFAULT_MCP_PORT: u16 = 17540;

/// Page size of a view that has none of its own.
pub const DEFAULT_PAGE_SIZE: i64 = 50;

/// The view that refreshes and defaults fall back to when nothing else names one.
pub const DEFAULT_SEACH_TYPE: i64 = 2;

/// The view the local MCP tools search when they name none (7, all tickets).
pub const DEFAULT_MCP_SEACH_TYPE: i64 = 7;

/// The configuration. The per-view page sizes are keyed by the view's
/// `seachType`.
#[derive(Debug)]
pub struct Config {
    pub whitelist: Vec<i64>,
    pub interval_sec: u64,
    pub default_customer_group_id: Option<String>,
    pub default_customer_group_name: Option<String>,
    pub default_requestor_id: Option<String>,
    pub default_requestor_name: Option<String>,
    pub default_support_group_id: Option<String>,
    pub default_support_group_name: Option<String>,
    pub view_page_sizes: HashMap<i64, i64>,
    pub autostart_enabled: bool,
    pub minimize_to_tray: bool,
    pub tray_hint_shown: bool,
    pub last_interval_sec: u64,
    pub auto_claim_enabled: bool,
    pub auto_claim_seach_type: Option<i64>,
    pub mcp_enabled: bool,
    pub mcp_port: u16,
    pub mcp_default_seach_type: i64,
}

/// The model of a configuration.
pub struct ConfigView {
    pub whitelist: Seq<i64>,
    pub interval_sec: u64,
    pub default_customer_group_id: Option<Seq<char>>,
    pub default_customer_group_name: Option<Seq<char>>,
    pub default_requestor_id: Option<Seq<char>>,
    pub default_requestor_name: Option<Seq<char>>,
    pub default_support_group_id: Option<Seq<char>>,
    pub default_support_group_name: Option<Seq<char>>,
    pub view_page_sizes: Map<i64, i64>,
    pub autostart_enabled: bool,
    pub minimize_to_tray: bool,
    pub tray_hint_shown: bool,
    pub last_interval_sec: u64,
    pub auto_claim_enabled: bool,
    pub auto_claim_seach_type: Option<i64>,
    pub mcp_enabled: bool,
    pub mcp_port: u16,
    pub mcp_default_seach_type: i64,
}

/// The model of an optional text.
pub open spec fn opt_text(o: Option<String>) -> Option<Seq<char>> {
    match o {
        Some(s) => Some(s@),
        None => None,
    }
}

impl View for Config {
    type V = ConfigView;

    open spec fn view(&self) -> ConfigView {
        ConfigView {
            whitelist: self.whitelist@,
            interval_sec: self.interval_sec,
            default_customer_group_id: opt_text(self.default_customer_group_id),
            default_customer_group_name: opt_text(self.default_customer_group_name),
            default_requestor_id: opt_text(self.default_requestor_id),
            default_requestor_name: opt_text(self.default_requestor_name),
            default_support_group_id: opt_text(self.default_support_group_id),
            default_support_group_name: opt_text(self.default_support_group_name),
            view_page_sizes: self.view_page_sizes@,
            autostart_enabled: self.autostart_enabled,
            minimize_to_tray: self.minimize_to_tray,
            tray_hint_shown: self.tray_hint_shown,
            last_interval_sec: self.last_interval_sec,
            auto_claim_enabled: self.auto_claim_enabled,
            auto_claim_seach_type: self.auto_claim_seach_type,
            mcp_enabled: self.mcp_enabled,
            mcp_port: self.mcp_port,
            mcp_default_seach_type: self.mcp_default_seach_type,
        }
    }
}

/// Default of a flag that is on unless the stored configuration says otherwise.
pub fn default_true() -> (r: bool)
    ensures
        r,
{
    true
}

/// Default of the last effective interval.
pub fn default_last_interval() -> (r: u64)
    ensures
        r == DEFAULT_INTERVAL,
{
    DEFAULT_INTERVAL
}

/// Default port of the local MCP server.
pub fn default_mcp_port() -> (r: u16)
    ensures
        r == DEFAULT_MCP_PORT,
{
    DEFAULT_MCP_PORT
}

/// An interval as kept: 0 (paused) stays 0, anything else is held to
/// `MIN_INTERVAL..=MAX_INTERVAL`.
pub open spec fn spec_clamp_interval(sec: u64) -> u64 {
    if sec == 0 {
        0
    } else if sec < MIN_INTERVAL {
        MIN_INTERVAL
    } else if sec > MAX_INTERVAL {
        MAX_INTERVAL
    } else {
        sec
    }
}

/// A port as kept: from 1024 up it is the user's, below it is the default.
pub open spec fn spec_clamp_mcp_port(port: u16) -> u16 {
    if port >= 1024 {
        port
    } else {
        DEFAULT_MCP_PORT
    }
}

/// Whether `s` is strictly increasing (sorted, nothing twice).
pub open spec fn strictly_sorted(s: Seq<i64>) -> bool {
    forall|i: int, j: int| 0 <= i < j < s.len() ==> s[i] < s[j]
}

/// Whether `a` and `b` hold the same values.
pub open spec fn same_elements(a: Seq<i64>, b: Seq<i64>) -> bool {
    forall|x: i64| a.contains(x) <==> b.contains(x)
}

/// Whether `n` is `c` with its white list sorted and rid of repeats,
/// everything else unchanged.
pub open spec fn is_dedup_of(c: ConfigView, n: ConfigView) -> bool {
    &&& strictly_sorted(n.whitelist)
    &&& same_elements(n.whitelist, c.whitelist)
    &&& n == ConfigView { whitelist: n.whitelist, ..c }
}

/// Whether `n` is `c` normalized: intervals and port clamped, white list
/// sorted and rid of repeats, everything else unchanged. The last
/// effective interval is never 0.
pub open spec fn is_normalization_of(c: ConfigView, n: ConfigView) -> bool {
    &&& strictly_sorted(n.whitelist)
    &&& same_elements(n.whitelist, c.whitelist)
    &&& n == ConfigView {
        whitelist: n.whitelist,
        interval_sec: spec_clamp_interval(c.interval_sec),
        last_interval_sec: if spec_clamp_interval(c.last_interval_sec) < MIN_INTERVAL {
            MIN_INTERVAL
        } else {
            spec_clamp_interval(c.last_interval_sec)
        },
        mcp_port: spec_clamp_mcp_port(c.mcp_port),
        ..c
    }
}

/// Whether a configuration is in the form that normalization gives.
pub open spec fn is_normalized(c: ConfigView) -> bool {
    &&& strictly_sorted(c.whitelist)
    &&& (c.interval_sec == 0 || MIN_INTERVAL <= c.interval_sec <= MAX_INTERVAL)
    &&& MIN_INTERVAL <= c.last_interval_sec <= MAX_INTERVAL
    &&& c.mcp_port >= 1024
}

/// Pausing or resuming: a running configuration remembers its interval and
/// pauses; a paused one resumes with the remembered interval, at least 30 s.
pub open spec fn spec_toggled_pause(c: ConfigView) -> ConfigView {
    if c.interval_sec > 0 {
        ConfigView { last_interval_sec: c.interval_sec, interval_sec: 0, ..c }
    } else {
        ConfigView {
            interval_sec: if c.last_interval_sec < MIN_INTERVAL {
                MIN_INTERVAL
            } else {
                c.last_interval_sec
            },
            ..c
        }
    }
}

/// The page size of a view: the stored one when it is 50, 100 or 200, the
/// default otherwise.
pub open spec fn spec_page_size_for(c: ConfigView, seach_type: i64) -> i64 {
    if c.view_page_sizes.contains_key(seach_type) {
        let n = c.view_page_sizes[seach_type];
        if n == 50 || n == 100 || n == 200 {
            n
        } else {
            DEFAULT_PAGE_SIZE
        }
    } else {
        DEFAULT_PAGE_SIZE
    }
}

/// Where a value would go in a strictly sorted list: the first index whose
/// value is not below it.
fn lower_bound(v: &Vec<i64>, x: i64) -> (r: usize)
    requires
        strictly_sorted(v@),
    ensures
        r <= v@.len(),
        forall|j: int| 0 <= j < r ==> v@[j] < x,
        forall|j: int| r <= j < v@.len() ==> v@[j] >= x,
{
    let mut i: usize = 0;
    while i < v.len() && v[i] < x
        invariant
            i <= v@.len(),
            strictly_sorted(v@),
            forall|j: int| 0 <= j < i ==> v@[j] < x,
        decreases v@.len() - i,
    {
        i = i + 1;
    }
    proof {
        if i < v@.len() {
            assert forall|j: int| i <= j < v@.len() implies v@[j] >= x by {
                if j > i {
                    assert(v@[i as int] < v@[j]);
                }
            }
        }
    }
    i
}

/// The values of `v`, sorted and each once.
pub fn sorted_unique(v: &Vec<i64>) -> (r: Vec<i64>)
    ensures
        strictly_sorted(r@),
        same_elements(r@, v@),
{
    let mut r: Vec<i64> = Vec::new();
    let mut i: usize = 0;
    while i < v.len()
        invariant
            i <= v@.len(),
            strictly_sorted(r@),
            forall|x: i64| r@.contains(x) <==> v@.subrange(0, i as int).contains(x),
        decreases v@.len() - i,
    {
        let x = v[i];
        let p = lower_bound(&r, x);
        let ghost before = r@;
        if p < r.len() && r[p] == x {
        } else {
            r.insert(p, x);
            proof {
                assert forall|a: int, b: int| 0 <= a < b < r@.len() implies r@[a] < r@[b] by {
                    if b < p {
                        assert(r@[a] == before[a] && r@[b] == before[b]);
                    } else if b == p {
                        assert(r@[a] == before[a]);
                    } else if a < p {
                        assert(r@[a] == before[a] && r@[b] == before[b - 1]);
                    } else if a == p {
                        assert(r@[b] == before[b - 1]);
                    } else {
                        assert(r@[a] == before[a - 1] && r@[b] == before[b - 1]);
                    }
                }
                assert forall|y: i64| r@.contains(y) <==> (before.contains(y) || y == x) by {
                    if r@.contains(y) {
                        let k = choose|k: int| 0 <= k < r@.len() && r@[k] == y;
                        if k < p {
                            assert(before[k] == y);
                        } else if k > p {
                            assert(before[k - 1] == y);
                        }
                    }
                    if before.contains(y) {
                        let k = choose|k: int| 0 <= k < before.len() && before[k] == y;
                        if k < p {
                            assert(r@[k] == y);
                        } else {
                            assert(r@[k + 1] == y);
                        }
                    }
                    if y == x {
                        assert(r@[p as int] == x);
                    }
                }
            }
        }
        proof {
            let old_s = v@.subrange(0, i as int);
            let new_s = v@.subrange(0, i + 1);
            assert(new_s =~= old_s.push(x));
            assert forall|y: i64| new_s.contains(y) <==> (old_s.contains(y) || y == x) by {
                if new_s.contains(y) {
                    let k = choose|k: int| 0 <= k < new_s.len() && new_s[k] == y;
                    if k < old_s.len() {
                        assert(old_s[k] == y);
                    }
                }
                if old_s.contains(y) {
                    let k = choose|k: int| 0 <= k < old_s.len() && old_s[k] == y;
                    assert(new_s[k] == y);
                }
                if y == x {
                    assert(new_s[i as int] == x);
                }
            }
            if p < before.len() && before[p as int] == x {
                assert(before.contains(x));
                assert(r@ == before);
            }
            assert forall|y: i64| r@.contains(y) <==> new_s.contains(y) by {
                assert(r@.contains(y) <==> (before.contains(y) || y == x));
                assert(before.contains(y) <==> old_s.contains(y));
            }
        }
        i = i + 1;
    }
    proof {
        assert(v@.subrange(0, v@.len() as int) =~= v@);
    }
    r
}

/// Two strictly sorted lists of the same values are the same list.
pub proof fn lemma_sorted_unique(a: Seq<i64>, b: Seq<i64>)
    requires
        strictly_sorted(a),
        strictly_sorted(b),
        same_elements(a, b),
    ensures
        a == b,
    decreases a.len() + b.len(),
{
    if a.len() == 0 {
        if b.len() > 0 {
            assert(b.contains(b[0]));
        }
        assert(a =~= b);
    } else if b.len() == 0 {
        assert(a.contains(a[0]));
    } else {
        assert(a.contains(a[0]));
        assert(b.contains(b[0]));
        let ka = choose|k: int| 0 <= k < a.len() && a[k] == b[0];
        let kb = choose|k: int| 0 <= k < b.len() && b[k] == a[0];
        if ka > 0 {
            assert(a[0] < a[ka]);
        }
        if kb > 0 {
            assert(b[0] < b[kb]);
        }
        assert(a[0] == b[0]);
        let ta = a.drop_first();
        let tb = b.drop_first();
        assert forall|x: i64| ta.contains(x) <==> tb.contains(x) by {
            if ta.contains(x) {
                let k = choose|k: int| 0 <= k < ta.len() && ta[k] == x;
                assert(a[k + 1] == x);
                assert(a.contains(x));
                let m = choose|m: int| 0 <= m < b.len() && b[m] == x;
                assert(a[0] < a[k + 1]);
                if m == 0 {
                    assert(false);
                }
                assert(tb[m - 1] == x);
            }
            if tb.contains(x) {
                let k = choose|k: int| 0 <= k < tb.len() && tb[k] == x;
                assert(b[k + 1] == x);
                assert(b.contains(x));
                let m = choose|m: int| 0 <= m < a.len() && a[m] == x;
                assert(b[0] < b[k + 1]);
                if m == 0 {
                    assert(false);
                }
                assert(ta[m - 1] == x);
            }
        }
        lemma_sorted_unique(ta, tb);
        assert(a =~= seq![a[0]] + ta);
        assert(b =~= seq![b[0]] + tb);
    }
}

impl Config {
    /// A new configuration refreshing the one view `seach_type` every 300 s.
    pub fn default_with(seach_type: i64) -> (r: Self)
        ensures
            r@ == (ConfigView {
                whitelist: seq![seach_type],
                interval_sec: DEFAULT_INTERVAL,
                default_customer_group_id: None,
                default_customer_group_name: None,
                default_requestor_id: None,
                default_requestor_name: None,
                default_support_group_id: None,
                default_support_group_name: None,
                view_page_sizes: Map::empty(),
                autostart_enabled: false,
                minimize_to_tray: true,
                tray_hint_shown: false,
                last_interval_sec: DEFAULT_INTERVAL,
                auto_claim_enabled: false,
                auto_claim_seach_type: None,
                mcp_enabled: true,
                mcp_port: DEFAULT_MCP_PORT,
                mcp_default_seach_type: DEFAULT_MCP_SEACH_TYPE,
            }),
    {
        let mut w: Vec<i64> = Vec::new();
        w.push(seach_type);
        let r = Config {
            whitelist: w,
            interval_sec: DEFAULT_INTERVAL,
            default_customer_group_id: None,
            default_customer_group_name: None,
            default_requestor_id: None,
            default_requestor_name: None,
            default_support_group_id: None,
            default_support_group_name: None,
            view_page_sizes: HashMap::new(),
            autostart_enabled: false,
            minimize_to_tray: true,
            tray_hint_shown: false,
            last_interval_sec: DEFAULT_INTERVAL,
            auto_claim_enabled: false,
            auto_claim_seach_type: None,
            mcp_enabled: true,
            mcp_port: DEFAULT_MCP_PORT,
            mcp_default_seach_type: DEFAULT_MCP_SEACH_TYPE,
        };
        assert(r@.whitelist =~= seq![seach_type]);
        r
    }

    /// The page size of a view; a missing or unsupported size falls back to 50.
    pub fn page_size_for(&self, seach_type: i64) -> (r: i64)
        ensures
            r == spec_page_size_for(self@, seach_type),
    {
        match self.view_page_sizes.get(&seach_type) {
            Some(n) => {
                let n = *n;
                if n == 50 || n == 100 || n == 200 {
                    n
                } else {
                    DEFAULT_PAGE_SIZE
                }
            },
            None => DEFAULT_PAGE_SIZE,
        }
    }

    /// An interval as kept: 0 (paused) stays 0, anything else is held to
    /// 30..=1800 seconds.
    pub fn clamp_interval(sec: u64) -> (r: u64)
        ensures
            r == spec_clamp_interval(sec),
    {
        if sec == 0 {
            0
        } else if sec < MIN_INTERVAL {
            MIN_INTERVAL
        } else if sec > MAX_INTERVAL {
            MAX_INTERVAL
        } else {
            sec
        }
    }

    /// A port as kept: the user's from 1024 up, the default below.
    pub fn clamp_mcp_port(port: u16) -> (r: u16)
        ensures
            r == spec_clamp_mcp_port(port),
    {
        if port >= 1024 {
            port
        } else {
            DEFAULT_MCP_PORT
        }
    }

    /// The configuration with its white list sorted and rid of repeats.
    pub fn dedup(self) -> (r: Self)
        ensures
            is_dedup_of(self@, r@),
    {
        let w = sorted_unique(&self.whitelist);
        Config { whitelist: w, ..self }
    }

    /// The configuration as it is stored: intervals and port clamped, the
    /// last effective interval at least 30 s, the white list sorted and rid
    /// of repeats.
    pub fn normalize(self) -> (r: Self)
        ensures
            is_normalization_of(self@, r@),
            is_normalized(r@),
    {
        let interval_sec = Self::clamp_interval(self.interval_sec);
        let l = Self::clamp_interval(self.last_interval_sec);
        let last_interval_sec = if l < MIN_INTERVAL {
            MIN_INTERVAL
        } else {
            l
        };
        let mcp_port = Self::clamp_mcp_port(self.mcp_port);
        let c = Config { interval_sec, last_interval_sec, mcp_port, ..self };
        c.dedup()
    }

    /// Pausing or resuming the automatic refresh from the tray: a running
    /// configuration remembers its interval and pauses; a paused one resumes
    /// with the remembered interval, at least 30 s.
    pub fn toggled_pause(self) -> (r: Self)
        ensures
            r@ == spec_toggled_pause(self@),
    {
        let mut c = self;
        if c.interval_sec > 0 {
            c.last_interval_sec = c.interval_sec;
            c.interval_sec = 0;
        } else {
            c.interval_sec = if c.last_interval_sec < MIN_INTERVAL {
                MIN_INTERVAL
            } else {
                c.last_interval_sec
            };
        }
        c
    }

    /// The view the scheduler restarts with: the first of the white list,
    /// else the default view.
    pub fn fallback_seach_type(&self) -> (r: i64)
        ensures
            self.whitelist@.len() > 0 ==> r == self.whitelist@[0],
            self.whitelist@.len() == 0 ==> r == DEFAULT_SEACH_TYPE,
    {
        if self.whitelist.len() > 0 {
            self.whitelist[0]
        } else {
            DEFAULT_SEACH_TYPE
        }
    }

    /// The configuration as the settings dialog saves it: a running
    /// interval also becomes the last effective interval (what the tray
    /// resumes with).
    pub fn synced_for_save(self) -> (r: Self)
        ensures
            self.interval_sec > 0 ==> r@ == (ConfigView {
                last_interval_sec: self.interval_sec,
                ..self@
            }),
            self.interval_sec == 0 ==> r@ == self@,
    {
        let mut c = self;
        if c.interval_sec > 0 {
            c.last_interval_sec = c.interval_sec;
        }
        c
    }
}

/// Default of the view the local MCP tools search when they name none
/// (7, all tickets).
pub fn default_mcp_seach_type() -> (r: i64)
    ensures
        r == DEFAULT_MCP_SEACH_TYPE,
{
    DEFAULT_MCP_SEACH_TYPE
}

/// Normalizing twice gives what normalizing once gave.
pub proof fn lemma_normalize_idempotent(c: ConfigView, n: ConfigView, m: ConfigView)
    requires
        is_normalization_of(c, n),
        is_normalization_of(n, m),
    ensures
        m == n,
{
    lemma_sorted_unique(m.whitelist, n.whitelist);
}

/// A configuration already in normal form is left as it is.
pub proof fn lemma_normalized_is_fixed(c: ConfigView, n: ConfigView)
    requires
        is_normalized(c),
        is_normalization_of(c, n),
    ensures
        n == c,
{
    lemma_sorted_unique(n.whitelist, c.whitelist);
}

/// Clamping an interval twice gives what clamping once gave, and the
/// result is 0 or within 30..=1800.
pub proof fn lemma_clamp_interval(sec: u64)
    ensures
        spec_clamp_interval(spec_clamp_interval(sec)) == spec_clamp_interval(sec),
        spec_clamp_interval(sec) == 0 || MIN_INTERVAL <= spec_clamp_interval(sec) <= MAX_INTERVAL,
        spec_clamp_interval(sec) == 0 <==> sec == 0,
{
}

/// Pausing and then resuming gives back the running interval (which is then
/// also the remembered one); resuming and then pausing gives back a paused
/// configuration whose remembered interval is a valid one.
pub proof fn lemma_pause_resume(c: ConfigView)
    ensures
        c.interval_sec >= MIN_INTERVAL ==> spec_toggled_pause(spec_toggled_pause(c)) == (ConfigView {
            last_interval_sec: c.interval_sec,
            ..c
        }),
        c.interval_sec == 0 && c.last_interval_sec >= MIN_INTERVAL ==> spec_toggled_pause(
            spec_toggled_pause(c),
        ) == c,
{
}

/// The page size of any view is one the list offers: 50, 100 or 200.
pub proof fn lemma_page_size_supported(c: ConfigView, seach_type: i64)
    ensures
        spec_page_size_for(c, seach_type) == 50 || spec_page_size_for(c, seach_type) == 100
            || spec_page_size_for(c, seach_type) == 200,
{
}

} // verus!
