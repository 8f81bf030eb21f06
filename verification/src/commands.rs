//! The decisions behind the desktop commands: credential migration, the
//! cached listing, ticket actions, external links, token checks, updates
//! and attachment decoding.
use base64::Engine;
use vstd::prelude::*;

use crate::api::{
    change_status_update, fld, is_post, is_suspend_or_unhang, obj, spec_status_update, suspend_or_unhang, ApiRequest,
    RefreshError, SearchParams,
};
use crate::cache::CachedTickets;
use crate::json::{fields_view, lemma_field_get_at, Json, JsonV};
use crate::state::StoredCred;
use crate::text::{cat, owned, spec_starts_with, starts_with};

verus! {

/// What to do with the remembered password when it is read.
#[derive(Debug, Clone, Copy, PartialEq, Eq, Structural)]
pub enum MigrationAction {
    /// No plain-text file: use the key chain as it is.
    NoAction,
    /// Only the plain-text file: move it into the key chain.
    Migrate,
    /// Both: the plain-text file is a left-over; delete it.
    DeletePlaintext,
}

/// What to do with the remembered password, given whether the old
/// plain-text file and the key-chain entry exist.
pub fn decide_migration(plaintext_exists: bool, keychain_exists: bool) -> (r: MigrationAction)
    ensures
        !plaintext_exists ==> r == MigrationAction::NoAction,
        plaintext_exists && keychain_exists ==> r == MigrationAction::DeletePlaintext,
        plaintext_exists && !keychain_exists ==> r == MigrationAction::Migrate,
{
    match (plaintext_exists, keychain_exists) {
        (false, _) => MigrationAction::NoAction,
        (true, true) => MigrationAction::DeletePlaintext,
        (true, false) => MigrationAction::Migrate,
    }
}

/// The remembered password that reading it gives, by the migration
/// action: the key chain's, or after a migration the plain-text file's.
pub fn loaded_cred(
    action: MigrationAction,
    keychain: Option<StoredCred>,
    plaintext: Option<StoredCred>,
) -> (r: Option<StoredCred>)
    ensures
        action == MigrationAction::Migrate ==> r == plaintext,
        action != MigrationAction::Migrate ==> r == keychain,
{
    match action {
        MigrationAction::Migrate => plaintext,
        _ => keychain,
    }
}

/// Whether the plain-text password file is deleted: always when the key
/// chain already held the password, after a migration only when writing it
/// into the key chain succeeded, never when there is nothing to migrate.
pub fn removes_plaintext(action: MigrationAction, keychain_written: bool) -> (r: bool)
    ensures
        action == MigrationAction::NoAction ==> !r,
        action == MigrationAction::DeletePlaintext ==> r,
        action == MigrationAction::Migrate ==> r == keychain_written,
{
    match action {
        MigrationAction::NoAction => false,
        MigrationAction::DeletePlaintext => true,
        MigrationAction::Migrate => keychain_written,
    }
}

/// Whether a listing request carries a search (a search with every filter
/// empty is none).
pub fn has_search(search: Option<&SearchParams>) -> (r: bool)
    ensures
        r == (search matches Some(s) && !s.spec_is_empty()),
{
    match search {
        Some(s) => !s.is_empty(),
        None => false,
    }
}

/// The listing answer of a page.
pub open spec fn listing_answer(
    from_cache: bool,
    fetched_at: i64,
    count: i64,
    page_index: i64,
    page_size: i64,
    data: JsonV,
    search: bool,
) -> JsonV {
    JsonV::Object(
        seq![
            ("from_cache"@, JsonV::Bool(from_cache)),
            ("fetched_at"@, JsonV::Int(fetched_at as int)),
            ("count"@, JsonV::Int(count as int)),
            ("page_index"@, JsonV::Int(page_index as int)),
            ("page_size"@, JsonV::Int(page_size as int)),
            ("data"@, data),
            ("search"@, JsonV::Bool(search)),
        ],
    )
}

/// A listing answer reports the page it serves: whether it came from the
/// cache, when it was fetched, the view's ticket count, the page index and
/// the page size, the tickets, and whether a search was applied, each under
/// its own name.
pub proof fn lemma_listing_answer_fields(
    from_cache: bool,
    fetched_at: i64,
    count: i64,
    page_index: i64,
    page_size: i64,
    data: JsonV,
    search: bool,
)
    ensures
        ({
            let a = listing_answer(from_cache, fetched_at, count, page_index, page_size, data, search);
            &&& a.get("from_cache"@) == Some(JsonV::Bool(from_cache))
            &&& a.get("fetched_at"@) == Some(JsonV::Int(fetched_at as int))
            &&& a.get("count"@) == Some(JsonV::Int(count as int))
            &&& a.get("page_index"@) == Some(JsonV::Int(page_index as int))
            &&& a.get("page_size"@) == Some(JsonV::Int(page_size as int))
            &&& a.get("data"@) == Some(data)
            &&& a.get("search"@) == Some(JsonV::Bool(search))
        }),
{
    reveal_strlit("from_cache");
    reveal_strlit("fetched_at");
    reveal_strlit("count");
    reveal_strlit("page_index");
    reveal_strlit("page_size");
    reveal_strlit("data");
    reveal_strlit("search");
    if let JsonV::Object(f) = listing_answer(from_cache, fetched_at, count, page_index, page_size, data, search) {
        lemma_field_get_at(f, 0, "from_cache"@);
        assert("from_cache"@[1] != "fetched_at"@[1]);
        lemma_field_get_at(f, 1, "fetched_at"@);
        assert("from_cache"@.len() != "count"@.len());
        assert("fetched_at"@.len() != "count"@.len());
        lemma_field_get_at(f, 2, "count"@);
        assert("from_cache"@[0] != "page_index"@[0]);
        assert("fetched_at"@[0] != "page_index"@[0]);
        assert("count"@.len() != "page_index"@.len());
        lemma_field_get_at(f, 3, "page_index"@);
        assert("from_cache"@.len() != "page_size"@.len());
        assert("fetched_at"@.len() != "page_size"@.len());
        assert("count"@.len() != "page_size"@.len());
        assert("page_index"@.len() != "page_size"@.len());
        lemma_field_get_at(f, 4, "page_size"@);
        assert("from_cache"@.len() != "data"@.len());
        assert("fetched_at"@.len() != "data"@.len());
        assert("count"@.len() != "data"@.len());
        assert("page_index"@.len() != "data"@.len());
        assert("page_size"@.len() != "data"@.len());
        lemma_field_get_at(f, 5, "data"@);
        assert("from_cache"@.len() != "search"@.len());
        assert("fetched_at"@.len() != "search"@.len());
        assert("count"@.len() != "search"@.len());
        assert("page_index"@.len() != "search"@.len());
        assert("page_size"@.len() != "search"@.len());
        assert("data"@.len() != "search"@.len());
        lemma_field_get_at(f, 6, "search"@);
    }
}

fn listing_json(
    from_cache: bool,
    fetched_at: i64,
    count: i64,
    page_index: i64,
    page_size: i64,
    data: Json,
    search: bool,
) -> (r: Json)
    ensures
        r@ == listing_answer(from_cache, fetched_at, count, page_index, page_size, data@, search),
{
    let ghost dv = data@;
    let mut b: Vec<(String, Json)> = Vec::new();
    b.push(fld("from_cache", Json::Bool(from_cache)));
    b.push(fld("fetched_at", Json::Int(fetched_at)));
    b.push(fld("count", Json::Int(count)));
    b.push(fld("page_index", Json::Int(page_index)));
    b.push(fld("page_size", Json::Int(page_size)));
    b.push(fld("data", data));
    b.push(fld("search", Json::Bool(search)));
    assert(fields_view(b@) =~= seq![
        ("from_cache"@, JsonV::Bool(from_cache)),
        ("fetched_at"@, JsonV::Int(fetched_at as int)),
        ("count"@, JsonV::Int(count as int)),
        ("page_index"@, JsonV::Int(page_index as int)),
        ("page_size"@, JsonV::Int(page_size as int)),
        ("data"@, dv),
        ("search"@, JsonV::Bool(search)),
    ]);
    obj(b)
}

/// The answer served from a cached page (never a search).
pub fn cached_listing(c: CachedTickets) -> (r: Json)
    ensures
        r@ == listing_answer(true, c.fetched_at, c.count, c.page_index, c.page_size, c.data@, false),
{
    listing_json(true, c.fetched_at, c.count, c.page_index, c.page_size, c.data, false)
}

/// The answer of a page just fetched.
pub fn fresh_listing(
    fetched_at: i64,
    count: i64,
    page_index: i64,
    page_size: i64,
    data: Json,
    search: bool,
) -> (r: Json)
    ensures
        r@ == listing_answer(false, fetched_at, count, page_index, page_size, data@, search),
{
    listing_json(false, fetched_at, count, page_index, page_size, data, search)
}

/// How a page of a view's list is served.
pub enum ListingPlan {
    /// The cached page answers: this is the answer.
    Answer(Json),
    /// The page is fetched; `write_cache` when it is to be cached (only a
    /// list without a search is), and `search` when a search is applied.
    Fetch { write_cache: bool, search: bool },
}

/// How a page is served, given the search (if any) and the cached page of
/// the view (if any): without a search, a cached page of the same page and
/// size answers; otherwise the page is fetched, and cached when there is no
/// search.
pub fn plan_listing(
    search: Option<&SearchParams>,
    cached: Option<CachedTickets>,
    page_index: i64,
    page_size: i64,
) -> (r: ListingPlan)
    ensures
        ({
            let searching = search matches Some(s) && !s.spec_is_empty();
            match cached {
                Some(c) if !searching && c.page_index == page_index && c.page_size == page_size => r
                    matches ListingPlan::Answer(j) && j@ == listing_answer(
                    true,
                    c.fetched_at,
                    c.count,
                    c.page_index,
                    c.page_size,
                    c.data@,
                    false,
                ),
                _ => r == (ListingPlan::Fetch { write_cache: !searching, search: searching }),
            }
        }),
{
    let searching = has_search(search);
    if !searching {
        if let Some(c) = cached {
            if let Some(hit) = crate::cache::cache_hit(c, page_index, page_size) {
                return ListingPlan::Answer(cached_listing(hit));
            }
        }
    }
    ListingPlan::Fetch { write_cache: !searching, search: searching }
}

/// The update that resolves a ticket with `solution`, built from the
/// ticket as read.
pub fn resolve(detail: &Json, solution: &str) -> (r: Result<ApiRequest, String>)
    ensures
        match spec_status_update(detail@, "Resolved"@, solution@, true) {
            Ok(b) => r matches Ok(req) && is_post(req, "/api/itsm/incidentService/update"@, b),
            Err(e) => r matches Err(m) && m@ == e,
        },
{
    change_status_update(detail, "Resolved", solution, true)
}

/// The request that suspends a ticket for `reason`.
pub fn suspend(id: &str, reason: &str) -> (r: ApiRequest)
    ensures
        is_suspend_or_unhang(r, id@, "suspend"@, reason@),
{
    suspend_or_unhang(id, "suspend", reason)
}

/// The request that resumes a suspended ticket.
pub fn unhang(id: &str) -> (r: ApiRequest)
    ensures
        is_suspend_or_unhang(r, id@, "unhang"@, ""@),
{
    suspend_or_unhang(id, "unhang", "")
}

/// Whether a link may be opened: only `http://` and `https://` links.
pub open spec fn spec_link_allowed(url: Seq<char>) -> bool {
    spec_starts_with(url, "https://"@) || spec_starts_with(url, "http://"@)
}

/// The check made before opening a link outside the application.
pub fn check_external_url(url: &str) -> (r: Result<(), String>)
    ensures
        spec_link_allowed(url@) <==> r is Ok,
        r matches Err(e) ==> e@ == "仅支持 http/https 链接"@,
{
    if !starts_with(url, "https://") && !starts_with(url, "http://") {
        return Err(owned("仅支持 http/https 链接"));
    }
    Ok(())
}

/// The answer to a token check: the probe's verdict, an expired login as
/// `false`, and network or server trouble as an error.
pub fn verify_token_result(probe: Result<bool, RefreshError>) -> (r: Result<bool, String>)
    ensures
        probe matches Ok(v) ==> r == Ok::<bool, String>(v),
        probe == Err::<bool, RefreshError>(RefreshError::Auth) ==> r == Ok::<bool, String>(false),
        probe == Err::<bool, RefreshError>(RefreshError::Network) ==> (r matches Err(e) && e@ == "网络错误"@),
        probe == Err::<bool, RefreshError>(RefreshError::Server) ==> (r matches Err(e) && e@ == "服务器错误"@),
{
    match probe {
        Ok(valid) => Ok(valid),
        Err(RefreshError::Network) => Err(owned("网络错误")),
        Err(RefreshError::Server) => Err(owned("服务器错误")),
        Err(RefreshError::Auth) => Ok(false),
    }
}

/// What an update check found.
pub struct UpdateInfo {
    pub available: bool,
    pub current_version: String,
    pub version: Option<String>,
    pub notes: Option<String>,
    pub pub_date: Option<String>,
}

/// A release offered by the update server: its version, notes and date.
pub struct FoundUpdate {
    pub version: String,
    pub notes: Option<String>,
    pub pub_date: Option<String>,
}

/// The answer of an update check.
pub fn update_info(current_version: String, found: Option<FoundUpdate>) -> (r: UpdateInfo)
    ensures
        r.current_version == current_version,
        r.available == found is Some,
        found is None ==> r.version is None && r.notes is None && r.pub_date is None,
        found matches Some(u) ==> r.version == Some(u.version) && r.notes == u.notes && r.pub_date
            == u.pub_date,
{
    match found {
        Some(u) => UpdateInfo {
            available: true,
            current_version,
            version: Some(u.version),
            notes: u.notes,
            pub_date: u.pub_date,
        },
        None => UpdateInfo {
            available: false,
            current_version,
            version: None,
            notes: None,
            pub_date: None,
        },
    }
}

/// Download progress after a chunk: the bytes downloaded so far and the
/// expected total (kept from the last chunk that announced one).
pub fn progress_step(downloaded: u64, total: u64, chunk_len: usize, content_len: Option<u64>) -> (r: (u64, u64))
    requires
        downloaded + chunk_len <= u64::MAX,
    ensures
        r.0 == downloaded + chunk_len,
        content_len matches Some(t) ==> r.1 == t,
        content_len is None ==> r.1 == total,
{
    let t = match content_len {
        Some(cl) => cl,
        None => total,
    };
    (downloaded + chunk_len as u64, t)
}

// What the standard Base64 alphabet with padding decodes `text` to, or the
// decoder's error text.
pub uninterp spec fn base64_standard_decode(text: Seq<char>) -> Result<Seq<u8>, Seq<char>>;

/// Decodes standard Base64 (`base64::engine::general_purpose::STANDARD`,
/// `Engine::decode`). The contract names the result and states that it is
/// a function of the text alone; which texts decode, and to what, is not
/// written out here.
#[verifier::external_body]
fn base64_decode(text: &str) -> (r: Result<Vec<u8>, String>)
    ensures
        match (r, base64_standard_decode(text@)) {
            (Ok(b), Ok(x)) => b@ == x,
            (Err(e), Err(m)) => e@ == m,
            _ => false,
        },
{
    base64::engine::general_purpose::STANDARD.decode(text).map_err(|e| e.to_string())
}

/// The bytes of an attachment sent as Base64, or the decoding error.
pub open spec fn spec_decode_attachment(text: Seq<char>) -> Result<Seq<u8>, Seq<char>> {
    match base64_standard_decode(text) {
        Ok(b) => Ok(b),
        Err(m) => Err("base64 解码失败: "@ + m),
    }
}

/// The bytes of an attachment sent as Base64.
pub fn decode_attachment(file_base64: &str) -> (r: Result<Vec<u8>, String>)
    ensures
        match (r, spec_decode_attachment(file_base64@)) {
            (Ok(b), Ok(x)) => b@ == x,
            (Err(e), Err(m)) => e@ == m,
            _ => false,
        },
{
    attachment_from_decoded(base64_decode(file_base64))
}

/// The decoding error of an attachment, given what the decoder answered:
/// the bytes, or the error text behind the fixed prefix.
pub fn attachment_from_decoded(decoded: Result<Vec<u8>, String>) -> (r: Result<Vec<u8>, String>)
    ensures
        decoded matches Ok(b) ==> r matches Ok(x) && x@ == b@,
        decoded matches Err(m) ==> r matches Err(e) && e@ == "base64 解码失败: "@ + m@,
{
    match decoded {
        Ok(b) => Ok(b),
        Err(e) => Err(cat("base64 解码失败: ", e.as_str())),
    }
}

} // verus!
