//! The local cache of ticket lists: one file per view, kept whole.
use vstd::prelude::*;

use crate::json::Json;
use crate::text::{cat3, i64_decimal, int_decimal};

verus! {

/// A cached page of a view's ticket list.
#[derive(Debug)]
pub struct CachedTickets {
    pub fetched_at: i64,
    pub count: i64,
    pub page_index: i64,
    pub page_size: i64,
    pub data: Json,
}

/// Name of the cache file of a view.
pub open spec fn spec_tickets_filename(seach_type: i64) -> Seq<char> {
    "tickets_"@ + int_decimal(seach_type as int) + ".json"@
}

/// Name of the cache file of a view: `tickets_<seachType>.json`.
pub fn tickets_filename(seach_type: i64) -> (r: String)
    ensures
        r@ == spec_tickets_filename(seach_type),
{
    cat3("tickets_", i64_decimal(seach_type).as_str(), ".json")
}

/// A cached page answers a request only for the same page and page size
/// (changing the page size makes every cached page stale).
pub fn cache_hit(c: CachedTickets, page_index: i64, page_size: i64) -> (r: Option<CachedTickets>)
    ensures
        c.page_index == page_index && c.page_size == page_size ==> r == Some(c),
        !(c.page_index == page_index && c.page_size == page_size) ==> r is None,
{
    if c.page_index == page_index && c.page_size == page_size {
        Some(c)
    } else {
        None
    }
}

/// The cache files dropped when the white list is invalidated, one per view
/// of the list, in order.
pub fn whitelist_files(whitelist: &[i64]) -> (r: Vec<String>)
    ensures
        r@.len() == whitelist@.len(),
        forall|i: int| 0 <= i < r@.len() ==> r@[i]@ == spec_tickets_filename(#[trigger] whitelist@[i]),
{
    let mut r: Vec<String> = Vec::new();
    let mut i: usize = 0;
    while i < whitelist.len()
        invariant
            i <= whitelist@.len(),
            r@.len() == i,
            forall|j: int| 0 <= j < i ==> r@[j]@ == spec_tickets_filename(#[trigger] whitelist@[j]),
        decreases whitelist@.len() - i,
    {
        r.push(tickets_filename(whitelist[i]));
        i = i + 1;
    }
    r
}

/// Distinct views have distinct cache files, so invalidating some views
/// never drops another view's cache.
pub proof fn lemma_filenames_distinct(a: i64, b: i64)
    requires
        a != b,
    ensures
        spec_tickets_filename(a) != spec_tickets_filename(b),
{
    crate::text::lemma_int_decimal_injective(a as int, b as int);
    let da = int_decimal(a as int);
    let db = int_decimal(b as int);
    let fa = spec_tickets_filename(a);
    let fb = spec_tickets_filename(b);
    if fa == fb {
        assert(fa.len() == 8 + da.len() + 5) by {
            reveal_strlit("tickets_");
            reveal_strlit(".json");
        }
        assert(fb.len() == 8 + db.len() + 5) by {
            reveal_strlit("tickets_");
            reveal_strlit(".json");
        }
        assert(da =~= fa.subrange(8, 8 + da.len() as int)) by {
            reveal_strlit("tickets_");
        }
        assert(db =~= fb.subrange(8, 8 + db.len() as int)) by {
            reveal_strlit("tickets_");
        }
    }
}

} // verus!
