//! Shared login state, credentials and the clock.
use std::sync::Arc;
use std::sync::Mutex;
use vstd::prelude::*;

use crate::text::owned;

verus! {

#[verifier::external_type_specification]
#[verifier::external_body]
#[verifier::reject_recursive_types(T)]
pub struct ExMutex<T: ?Sized>(Mutex<T>);

/// The tenant assumed when the login page reports none.
pub open spec fn default_tenant() -> Seq<char> {
    "466553071648915456"@
}

/// The tenant assumed when the login page reports none.
pub fn default_tenant_id() -> (r: String)
    ensures
        r@ == default_tenant(),
{
    owned("466553071648915456")
}

/// The message of every request made without a login.
pub open spec fn not_logged_in() -> Seq<char> {
    "未登录"@
}

/// A new, empty token cell (`Mutex::new(None)`).
#[verifier::external_body]
fn new_token_cell() -> (r: Arc<Mutex<Option<String>>>) {
    Arc::new(Mutex::new(None))
}

/// A copy of the token held in the cell at the moment of the call
/// (`Mutex::lock`, then `clone`). What it returns depends on the writes made
/// through every clone of the store, which nothing here tracks; a lock that
/// another thread poisoned is read all the same.
#[verifier::external_body]
fn read_token(cell: &Mutex<Option<String>>) -> (r: Option<String>) {
    match cell.lock() {
        Ok(g) => g.clone(),
        Err(p) => p.into_inner().clone(),
    }
}

/// Replaces the token held in the cell (`Mutex::lock`, then assignment).
/// Nothing is stated: the cell is shared with every clone of the store.
#[verifier::external_body]
fn write_token(cell: &Mutex<Option<String>>, token: Option<String>) {
    match cell.lock() {
        Ok(mut g) => *g = token,
        Err(p) => *p.into_inner() = token,
    }
}

/// The login token, shared: clones of a store see each other's updates, so
/// the MCP server reads what the desktop side wrote.
#[derive(Clone)]
pub struct TokenStore(Arc<Mutex<Option<String>>>);

impl Default for TokenStore {
    fn default() -> (r: Self)
        ensures
            true,
    {
        TokenStore(new_token_cell())
    }
}

/// What reading a token gives: the token, or the not-logged-in error.
pub open spec fn spec_token_result(stored: Option<String>) -> Result<Seq<char>, Seq<char>> {
    match stored {
        Some(t) => Ok(t@),
        None => Err(not_logged_in()),
    }
}

/// The token as reading it gives it: the token, or `未登录` when there is none.
pub fn token_result(stored: Option<String>) -> (r: Result<String, String>)
    ensures
        match r {
            Ok(t) => spec_token_result(stored) == Ok::<Seq<char>, Seq<char>>(t@),
            Err(e) => spec_token_result(stored) == Err::<Seq<char>, Seq<char>>(e@),
        },
{
    match stored {
        Some(t) => Ok(t),
        None => Err(owned("未登录")),
    }
}

impl TokenStore {
    /// The current token, or `未登录` when nobody is logged in.
    pub fn get(&self) -> (r: Result<String, String>)
        ensures
            r matches Err(e) ==> e@ == not_logged_in(),
    {
        token_result(read_token(&self.0))
    }

    /// Replaces the current token (`None` logs out), for every clone.
    pub fn set(&self, token: Option<String>) {
        write_token(&self.0, token)
    }
}

/// The login of the desktop session.
#[derive(Debug)]
pub struct Creds {
    pub token: String,
    pub tenant_id: String,
    pub user_name: String,
}

/// An account and password remembered for automatic login.
pub struct StoredCred {
    pub account: String,
    pub password: String,
}

/// Whole seconds since the Unix epoch by the system clock, or `None` when
/// the clock is before the epoch (`SystemTime::duration_since`). It depends
/// on the clock, so nothing is stated of it.
#[verifier::external_body]
fn clock_secs() -> (r: Option<u64>) {
    std::time::SystemTime::now().duration_since(std::time::UNIX_EPOCH).ok().map(|d| d.as_secs())
}

/// Seconds as a Unix time stamp: 0 for a clock before the epoch, the
/// seconds (wrapped into `i64` as `as` does) otherwise.
pub fn unix_time(secs: Option<u64>) -> (r: i64)
    ensures
        match secs {
            None => r == 0,
            Some(s) => if s <= i64::MAX {
                r == s
            } else {
                r == s - 0x1_0000_0000_0000_0000int
            },
        },
{
    match secs {
        Some(s) => {
            if s <= i64::MAX as u64 {
                s as i64
            } else {
                let t: i128 = s as i128 - 0x1_0000_0000_0000_0000i128;
                t as i64
            }
        },
        None => 0,
    }
}

/// The current Unix time in seconds.
pub fn now_unix() -> (r: i64) {
    unix_time(clock_secs())
}

} // verus!
