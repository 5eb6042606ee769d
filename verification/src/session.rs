use vstd::prelude::*;

verus! {

/// The bearer token's payload: account name, bound session id, and
/// expiry as a unix timestamp in seconds.
#[derive(Debug)]
pub struct Claims {
    pub sub: String,
    pub sid: String,
    pub exp: i64,
}

impl Claims {
    pub fn new(sub: String, sid: String, exp: i64) -> (c: Claims)
        ensures
            c.sub == sub,
            c.sid == sid,
            c.exp == exp,
    {
        Claims { sub, sid, exp }
    }
}

/// One credential-store record.
#[derive(Debug)]
pub struct Account {
    pub id: i64,
    pub username: String,
    pub password_hash: String,
    pub session_id: Option<String>,
    pub session_expires_at: Option<i64>,
}

/// A registration or login request body.
#[derive(Debug)]
pub struct NewAccount {
    pub username: String,
    pub password: String,
}

/// Whether a presented token still owns the account's live session:
/// the token's session id must be the bound one and the binding must
/// not have expired.
pub open spec fn session_valid(claims: Claims, account: Account, now: i64) -> bool {
    let sid_ok = match account.session_id {
        Some(sid) => sid@ == claims.sid@,
        None => false,
    };
    let exp_ok = match account.session_expires_at {
        Some(e) => now <= e,
        None => false,
    };
    sid_ok && exp_ok
}

/// The authentication decision for an upgrade request, given the
/// decoded token, the account record, and the current time.
pub fn validate_session(claims: &Claims, account: &Account, now: i64) -> (ok: bool)
    ensures
        ok == session_valid(*claims, *account, now),
{
    let sid_ok = match &account.session_id {
        Some(sid) => *sid == claims.sid,
        None => false,
    };
    let exp_ok = match account.session_expires_at {
        Some(e) => now <= e,
        None => false,
    };
    sid_ok && exp_ok
}

} // verus!
