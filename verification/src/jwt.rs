//! Whether a JSON web token has expired, judged from its claims alone.

use crate::clock::{chrono_last_second, is_before, is_clock_reading, utc_now, Timestamp};
use vstd::prelude::*;

verus! {

/// The `exp` claim of a token as `jwt_compact` reads it without checking the
/// signature: `None` when the token cannot be parsed or its claims cannot be
/// deserialised, `Some(None)` when there is no `exp` claim, and
/// `Some(Some(t))` for an expiry at `t` seconds after the Unix epoch.
pub uninterp spec fn jwt_expiration_claim(token: Seq<char>) -> Option<Option<i64>>;

/// `jwt_compact::UntrustedToken::new(token)` followed by
/// `deserialize_claims_unchecked::<()>()`, keeping the `expiration` claim as
/// a Unix timestamp in seconds (`DateTime::timestamp`). Which tokens parse
/// and what their claims hold is left to the crate and given the name
/// [`jwt_expiration_claim`]; a parse or deserialisation error gives `None`.
#[verifier::external_body]
fn read_expiration_claim(token: &str) -> (r: Option<Option<i64>>)
    ensures
        r == jwt_expiration_claim(token@),
{
    match jwt_compact::UntrustedToken::new(token) {
        Ok(t) => match t.deserialize_claims_unchecked::<()>() {
            Ok(claims) => match claims.expiration {
                Some(e) => Some(Some(e.timestamp())),
                None => Some(None),
            },
            Err(_) => None,
        },
        Err(_) => None,
    }
}

/// A token with expiry claim `claim` counts as expired at the instant
/// `now`: an unreadable token always does, a token without `exp` never
/// does, and otherwise it does once `now` has reached the `exp` date (a whole
/// second).
pub open spec fn expired_at(claim: Option<Option<i64>>, now: Timestamp) -> bool {
    match claim {
        None => true,
        Some(None) => false,
        Some(Some(exp)) => !is_before(now, Timestamp { secs: exp, nanos: 0 }),
    }
}

/// Decides expiry from the claim read from a token and the instant `now`
/// (see [`expired_at`]).
pub fn is_jwt_expired_at(claim: Option<Option<i64>>, now: Timestamp) -> (r: bool)
    ensures
        r == expired_at(claim, now),
{
    match claim {
        None => true,
        Some(None) => false,
        Some(Some(exp)) => exp <= now.secs,
    }
}

/// Whether `any_jwt` has expired by the UTC clock. Validity cannot be told
/// without the key, but expiry can: an unreadable token counts as expired, a
/// token without `exp` as not expired, and otherwise the answer is the expiry
/// test at the clock's reading, which is some instant the clock can give. So
/// a token whose `exp` is not after the Unix epoch has expired, and one whose
/// `exp` lies beyond every date the clock can read has not.
pub fn is_jwt_expired(any_jwt: &str) -> (r: bool)
    ensures
        exists|now: Timestamp|
            #![trigger expired_at(jwt_expiration_claim(any_jwt@), now)]
            is_clock_reading(now) && r == expired_at(jwt_expiration_claim(any_jwt@), now),
        jwt_expiration_claim(any_jwt@) is None ==> r,
        jwt_expiration_claim(any_jwt@) == Some(None::<i64>) ==> !r,
        jwt_expiration_claim(any_jwt@) matches Some(Some(exp)) && exp <= 0 ==> r,
        jwt_expiration_claim(any_jwt@) matches Some(Some(exp)) && exp > chrono_last_second() ==> !r,
{
    let claim = read_expiration_claim(any_jwt);
    let now = utc_now();
    is_jwt_expired_at(claim, now)
}

/// A token that has expired stays expired: whatever its claims, expiry at an
/// instant implies expiry at every later instant.
pub proof fn lemma_expiry_is_permanent(claim: Option<Option<i64>>, t: Timestamp, later: Timestamp)
    requires
        expired_at(claim, t),
        !is_before(later, t),
    ensures
        expired_at(claim, later),
{
}

} // verus!
