use toaster::clock::Timestamp;
use toaster::jwt::{is_jwt_expired, is_jwt_expired_at};

fn at(secs: i64, nanos: u32) -> Timestamp {
    Timestamp { secs, nanos }
}

const NO_EXP: &str = "eyJhbGciOiJIUzI1NiIsInR5cCI6IkpXVCJ9.e30.c2ln";
const EXP_1970: &str = "eyJhbGciOiJIUzI1NiIsInR5cCI6IkpXVCJ9.eyJleHAiOjF9.c2ln";
const EXP_2100: &str = "eyJhbGciOiJIUzI1NiIsInR5cCI6IkpXVCJ9.eyJleHAiOjQxMDI0NDQ4MDB9.c2ln";
const BAD_EXP: &str = "eyJhbGciOiJIUzI1NiIsInR5cCI6IkpXVCJ9.eyJleHAiOiJzb29uIn0.c2ln";

#[test]
fn unreadable_tokens_count_as_expired() {
    assert!(is_jwt_expired("not a token"));
    assert!(is_jwt_expired(""));
    assert!(is_jwt_expired(BAD_EXP));
}

#[test]
fn tokens_without_expiry_never_expire() {
    assert!(!is_jwt_expired(NO_EXP));
}

#[test]
fn expiry_against_the_clock() {
    assert!(is_jwt_expired(EXP_1970));
    assert!(!is_jwt_expired(EXP_2100));
}

#[test]
fn expiry_decision_at_a_given_time() {
    assert!(is_jwt_expired_at(None, at(0, 0)));
    assert!(!is_jwt_expired_at(Some(None), at(i64::MAX, 0)));
    assert!(is_jwt_expired_at(Some(Some(10)), at(10, 0)));
    assert!(is_jwt_expired_at(Some(Some(10)), at(10, 1)));
    assert!(!is_jwt_expired_at(Some(Some(10)), at(9, 999_999_999)));
    assert!(is_jwt_expired_at(Some(Some(i64::MIN)), at(i64::MIN, 0)));
}
