//! Data model and business decisions of the sign-up and login flows.
//!
//! Identifiers are carried as 128-bit values and instants as milliseconds
//! since the epoch; the process boundary converts them to and from its own
//! identifier and date-time representations.

use vstd::prelude::*;
use crate::bridge::CallOptions;
use crate::bridge::CallRequest;
use crate::bridge::activity_call_request;
use crate::codec::encode_login;
use crate::codec::encode_sign_up;
use crate::codec::login_enc;
use crate::codec::sign_up_enc;
use crate::hashing::hash_password;
use crate::hashing::password_matches;
use crate::hashing::verify_password;
use vstd::string::StringExecFns;

verus! {

/// Argument of the sign-up flow.
#[derive(Debug, Clone)]
pub struct SignUpInput {
    pub email: String,
    pub password: String,
    pub first_name: String,
    pub last_name: String,
}

/// Argument of the login flow.
#[derive(Debug, Clone)]
pub struct LoginWithEmailInput {
    pub email: String,
    pub password: String,
}

/// A stored user identity record.
#[derive(Debug, Clone)]
pub struct User {
    pub id: u128,
    pub first_name: String,
    pub last_name: String,
    pub created_at: u64,
    pub updated_at: u64,
}

/// A stored session record with an expiry.
#[derive(Debug, Clone)]
pub struct Session {
    pub id: u128,
    pub user_id: u128,
    pub expires_at: u64,
    pub created_at: u64,
    pub updated_at: u64,
}

/// A stored credential record, keyed by the lower-cased email.
#[derive(Debug, Clone)]
pub struct UserCredentials {
    pub user_id: u128,
    pub email: String,
    pub hashed_password: String,
    pub created_at: u64,
    pub updated_at: u64,
}

/// The lower-cased form of a string, as `str::to_lowercase` computes it:
/// a function of the characters alone.
pub uninterp spec fn lower_of(s: Seq<char>) -> Seq<char>;

/// Relies on `str::to_lowercase`: the result depends on the characters of
/// the input alone.
#[verifier::external_body]
fn to_lowercase(s: &String) -> (r: String)
    ensures
        r@ == lower_of(s@),
{
    s.as_str().to_lowercase()
}

/// Why an activity failed.
#[derive(Clone, Copy, PartialEq, Eq, Structural, Debug)]
pub enum FailureReason {
    /// no credential record for the email, or the password does not match
    InvalidCredentials,
    /// the password could not be hashed
    Hashing,
}

/// Failure of an activity, as reported to the engine: terminal failures
/// must not be retried, transient ones may be.
#[derive(Clone, Copy, PartialEq, Eq, Structural, Debug)]
pub enum ActivityFailure {
    NonRetryable(FailureReason),
    Retryable(FailureReason),
}

/// What the sign-up activity computes before anything is persisted: the
/// identity fields and the credential row keyed by the lower-cased email.
#[derive(Debug, Clone)]
pub struct SignUpRecords {
    pub first_name: String,
    pub last_name: String,
    pub email: String,
    pub hashed_password: String,
}

/// A request to create a session for a user, produced by a successful
/// login.
#[derive(Debug, Clone)]
pub struct SessionRequest {
    pub user_id: u128,
    pub ttl_ms: u64,
}

/// How long a session lives, in milliseconds: seven days from issuance.
pub const SESSION_TTL_MS: u64 = 7 * 24 * 60 * 60 * 1000;

/// The compute step of the sign-up activity: hashes the password and
/// lower-cases the email into the records the datastore will persist. The
/// stored credential verifies against the given password; only a hashing
/// fault fails, and as a transient failure.
pub fn sign_up_activity(input: &SignUpInput) -> (r: Result<SignUpRecords, ActivityFailure>)
    ensures
        r matches Ok(rec) ==> {
            &&& rec.first_name@ == input.first_name@
            &&& rec.last_name@ == input.last_name@
            &&& rec.email@ == lower_of(input.email@)
            &&& password_matches(input.password@, rec.hashed_password@)
        },
        r matches Err(e) ==> e == ActivityFailure::Retryable(FailureReason::Hashing),
{
    let hashed_password = match hash_password(&input.password) {
        Result::Ok(h) => h,
        Result::Err(_) => {
            return Result::Err(ActivityFailure::Retryable(FailureReason::Hashing));
        },
    };
    let email = to_lowercase(&input.email);
    Result::Ok(
        SignUpRecords {
            first_name: input.first_name.clone(),
            last_name: input.last_name.clone(),
            email,
            hashed_password,
        },
    )
}

/// The key under which a login looks its credential record up: the
/// lower-cased email, exactly as sign-up stored it.
pub fn login_lookup_key(input: &LoginWithEmailInput) -> (r: String)
    ensures
        r@ == lower_of(input.email@),
{
    to_lowercase(&input.email)
}

/// The decision step of the login activity, given the credential record the
/// datastore found (or did not find) under the lower-cased email: an absent
/// record or a mismatched password is a terminal invalid-credentials
/// failure — never a transient one — and a matching password asks for a
/// session of the configured lifetime.
pub fn login_activity(credentials: &Option<UserCredentials>, input: &LoginWithEmailInput) -> (r:
    Result<SessionRequest, ActivityFailure>)
    ensures
        credentials is None ==> r == Result::<SessionRequest, ActivityFailure>::Err(
            ActivityFailure::NonRetryable(FailureReason::InvalidCredentials),
        ),
        credentials matches Some(c) ==> {
            &&& (password_matches(input.password@, c.hashed_password@) ==> (r matches Ok(req)
                && req.user_id == c.user_id && req.ttl_ms == SESSION_TTL_MS))
            &&& (!password_matches(input.password@, c.hashed_password@) ==> r == Result::<
                SessionRequest,
                ActivityFailure,
            >::Err(ActivityFailure::NonRetryable(FailureReason::InvalidCredentials)))
        },
{
    match credentials {
        Option::None => Result::Err(
            ActivityFailure::NonRetryable(FailureReason::InvalidCredentials),
        ),
        Option::Some(c) => {
            if verify_password(&input.password, &c.hashed_password) {
                Result::Ok(SessionRequest { user_id: c.user_id, ttl_ms: SESSION_TTL_MS })
            } else {
                Result::Err(ActivityFailure::NonRetryable(FailureReason::InvalidCredentials))
            }
        },
    }
}

/// Builds the session record a granted login persists: issued now, expiring
/// exactly the configured lifetime later.
pub fn new_session(id: u128, user_id: u128, now_ms: u64) -> (r: Session)
    requires
        now_ms + SESSION_TTL_MS <= u64::MAX,
    ensures
        r.id == id,
        r.user_id == user_id,
        r.created_at == now_ms,
        r.updated_at == now_ms,
        r.expires_at == now_ms + SESSION_TTL_MS,
{
    Session {
        id,
        user_id,
        expires_at: now_ms + SESSION_TTL_MS,
        created_at: now_ms,
        updated_at: now_ms,
    }
}

/// The call the sign-up workflow issues: the sign-up activity, addressed
/// explicitly, with the encoded argument and a five-second timeout.
pub fn sign_up_request(input: &SignUpInput, derived: &String) -> (r: CallRequest)
    ensures
        r.task_identifier@ == "sign-up-activity"@,
        r.input@ == sign_up_enc(input.email@, input.password@, input.first_name@, input.last_name@),
        r.timeout_ms == Some(5000u64),
{
    let payload = encode_sign_up(input);
    let options = CallOptions {
        task_identifier: String::from_str("sign-up-activity"),
        timeout_ms: Option::Some(5000),
    };
    proof {
        reveal_strlit("sign-up-activity");
    }
    activity_call_request(options, derived, payload)
}

/// The call the login workflow issues: the login activity, addressed
/// explicitly, with the encoded argument and a five-second timeout.
pub fn login_request(input: &LoginWithEmailInput, derived: &String) -> (r: CallRequest)
    ensures
        r.task_identifier@ == "login-activity"@,
        r.input@ == login_enc(input.email@, input.password@),
        r.timeout_ms == Some(5000u64),
{
    let payload = encode_login(input);
    let options = CallOptions {
        task_identifier: String::from_str("login-activity"),
        timeout_ms: Option::Some(5000),
    };
    proof {
        reveal_strlit("login-activity");
    }
    activity_call_request(options, derived, payload)
}

} // verus!
