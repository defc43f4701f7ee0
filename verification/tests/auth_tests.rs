use invocation_bridge::auth::{
    login_activity, login_lookup_key, login_request, new_session, sign_up_activity,
    sign_up_request, ActivityFailure, FailureReason, LoginWithEmailInput, SignUpInput,
    UserCredentials, SESSION_TTL_MS,
};
use invocation_bridge::bridge::{activity_result, ActivityResolution};
use invocation_bridge::codec::{decode_sign_up, encode_string_payload};

fn sign_up_input() -> SignUpInput {
    SignUpInput {
        email: "a@b.com".to_string(),
        password: "secret".to_string(),
        first_name: "A".to_string(),
        last_name: "B".to_string(),
    }
}

fn credentials_of(records: &invocation_bridge::auth::SignUpRecords, user_id: u128) -> UserCredentials {
    UserCredentials {
        user_id,
        email: records.email.clone(),
        hashed_password: records.hashed_password.clone(),
        created_at: 0,
        updated_at: 0,
    }
}

#[test]
fn sign_up_hashes_and_lowercases() {
    let input = SignUpInput {
        email: "A@B.com".to_string(),
        ..sign_up_input()
    };
    let records = sign_up_activity(&input).unwrap();
    assert_eq!(records.email, "a@b.com");
    assert_eq!(records.first_name, "A");
    assert_eq!(records.last_name, "B");
    // the stored credential is a PHC hash, not the password itself
    assert_ne!(records.hashed_password, input.password);
    assert!(records.hashed_password.starts_with("$argon2"));
}

#[test]
fn sign_up_then_login_grants_session() {
    // an empty datastore, then one sign-up, then a login with the same
    // email and password
    let mut store: Vec<(String, UserCredentials)> = Vec::new();
    let records = sign_up_activity(&sign_up_input()).unwrap();
    let user_id: u128 = 7;
    store.push((records.email.clone(), credentials_of(&records, user_id)));

    let login = LoginWithEmailInput {
        email: "a@b.com".to_string(),
        password: "secret".to_string(),
    };
    let key = login_lookup_key(&login);
    let found = store
        .iter()
        .find(|(email, _)| *email == key)
        .map(|(_, c)| c.clone());
    let request = login_activity(&found, &login).unwrap();
    assert_eq!(request.user_id, user_id);
    assert_eq!(request.ttl_ms, SESSION_TTL_MS);

    // the issued session expires exactly seven days after issuance
    let now_ms: u64 = 1_700_000_000_000;
    let session = new_session(99, request.user_id, now_ms);
    assert_eq!(session.user_id, user_id);
    assert_eq!(session.created_at, now_ms);
    assert_eq!(session.expires_at, 1_700_604_800_000);
    assert_eq!(session.expires_at - session.created_at, 7 * 24 * 60 * 60 * 1000);
}

#[test]
fn login_with_differently_cased_email_finds_record() {
    let records = sign_up_activity(&sign_up_input()).unwrap();
    let login = LoginWithEmailInput {
        email: "A@B.COM".to_string(),
        password: "secret".to_string(),
    };
    assert_eq!(login_lookup_key(&login), records.email);
}

#[test]
fn login_unknown_email_is_terminal_invalid_credentials() {
    let login = LoginWithEmailInput {
        email: "nobody@b.com".to_string(),
        password: "secret".to_string(),
    };
    let r = login_activity(&None, &login);
    assert_eq!(
        r.unwrap_err(),
        ActivityFailure::NonRetryable(FailureReason::InvalidCredentials)
    );
}

#[test]
fn login_wrong_password_is_terminal_invalid_credentials() {
    let records = sign_up_activity(&sign_up_input()).unwrap();
    let found = Some(credentials_of(&records, 7));
    let login = LoginWithEmailInput {
        email: "a@b.com".to_string(),
        password: "not-the-password".to_string(),
    };
    let r = login_activity(&found, &login);
    assert_eq!(
        r.unwrap_err(),
        ActivityFailure::NonRetryable(FailureReason::InvalidCredentials)
    );
}

#[test]
fn workflow_requests_address_their_activities() {
    let derived = "worker::auth::sign_up_activity".to_string();
    let r = sign_up_request(&sign_up_input(), &derived);
    assert_eq!(r.task_identifier, "sign-up-activity");
    assert_eq!(r.timeout_ms, Some(5000));

    let login = LoginWithEmailInput {
        email: "a@b.com".to_string(),
        password: "secret".to_string(),
    };
    let r = login_request(&login, &"worker::auth::login_activity".to_string());
    assert_eq!(r.task_identifier, "login-activity");
    assert_eq!(r.timeout_ms, Some(5000));
}

#[test]
fn sign_up_flow_through_the_bridge() {
    // one full round: the workflow builds the request, the simulated engine
    // routes it to the registered handler, the activity runs, and the
    // resolution comes back through the bridge
    let input = sign_up_input();
    let request = sign_up_request(&input, &"worker::auth::sign_up_activity".to_string());
    assert_eq!(request.task_identifier, "sign-up-activity");

    // the engine hands the payload to the handler registered under that name
    let handler_argument = decode_sign_up(&request.input).unwrap();
    assert_eq!(handler_argument.email, input.email);
    let records = sign_up_activity(&handler_argument).unwrap();
    assert!(records.hashed_password.starts_with("$argon2"));
    let user_id = "11111111-2222-3333-4444-555555555555".to_string();

    // the engine reports completion; the workflow sees the typed value
    let resolution = Some(ActivityResolution::Completed(Some(encode_string_payload(&user_id))));
    assert_eq!(activity_result(resolution).unwrap(), user_id);
}
