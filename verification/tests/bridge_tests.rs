use invocation_bridge::bridge::{
    activity_call_request, activity_result, child_call_request, child_result, child_start_gate,
    effective_task_identifier, login_entry, resolve_activity, resolve_child, sign_up_entry,
    workflow_exit, ActivityResolution, BridgeError, CallOptions, ChildWorkflowResolution,
    ChildWorkflowStart,
};
use invocation_bridge::codec::{encode_sign_up, encode_string_payload, Payload};
use invocation_bridge::auth::SignUpInput;

fn payload_of(text: &str) -> Payload {
    Payload {
        data: text.chars().collect(),
    }
}

fn payload_text(p: &Payload) -> String {
    p.data.iter().collect()
}

#[test]
fn empty_identifier_uses_default() {
    let derived = "worker::auth::sign_up_activity".to_string();
    let id = effective_task_identifier(&String::new(), &derived);
    assert_eq!(id, derived);
    // stable across repeated resolutions
    let again = effective_task_identifier(&String::new(), &derived);
    assert_eq!(id, again);
}

#[test]
fn explicit_identifier_wins() {
    let id = effective_task_identifier(&"sign-up-activity".to_string(), &"whatever".to_string());
    assert_eq!(id, "sign-up-activity");
}

#[test]
fn explicit_default_routes_like_empty() {
    // leaving the identifier empty and spelling the derived default out
    // resolve to the same identifier, hence the same registered handler
    let derived = "worker::auth::login_activity".to_string();
    let by_default = effective_task_identifier(&String::new(), &derived);
    let by_explicit = effective_task_identifier(&derived, &derived);
    assert_eq!(by_default, by_explicit);
}

#[test]
fn call_request_carries_payload_and_hints() {
    let payload = payload_of("\"x\"");
    let r = activity_call_request(
        CallOptions {
            task_identifier: String::new(),
            timeout_ms: Some(5000),
        },
        &"derived-name".to_string(),
        payload,
    );
    assert_eq!(r.task_identifier, "derived-name");
    assert_eq!(payload_text(&r.input), "\"x\"");
    assert_eq!(r.timeout_ms, Some(5000));
}

#[test]
fn child_call_request_wraps_single_argument() {
    let r = child_call_request(
        CallOptions {
            task_identifier: "sign-up-wf".to_string(),
            timeout_ms: None,
        },
        &"derived".to_string(),
        payload_of("\"a\""),
    );
    assert_eq!(r.task_identifier, "sign-up-wf");
    assert_eq!(r.input.len(), 1);
    assert_eq!(payload_text(&r.input[0]), "\"a\"");
}

#[test]
fn activity_resolution_mapping_is_exhaustive() {
    let ok = resolve_activity(Some(ActivityResolution::Completed(Some(payload_of("\"v\"")))));
    assert_eq!(payload_text(&ok.unwrap()), "\"v\"");

    let failed = resolve_activity(Some(ActivityResolution::Failed("boom".to_string())));
    assert!(matches!(failed, Err(BridgeError::Failed(ref d)) if d == "boom"));

    let cancelled = resolve_activity(Some(ActivityResolution::Cancelled("stop".to_string())));
    assert!(matches!(cancelled, Err(BridgeError::Cancelled(ref d)) if d == "stop"));

    let backoff = resolve_activity(Some(ActivityResolution::Backoff("later".to_string())));
    assert!(matches!(backoff, Err(BridgeError::Backoff(ref d)) if d == "later"));

    let absent = resolve_activity(None);
    assert!(matches!(absent, Err(BridgeError::Protocol)));

    let empty_completion = resolve_activity(Some(ActivityResolution::Completed(None)));
    assert!(matches!(empty_completion, Err(BridgeError::Protocol)));
}

#[test]
fn child_resolution_mapping_is_exhaustive() {
    let ok = resolve_child(Some(ChildWorkflowResolution::Completed(Some(payload_of("\"v\"")))));
    assert_eq!(payload_text(&ok.unwrap()), "\"v\"");

    let failed = resolve_child(Some(ChildWorkflowResolution::Failed("boom".to_string())));
    assert!(matches!(failed, Err(BridgeError::Failed(ref d)) if d == "boom"));

    let cancelled = resolve_child(Some(ChildWorkflowResolution::Cancelled("stop".to_string())));
    assert!(matches!(cancelled, Err(BridgeError::Cancelled(ref d)) if d == "stop"));

    let absent = resolve_child(None);
    assert!(matches!(absent, Err(BridgeError::Protocol)));
}

#[test]
fn resolution_mapping_is_idempotent() {
    let make = || Some(ActivityResolution::Failed("boom".to_string()));
    let first = resolve_activity(make());
    let second = resolve_activity(make());
    match (first, second) {
        (Err(BridgeError::Failed(a)), Err(BridgeError::Failed(b))) => assert_eq!(a, b),
        _ => panic!("mapping changed between applications"),
    }
    let make_child = || Some(ChildWorkflowResolution::Cancelled("stop".to_string()));
    let first = resolve_child(make_child());
    let second = resolve_child(make_child());
    match (first, second) {
        (Err(BridgeError::Cancelled(a)), Err(BridgeError::Cancelled(b))) => assert_eq!(a, b),
        _ => panic!("mapping changed between applications"),
    }
}

#[test]
fn activity_result_decodes_completion() {
    let value = "3f0e-uuid".to_string();
    let res = Some(ActivityResolution::Completed(Some(encode_string_payload(&value))));
    assert_eq!(activity_result(res).unwrap(), value);
}

#[test]
fn activity_result_flags_codec_defect() {
    let res = Some(ActivityResolution::Completed(Some(payload_of("not a string"))));
    assert!(matches!(activity_result(res), Err(BridgeError::Codec(_))));
}

#[test]
fn child_failed_start_surfaces_without_resolution() {
    // even if a completion resolution were offered, it is never consulted
    let completion = Some(ChildWorkflowResolution::Completed(Some(payload_of("\"v\""))));
    let r = child_result(
        ChildWorkflowStart::FailedToStart("could not start".to_string()),
        completion,
    );
    assert!(matches!(r, Err(BridgeError::FailedToStart(ref d)) if d == "could not start"));
    let gate = child_start_gate(ChildWorkflowStart::FailedToStart("no".to_string()));
    assert!(matches!(gate, Err(BridgeError::FailedToStart(ref d)) if d == "no"));
}

#[test]
fn child_started_resolves_normally() {
    assert!(child_start_gate(ChildWorkflowStart::Started).is_ok());
    let value = "done".to_string();
    let r = child_result(
        ChildWorkflowStart::Started,
        Some(ChildWorkflowResolution::Completed(Some(encode_string_payload(&value)))),
    );
    assert_eq!(r.unwrap(), value);
}

#[test]
fn sign_up_entry_decodes_first_argument() {
    let input = SignUpInput {
        email: "a@b.com".to_string(),
        password: "secret".to_string(),
        first_name: "A".to_string(),
        last_name: "B".to_string(),
    };
    let args = vec![encode_sign_up(&input)];
    let decoded = sign_up_entry(&args).unwrap();
    assert_eq!(decoded.email, "a@b.com");
    assert_eq!(decoded.password, "secret");
}

#[test]
fn entry_without_arguments_is_protocol_error() {
    let args: Vec<Payload> = Vec::new();
    assert!(matches!(sign_up_entry(&args), Err(BridgeError::Protocol)));
    assert!(matches!(login_entry(&args), Err(BridgeError::Protocol)));
}

#[test]
fn entry_with_bad_payload_is_entry_failure() {
    let args = vec![payload_of("garbage")];
    assert!(matches!(sign_up_entry(&args), Err(BridgeError::Codec(_))));
    assert!(matches!(login_entry(&args), Err(BridgeError::Codec(_))));
}

#[test]
fn workflow_exit_encodes_completion() {
    let exit = workflow_exit(Ok("result-token".to_string())).unwrap();
    assert_eq!(payload_text(&exit), "\"result-token\"");
    let failed = workflow_exit(Err(BridgeError::Failed("boom".to_string())));
    assert!(matches!(failed, Err(BridgeError::Failed(ref d)) if d == "boom"));
}
