//! The invocation bridge: task-identifier resolution, call-request
//! construction, the workflow entry adapter, and the demultiplexing of the
//! engine's resolutions onto typed outcomes.
//!
//! The engine itself is an outside collaborator: the process boundary
//! submits the requests built here, waits, and hands the reported
//! resolutions back to these functions, which decide everything.

use vstd::prelude::*;
use crate::auth::LoginWithEmailInput;
use crate::auth::SignUpInput;
use crate::codec::CodecError;
use crate::codec::Payload;
use crate::codec::decode_login;
use crate::codec::decode_sign_up;
use crate::codec::decode_string_payload;
use crate::codec::login_enc;
use crate::codec::quoted;
use crate::codec::sign_up_enc;
use vstd::string::StrSliceExecFns;

verus! {

/// Options of one engine call: the explicit task identifier (empty to fall
/// back to the classifier-derived default) and scheduling hints.
#[derive(Debug, Clone)]
pub struct CallOptions {
    pub task_identifier: String,
    pub timeout_ms: Option<u64>,
}

/// The request handed to the engine for an activity call.
#[derive(Debug, Clone)]
pub struct CallRequest {
    pub task_identifier: String,
    pub input: Payload,
    pub timeout_ms: Option<u64>,
}

/// The request handed to the engine for a child workflow call, whose entry
/// convention takes a sequence of payloads.
#[derive(Debug, Clone)]
pub struct ChildCallRequest {
    pub task_identifier: String,
    pub input: Vec<Payload>,
    pub timeout_ms: Option<u64>,
}

/// What the engine reports for a resolved activity call. Exactly one
/// variant is present per resolved call; the payload of a completion may
/// still be absent, which is a protocol violation.
#[derive(Debug, Clone)]
pub enum ActivityResolution {
    Completed(Option<Payload>),
    Failed(String),
    Cancelled(String),
    Backoff(String),
}

/// What the engine reports for a resolved child workflow: as the activity
/// resolution, but without the transient-retry variant.
#[derive(Debug, Clone)]
pub enum ChildWorkflowResolution {
    Completed(Option<Payload>),
    Failed(String),
    Cancelled(String),
}

/// Whether a child workflow reached the started milestone.
#[derive(Debug, Clone)]
pub enum ChildWorkflowStart {
    Started,
    FailedToStart(String),
}

/// The bridge's error taxonomy. `Codec` and `Protocol` are fatal: the
/// caller must abort the workflow task. `Failed` and `Cancelled` are
/// recoverable business outcomes. `Backoff` is transient: the engine will
/// itself re-attempt the call, so the caller must not treat it as a
/// terminal failure nor retry it by hand. `FailedToStart` reports a child
/// workflow that never reached the started milestone.
#[derive(Debug, Clone)]
pub enum BridgeError {
    Codec(CodecError),
    Protocol,
    Failed(String),
    Cancelled(String),
    Backoff(String),
    FailedToStart(String),
}

/// The identifier a call is routed by: the explicit one from the options,
/// or, when that is empty, the default derived from the callable's type.
pub open spec fn effective_identifier(explicit: Seq<char>, derived: Seq<char>) -> Seq<char> {
    if explicit.len() == 0 {
        derived
    } else {
        explicit
    }
}

/// An empty explicit identifier falls back to the classifier-derived
/// default; the resolution is a function of the two identifiers alone, so
/// repeated calls with the same callable use the same identifier.
pub proof fn lemma_empty_identifier_uses_default(derived: Seq<char>)
    ensures
        effective_identifier(Seq::empty(), derived) == derived,
{
}

/// A call that leaves the identifier empty is routed exactly as one that
/// spells the classifier-derived default out: both resolve to the default,
/// so both reach the handler registered under it.
pub proof fn lemma_explicit_default_equivalent(derived: Seq<char>)
    ensures
        effective_identifier(Seq::empty(), derived) == effective_identifier(derived, derived),
{
}

/// Resolves the task identifier of a call.
pub fn effective_task_identifier(explicit: &String, derived: &String) -> (r: String)
    ensures
        r@ == effective_identifier(explicit@, derived@),
{
    if explicit.as_str().unicode_len() == 0 {
        derived.clone()
    } else {
        explicit.clone()
    }
}

/// Builds the engine-facing request of an activity call: the resolved
/// identifier, the encoded argument, and the scheduling hints.
pub fn activity_call_request(options: CallOptions, derived: &String, input: Payload) -> (r:
    CallRequest)
    ensures
        r.task_identifier@ == effective_identifier(options.task_identifier@, derived@),
        r.input == input,
        r.timeout_ms == options.timeout_ms,
{
    let task_identifier = effective_task_identifier(&options.task_identifier, derived);
    CallRequest { task_identifier, input, timeout_ms: options.timeout_ms }
}

/// Builds the engine-facing request of a child workflow call; the argument
/// is the single payload of the child's entry sequence.
pub fn child_call_request(options: CallOptions, derived: &String, input: Payload) -> (r:
    ChildCallRequest)
    ensures
        r.task_identifier@ == effective_identifier(options.task_identifier@, derived@),
        r.input@.len() == 1 && r.input@[0] == input,
        r.timeout_ms == options.timeout_ms,
{
    let task_identifier = effective_task_identifier(&options.task_identifier, derived);
    let mut args: Vec<Payload> = Vec::new();
    args.push(input);
    ChildCallRequest { task_identifier, input: args, timeout_ms: options.timeout_ms }
}

/// The outcome an activity resolution maps to: the completion payload on
/// success, the matching error otherwise; an absent status or an absent
/// completion payload is a protocol violation.
pub open spec fn activity_outcome(res: Option<ActivityResolution>) -> Result<Payload, BridgeError> {
    match res {
        Option::None => Result::Err(BridgeError::Protocol),
        Option::Some(ActivityResolution::Completed(Option::Some(p))) => Result::Ok(p),
        Option::Some(ActivityResolution::Completed(Option::None)) => Result::Err(
            BridgeError::Protocol,
        ),
        Option::Some(ActivityResolution::Failed(d)) => Result::Err(BridgeError::Failed(d)),
        Option::Some(ActivityResolution::Cancelled(d)) => Result::Err(BridgeError::Cancelled(d)),
        Option::Some(ActivityResolution::Backoff(d)) => Result::Err(BridgeError::Backoff(d)),
    }
}

/// The outcome a child workflow resolution maps to.
pub open spec fn child_outcome(res: Option<ChildWorkflowResolution>) -> Result<
    Payload,
    BridgeError,
> {
    match res {
        Option::None => Result::Err(BridgeError::Protocol),
        Option::Some(ChildWorkflowResolution::Completed(Option::Some(p))) => Result::Ok(p),
        Option::Some(ChildWorkflowResolution::Completed(Option::None)) => Result::Err(
            BridgeError::Protocol,
        ),
        Option::Some(ChildWorkflowResolution::Failed(d)) => Result::Err(BridgeError::Failed(d)),
        Option::Some(ChildWorkflowResolution::Cancelled(d)) => Result::Err(
            BridgeError::Cancelled(d),
        ),
    }
}

/// The outcome of a whole child workflow call: a failure to start is
/// reported at once, and only a started child's resolution is consulted.
pub open spec fn child_call_outcome(
    start: ChildWorkflowStart,
    res: Option<ChildWorkflowResolution>,
) -> Result<Payload, BridgeError> {
    match start {
        ChildWorkflowStart::Started => child_outcome(res),
        ChildWorkflowStart::FailedToStart(d) => Result::Err(BridgeError::FailedToStart(d)),
    }
}

/// Demultiplexes an activity resolution. Every variant maps to exactly one
/// outcome, and an absent status aborts rather than silently succeeding.
pub fn resolve_activity(res: Option<ActivityResolution>) -> (r: Result<Payload, BridgeError>)
    ensures
        r == activity_outcome(res),
{
    match res {
        Option::None => Result::Err(BridgeError::Protocol),
        Option::Some(ActivityResolution::Completed(Option::Some(p))) => Result::Ok(p),
        Option::Some(ActivityResolution::Completed(Option::None)) => Result::Err(
            BridgeError::Protocol,
        ),
        Option::Some(ActivityResolution::Failed(d)) => Result::Err(BridgeError::Failed(d)),
        Option::Some(ActivityResolution::Cancelled(d)) => Result::Err(BridgeError::Cancelled(d)),
        Option::Some(ActivityResolution::Backoff(d)) => Result::Err(BridgeError::Backoff(d)),
    }
}

/// Demultiplexes a child workflow resolution.
pub fn resolve_child(res: Option<ChildWorkflowResolution>) -> (r: Result<Payload, BridgeError>)
    ensures
        r == child_outcome(res),
{
    match res {
        Option::None => Result::Err(BridgeError::Protocol),
        Option::Some(ChildWorkflowResolution::Completed(Option::Some(p))) => Result::Ok(p),
        Option::Some(ChildWorkflowResolution::Completed(Option::None)) => Result::Err(
            BridgeError::Protocol,
        ),
        Option::Some(ChildWorkflowResolution::Failed(d)) => Result::Err(BridgeError::Failed(d)),
        Option::Some(ChildWorkflowResolution::Cancelled(d)) => Result::Err(
            BridgeError::Cancelled(d),
        ),
    }
}

/// Gates on the started milestone of a child workflow: a failure to start
/// is an immediate invocation error.
pub fn child_start_gate(start: ChildWorkflowStart) -> (r: Result<(), BridgeError>)
    ensures
        start is Started ==> r is Ok,
        start matches ChildWorkflowStart::FailedToStart(d) ==> r == Result::<(), BridgeError>::Err(
            BridgeError::FailedToStart(d),
        ),
{
    match start {
        ChildWorkflowStart::Started => Result::Ok(()),
        ChildWorkflowStart::FailedToStart(d) => Result::Err(BridgeError::FailedToStart(d)),
    }
}

/// Every activity resolution, and the absent one, maps to exactly the
/// outcome written here: no variant is dropped, none maps to two outcomes.
pub proof fn lemma_activity_mapping_exhaustive(res: Option<ActivityResolution>)
    ensures
        res is None ==> activity_outcome(res) == Result::<Payload, BridgeError>::Err(
            BridgeError::Protocol,
        ),
        res matches Some(ActivityResolution::Completed(Some(p))) ==> activity_outcome(res)
            == Result::<Payload, BridgeError>::Ok(p),
        res matches Some(ActivityResolution::Completed(None::<Payload>)) ==> activity_outcome(res)
            == Result::<Payload, BridgeError>::Err(BridgeError::Protocol),
        res matches Some(ActivityResolution::Failed(d)) ==> activity_outcome(res) == Result::<
            Payload,
            BridgeError,
        >::Err(BridgeError::Failed(d)),
        res matches Some(ActivityResolution::Cancelled(d)) ==> activity_outcome(res) == Result::<
            Payload,
            BridgeError,
        >::Err(BridgeError::Cancelled(d)),
        res matches Some(ActivityResolution::Backoff(d)) ==> activity_outcome(res) == Result::<
            Payload,
            BridgeError,
        >::Err(BridgeError::Backoff(d)),
{
}

/// Every child workflow resolution, and the absent one, maps to exactly the
/// outcome written here.
pub proof fn lemma_child_mapping_exhaustive(res: Option<ChildWorkflowResolution>)
    ensures
        res is None ==> child_outcome(res) == Result::<Payload, BridgeError>::Err(
            BridgeError::Protocol,
        ),
        res matches Some(ChildWorkflowResolution::Completed(Some(p))) ==> child_outcome(res)
            == Result::<Payload, BridgeError>::Ok(p),
        res matches Some(ChildWorkflowResolution::Completed(None::<Payload>)) ==> child_outcome(
            res,
        ) == Result::<Payload, BridgeError>::Err(BridgeError::Protocol),
        res matches Some(ChildWorkflowResolution::Failed(d)) ==> child_outcome(res) == Result::<
            Payload,
            BridgeError,
        >::Err(BridgeError::Failed(d)),
        res matches Some(ChildWorkflowResolution::Cancelled(d)) ==> child_outcome(res) == Result::<
            Payload,
            BridgeError,
        >::Err(BridgeError::Cancelled(d)),
{
}

/// Mapping a resolution is a pure function of the resolution value: two
/// equal resolutions map to the same bridge outcome, however often the
/// mapping is applied.
pub proof fn lemma_activity_mapping_idempotent(
    a: Option<ActivityResolution>,
    b: Option<ActivityResolution>,
)
    requires
        a == b,
    ensures
        activity_outcome(a) == activity_outcome(b),
{
}

/// As `lemma_activity_mapping_idempotent`, for child workflows.
pub proof fn lemma_child_mapping_idempotent(
    a: Option<ChildWorkflowResolution>,
    b: Option<ChildWorkflowResolution>,
)
    requires
        a == b,
    ensures
        child_outcome(a) == child_outcome(b),
{
}

/// A child workflow that never reaches the started milestone surfaces the
/// invocation error at once: the outcome is the same whatever completion
/// resolution might be offered — none is consulted.
pub proof fn lemma_failed_start_ignores_resolution(
    d: String,
    res1: Option<ChildWorkflowResolution>,
    res2: Option<ChildWorkflowResolution>,
)
    ensures
        child_call_outcome(ChildWorkflowStart::FailedToStart(d), res1) == child_call_outcome(
            ChildWorkflowStart::FailedToStart(d),
            res2,
        ),
        child_call_outcome(ChildWorkflowStart::FailedToStart(d), res1) == Result::<
            Payload,
            BridgeError,
        >::Err(BridgeError::FailedToStart(d)),
{
}

/// Maps an activity resolution onto the typed result of a String-returning
/// call: demultiplex, then decode the completion payload; a payload that is
/// not a string encoding is a fatal codec defect.
pub fn activity_result(res: Option<ActivityResolution>) -> (r: Result<String, BridgeError>)
    ensures
        activity_outcome(res) matches Err(e) ==> r == Result::<String, BridgeError>::Err(e),
        activity_outcome(res) matches Ok(p) ==> {
            &&& (r matches Ok(s) ==> p@ == quoted(s@))
            &&& (forall|q: Seq<char>| p@ == quoted(q) ==> (r matches Ok(s) && s@ == q))
            &&& (r matches Err(e) ==> e == BridgeError::Codec(CodecError))
        },
{
    match resolve_activity(res) {
        Result::Err(e) => Result::Err(e),
        Result::Ok(p) => match decode_string_payload(&p) {
            Result::Ok(s) => Result::Ok(s),
            Result::Err(ce) => Result::Err(BridgeError::Codec(ce)),
        },
    }
}

/// Maps a child workflow's start milestone and resolution onto the typed
/// result of a String-returning call.
pub fn child_result(start: ChildWorkflowStart, res: Option<ChildWorkflowResolution>) -> (r: Result<
    String,
    BridgeError,
>)
    ensures
        child_call_outcome(start, res) matches Err(e) ==> r == Result::<String, BridgeError>::Err(
            e,
        ),
        child_call_outcome(start, res) matches Ok(p) ==> {
            &&& (r matches Ok(s) ==> p@ == quoted(s@))
            &&& (forall|q: Seq<char>| p@ == quoted(q) ==> (r matches Ok(s) && s@ == q))
            &&& (r matches Err(e) ==> e == BridgeError::Codec(CodecError))
        },
{
    match child_start_gate(start) {
        Result::Err(e) => Result::Err(e),
        Result::Ok(()) => match resolve_child(res) {
            Result::Err(e) => Result::Err(e),
            Result::Ok(p) => match decode_string_payload(&p) {
                Result::Ok(s) => Result::Ok(s),
                Result::Err(ce) => Result::Err(BridgeError::Codec(ce)),
            },
        },
    }
}

/// Adapts the engine's entry convention to the sign-up workflow: decodes
/// the first payload of the argument sequence. An empty sequence is a
/// protocol violation; a first payload that is not a sign-up encoding is an
/// entry-level failure.
pub fn sign_up_entry(args: &Vec<Payload>) -> (r: Result<SignUpInput, BridgeError>)
    ensures
        args@.len() == 0 ==> r == Result::<SignUpInput, BridgeError>::Err(BridgeError::Protocol),
        r matches Ok(v) ==> args@.len() > 0 && args@[0]@ == sign_up_enc(
            v.email@,
            v.password@,
            v.first_name@,
            v.last_name@,
        ),
        forall|e: Seq<char>, pw: Seq<char>, f: Seq<char>, l: Seq<char>|
            args@.len() > 0 && args@[0]@ == sign_up_enc(e, pw, f, l) ==> (r matches Ok(v)
                && v.email@ == e && v.password@ == pw && v.first_name@ == f && v.last_name@ == l),
        args@.len() > 0 ==> (r matches Err(e) ==> e == BridgeError::Codec(CodecError)),
{
    if args.len() == 0 {
        return Result::Err(BridgeError::Protocol);
    }
    match decode_sign_up(&args[0]) {
        Result::Ok(v) => Result::Ok(v),
        Result::Err(ce) => Result::Err(BridgeError::Codec(ce)),
    }
}

/// Adapts the engine's entry convention to the login workflow.
pub fn login_entry(args: &Vec<Payload>) -> (r: Result<LoginWithEmailInput, BridgeError>)
    ensures
        args@.len() == 0 ==> r == Result::<LoginWithEmailInput, BridgeError>::Err(
            BridgeError::Protocol,
        ),
        r matches Ok(v) ==> args@.len() > 0 && args@[0]@ == login_enc(v.email@, v.password@),
        forall|e: Seq<char>, pw: Seq<char>|
            args@.len() > 0 && args@[0]@ == login_enc(e, pw) ==> (r matches Ok(v) && v.email@ == e
                && v.password@ == pw),
        args@.len() > 0 ==> (r matches Err(e) ==> e == BridgeError::Codec(CodecError)),
{
    if args.len() == 0 {
        return Result::Err(BridgeError::Protocol);
    }
    match decode_login(&args[0]) {
        Result::Ok(v) => Result::Ok(v),
        Result::Err(ce) => Result::Err(BridgeError::Codec(ce)),
    }
}

/// Converts a typed workflow result into the engine's exit representation:
/// a completion carries the encoded return value; an error fails the run.
pub fn workflow_exit(result: Result<String, BridgeError>) -> (r: Result<Payload, BridgeError>)
    ensures
        result matches Ok(s) ==> (r matches Ok(p) && p@ == quoted(s@)),
        result matches Err(e) ==> r == Result::<Payload, BridgeError>::Err(e),
{
    match result {
        Result::Ok(s) => Result::Ok(crate::codec::encode_string_payload(&s)),
        Result::Err(e) => Result::Err(e),
    }
}

} // verus!
