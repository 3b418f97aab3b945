//! Conversions between the domain messages and the wire messages.
use vstd::prelude::*;

use crate::json::{
    json_text, lemma_parse_json_text, lemma_text_start, parse_json, parse_json_text, write_json, JsonV, JsonValue,
    MAX_DEPTH,
};
use crate::model::{ProfileV, WindowLocatorV};
use crate::payload::{
    action_kind_from, action_kind_name, action_kind_payload, is_payload_kind, is_unit_kind,
    kind_from, kind_name, kind_payload, lemma_kind_names, lemma_kind_payload, lemma_target_json, target_from_json,
    target_json, target_of, target_to_json, unit_kind, KindV, TargetV,
};
use crate::pb;
use crate::protocol::{
    ActionId, ActionKind, ActionRequest, ActionResult, ActionStatus, ArtifactDescriptor, ArtifactId,
    CapturePolicy, ClientMessage, DomainProfile, Hello, HelloAck, ObservationScope,
    ReadArtifactRequest, SessionId, SessionProfile, Subscribe, WarningEvent, WindowId,
    WindowLocator,
};
use crate::text::{opt_view, str_equal};

verus! {

/// Why a wire message could not be converted.
#[derive(Clone, Debug, PartialEq, Eq)]
pub enum ConvertError {
    MissingPayload,
    MissingField(String),
    InvalidEnumValue { field: String, value: i32 },
    UnsupportedActionKind(String),
    UnsupportedActionStatus(String),
    UnsupportedDiffOp(String),
    InvalidJson { field: String },
    InvalidTimestamp(i64),
}

/// View of a conversion error.
pub enum ConvertErrorV {
    MissingPayload,
    MissingField(Seq<char>),
    InvalidEnumValue { field: Seq<char>, value: i32 },
    UnsupportedActionKind(Seq<char>),
    UnsupportedActionStatus(Seq<char>),
    UnsupportedDiffOp(Seq<char>),
    InvalidJson { field: Seq<char> },
    InvalidTimestamp(i64),
}

impl View for ConvertError {
    type V = ConvertErrorV;

    open spec fn view(&self) -> ConvertErrorV {
        match self {
            ConvertError::MissingPayload => ConvertErrorV::MissingPayload,
            ConvertError::MissingField(f) => ConvertErrorV::MissingField(f@),
            ConvertError::InvalidEnumValue { field, value } => ConvertErrorV::InvalidEnumValue { field: field@, value: *value },
            ConvertError::UnsupportedActionKind(k) => ConvertErrorV::UnsupportedActionKind(k@),
            ConvertError::UnsupportedActionStatus(s) => ConvertErrorV::UnsupportedActionStatus(s@),
            ConvertError::UnsupportedDiffOp(s) => ConvertErrorV::UnsupportedDiffOp(s@),
            ConvertError::InvalidJson { field } => ConvertErrorV::InvalidJson { field: field@ },
            ConvertError::InvalidTimestamp(t) => ConvertErrorV::InvalidTimestamp(*t),
        }
    }
}

/// The error of a conversion, as a view.
pub open spec fn result_err<T>(r: Result<T, ConvertError>) -> Option<ConvertErrorV> {
    match r {
        Ok(_) => None,
        Err(e) => Some(e@),
    }
}

// ----- enums -----

/// Wire number of an observation scope.
pub open spec fn scope_code(s: ObservationScope) -> i32 {
    match s {
        ObservationScope::Desktop => pb::SCOPE_DESKTOP,
        ObservationScope::AttachedWindows => pb::SCOPE_ATTACHED_WINDOWS,
    }
}

/// Wire number of a domain profile.
pub open spec fn profile_code(p: DomainProfile) -> i32 {
    match p {
        DomainProfile::Generic => pb::PROFILE_GENERIC,
        DomainProfile::OnecEnterpriseUi => pb::PROFILE_ONEC_ENTERPRISE_UI,
        DomainProfile::OnecConfigurator => pb::PROFILE_ONEC_CONFIGURATOR,
    }
}

/// Wire number of a capture policy.
pub open spec fn capture_code(c: CapturePolicy) -> i32 {
    match c {
        CapturePolicy::Never => pb::CAPTURE_NEVER,
        CapturePolicy::OnFailure => pb::CAPTURE_ON_FAILURE,
        CapturePolicy::Always => pb::CAPTURE_ALWAYS,
    }
}

/// The observation scope a wire number names; unspecified and unknown numbers are errors.
pub fn decode_observation_scope(value: i32) -> (r: Result<ObservationScope, ConvertError>)
    ensures
        match r {
            Ok(s) => scope_code(s) == value,
            Err(e) => (value != pb::SCOPE_DESKTOP && value != pb::SCOPE_ATTACHED_WINDOWS)
                && e@ == ConvertErrorV::InvalidEnumValue { field: "observation_scope"@, value },
        },
{
    if value == pb::SCOPE_DESKTOP {
        Ok(ObservationScope::Desktop)
    } else if value == pb::SCOPE_ATTACHED_WINDOWS {
        Ok(ObservationScope::AttachedWindows)
    } else {
        Err(ConvertError::InvalidEnumValue { field: String::from_str("observation_scope"), value })
    }
}

/// The domain profile a wire number names; unspecified and unknown numbers are errors.
pub fn decode_domain_profile(value: i32) -> (r: Result<DomainProfile, ConvertError>)
    ensures
        match r {
            Ok(p) => profile_code(p) == value,
            Err(e) => (value != pb::PROFILE_GENERIC && value != pb::PROFILE_ONEC_ENTERPRISE_UI
                && value != pb::PROFILE_ONEC_CONFIGURATOR)
                && e@ == ConvertErrorV::InvalidEnumValue { field: "domain_profile"@, value },
        },
{
    if value == pb::PROFILE_GENERIC {
        Ok(DomainProfile::Generic)
    } else if value == pb::PROFILE_ONEC_ENTERPRISE_UI {
        Ok(DomainProfile::OnecEnterpriseUi)
    } else if value == pb::PROFILE_ONEC_CONFIGURATOR {
        Ok(DomainProfile::OnecConfigurator)
    } else {
        Err(ConvertError::InvalidEnumValue { field: String::from_str("domain_profile"), value })
    }
}

/// The capture policy a wire number names; unspecified and unknown numbers are errors.
pub fn decode_capture_policy(value: i32) -> (r: Result<CapturePolicy, ConvertError>)
    ensures
        match r {
            Ok(c) => capture_code(c) == value,
            Err(e) => (value != pb::CAPTURE_NEVER && value != pb::CAPTURE_ON_FAILURE && value != pb::CAPTURE_ALWAYS)
                && e@ == ConvertErrorV::InvalidEnumValue { field: "capture_policy"@, value },
        },
{
    if value == pb::CAPTURE_NEVER {
        Ok(CapturePolicy::Never)
    } else if value == pb::CAPTURE_ON_FAILURE {
        Ok(CapturePolicy::OnFailure)
    } else if value == pb::CAPTURE_ALWAYS {
        Ok(CapturePolicy::Always)
    } else {
        Err(ConvertError::InvalidEnumValue { field: String::from_str("capture_policy"), value })
    }
}

/// The wire number of a capture policy.
pub fn encode_capture_policy(c: CapturePolicy) -> (r: i32)
    ensures
        r == capture_code(c),
{
    match c {
        CapturePolicy::Never => pb::CAPTURE_NEVER,
        CapturePolicy::OnFailure => pb::CAPTURE_ON_FAILURE,
        CapturePolicy::Always => pb::CAPTURE_ALWAYS,
    }
}

/// The wire name of an action status.
pub open spec fn status_name(s: ActionStatus) -> Seq<char> {
    match s {
        ActionStatus::Completed => "completed"@,
        ActionStatus::Failed => "failed"@,
        ActionStatus::TimedOut => "timed_out"@,
        ActionStatus::Unsupported => "unsupported"@,
    }
}

/// The wire name of an action status.
pub fn encode_action_status(s: ActionStatus) -> (r: &'static str)
    ensures
        r@ == status_name(s),
{
    match s {
        ActionStatus::Completed => "completed",
        ActionStatus::Failed => "failed",
        ActionStatus::TimedOut => "timed_out",
        ActionStatus::Unsupported => "unsupported",
    }
}

/// The action status a wire name names.
pub fn decode_action_status(value: &str) -> (r: Result<ActionStatus, ConvertError>)
    ensures
        match r {
            Ok(s) => status_name(s) == value@,
            Err(e) => value@ != "completed"@ && value@ != "failed"@ && value@ != "timed_out"@
                && value@ != "unsupported"@ && e@ == ConvertErrorV::UnsupportedActionStatus(value@),
        },
{
    if str_equal(value, "completed") {
        Ok(ActionStatus::Completed)
    } else if str_equal(value, "failed") {
        Ok(ActionStatus::Failed)
    } else if str_equal(value, "timed_out") {
        Ok(ActionStatus::TimedOut)
    } else if str_equal(value, "unsupported") {
        Ok(ActionStatus::Unsupported)
    } else {
        Err(ConvertError::UnsupportedActionStatus(String::from_str(value)))
    }
}

// ----- window filters and profiles -----

/// An empty string is none.
pub open spec fn none_if_empty_spec(s: Seq<char>) -> Option<Seq<char>> {
    if s.len() == 0 {
        None
    } else {
        Some(s)
    }
}

/// An empty string is none.
pub fn none_if_empty(value: String) -> (r: Option<String>)
    ensures
        opt_view(r) == none_if_empty_spec(value@),
{
    if value.unicode_len() == 0 {
        None
    } else {
        Some(value)
    }
}

/// None as an empty string.
pub open spec fn or_empty(o: Option<Seq<char>>) -> Seq<char> {
    match o {
        Some(s) => s,
        None => Seq::empty(),
    }
}

fn string_or_empty(o: &Option<String>) -> (r: String)
    ensures
        r@ == or_empty(opt_view(*o)),
{
    match o {
        Some(s) => s.clone(),
        None => String::new(),
    }
}

/// The window locator a wire filter describes.
pub open spec fn filter_locator(f: pb::WindowFilter) -> WindowLocatorV {
    WindowLocatorV {
        window_id: none_if_empty_spec(f.window_id@),
        title: none_if_empty_spec(f.title@),
        pid: if f.pid != 0 {
            Some(f.pid)
        } else {
            None
        },
        process_name: none_if_empty_spec(f.process_name@),
        class_name: none_if_empty_spec(f.class_name@),
    }
}

/// The session profile a wire profile describes, when its numbers are known.
pub open spec fn profile_of(p: pb::SessionProfile) -> Result<ProfileV, ConvertErrorV> {
    match (scope_of(p.observation_scope), domain_of(p.domain_profile)) {
        (None, _) => Err(ConvertErrorV::InvalidEnumValue { field: "observation_scope"@, value: p.observation_scope }),
        (Some(_), None) => Err(ConvertErrorV::InvalidEnumValue { field: "domain_profile"@, value: p.domain_profile }),
        (Some(sc), Some(dp)) => Ok(
            ProfileV {
                observation_scope: sc,
                domain_profile: dp,
                target_filter: match p.target_filter {
                    Some(f) => Some(filter_locator(f)),
                    None => None,
                },
            },
        ),
    }
}

/// The observation scope a wire number names.
pub open spec fn scope_of(v: i32) -> Option<ObservationScope> {
    if v == pb::SCOPE_DESKTOP {
        Some(ObservationScope::Desktop)
    } else if v == pb::SCOPE_ATTACHED_WINDOWS {
        Some(ObservationScope::AttachedWindows)
    } else {
        None
    }
}

/// The domain profile a wire number names.
pub open spec fn domain_of(v: i32) -> Option<DomainProfile> {
    if v == pb::PROFILE_GENERIC {
        Some(DomainProfile::Generic)
    } else if v == pb::PROFILE_ONEC_ENTERPRISE_UI {
        Some(DomainProfile::OnecEnterpriseUi)
    } else if v == pb::PROFILE_ONEC_CONFIGURATOR {
        Some(DomainProfile::OnecConfigurator)
    } else {
        None
    }
}

/// The capture policy a wire number names.
pub open spec fn capture_of(v: i32) -> Option<CapturePolicy> {
    if v == pb::CAPTURE_NEVER {
        Some(CapturePolicy::Never)
    } else if v == pb::CAPTURE_ON_FAILURE {
        Some(CapturePolicy::OnFailure)
    } else if v == pb::CAPTURE_ALWAYS {
        Some(CapturePolicy::Always)
    } else {
        None
    }
}

/// A wire filter holds a window locator: absent fields as empty or zero.
pub open spec fn filter_encodes(f: pb::WindowFilter, w: WindowLocatorV) -> bool {
    &&& f.window_id@ == or_empty(w.window_id)
    &&& f.pid == (match w.pid {
        Some(p) => p,
        None => 0,
    })
    &&& f.process_name@ == or_empty(w.process_name)
    &&& f.title@ == or_empty(w.title)
    &&& f.class_name@ == or_empty(w.class_name)
}

/// A wire profile holds a session profile.
pub open spec fn profile_encodes(p: pb::SessionProfile, v: ProfileV) -> bool {
    &&& p.observation_scope == scope_code(v.observation_scope)
    &&& p.domain_profile == profile_code(v.domain_profile)
    &&& match (p.target_filter, v.target_filter) {
        (Some(f), Some(w)) => filter_encodes(f, w),
        (None, None) => true,
        _ => false,
    }
}

/// The wire filter of a window locator: absent fields become empty or zero.
pub fn window_filter_to_pb(w: &WindowLocator) -> (r: pb::WindowFilter)
    ensures
        filter_encodes(r, w@),
        r.window_id@ == or_empty(w@.window_id),
        r.pid == (match w.pid {
            Some(p) => p,
            None => 0,
        }),
        r.process_name@ == or_empty(w@.process_name),
        r.title@ == or_empty(w@.title),
        r.class_name@ == or_empty(w@.class_name),
{
    let wid: Option<String> = match &w.window_id {
        Some(x) => Some(x.0.clone()),
        None => None,
    };
    pb::WindowFilter {
        window_id: string_or_empty(&wid),
        pid: match w.pid {
            Some(p) => p,
            None => 0,
        },
        process_name: string_or_empty(&w.process_name),
        title: string_or_empty(&w.title),
        class_name: string_or_empty(&w.class_name),
    }
}

/// The window locator of a wire filter: empty strings and a zero pid are absent.
pub fn window_filter_from_pb(f: pb::WindowFilter) -> (r: WindowLocator)
    ensures
        r@ == filter_locator(f),
{
    let pid = f.pid;
    WindowLocator {
        window_id: match none_if_empty(f.window_id) {
            Some(x) => Some(WindowId(x)),
            None => None,
        },
        title: none_if_empty(f.title),
        pid: if pid != 0 {
            Some(pid)
        } else {
            None
        },
        process_name: none_if_empty(f.process_name),
        class_name: none_if_empty(f.class_name),
    }
}

/// The wire form of a session profile.
pub fn session_profile_to_pb(p: &SessionProfile) -> (r: pb::SessionProfile)
    ensures
        r.observation_scope == scope_code(p.observation_scope),
        r.domain_profile == profile_code(p.domain_profile),
        r.target_filter is Some <==> p.target_filter is Some,
        profile_encodes(r, p@),
{
    pb::SessionProfile {
        observation_scope: match p.observation_scope {
            ObservationScope::Desktop => pb::SCOPE_DESKTOP,
            ObservationScope::AttachedWindows => pb::SCOPE_ATTACHED_WINDOWS,
        },
        domain_profile: match p.domain_profile {
            DomainProfile::Generic => pb::PROFILE_GENERIC,
            DomainProfile::OnecEnterpriseUi => pb::PROFILE_ONEC_ENTERPRISE_UI,
            DomainProfile::OnecConfigurator => pb::PROFILE_ONEC_CONFIGURATOR,
        },
        target_filter: match &p.target_filter {
            Some(f) => Some(window_filter_to_pb(f)),
            None => None,
        },
    }
}

/// The session profile of its wire form: scope, then profile, must be known values.
pub fn session_profile_from_pb(p: pb::SessionProfile) -> (r: Result<SessionProfile, ConvertError>)
    ensures
        match r {
            Ok(s) => profile_of(p) == Ok::<ProfileV, ConvertErrorV>(s@),
            Err(e) => profile_of(p) == Err::<ProfileV, ConvertErrorV>(e@),
        },
{
    let scope = match decode_observation_scope(p.observation_scope) {
        Ok(s) => s,
        Err(e) => {
            return Err(e);
        },
    };
    let profile = match decode_domain_profile(p.domain_profile) {
        Ok(d) => d,
        Err(e) => {
            return Err(e);
        },
    };
    Ok(SessionProfile {
        observation_scope: scope,
        domain_profile: profile,
        target_filter: match p.target_filter {
            Some(f) => Some(window_filter_from_pb(f)),
            None => None,
        },
    })
}

/// A required session profile.
pub open spec fn required_profile(value: Option<pb::SessionProfile>) -> Result<ProfileV, ConvertErrorV> {
    match value {
        Some(p) => profile_of(p),
        None => Err(ConvertErrorV::MissingField("session_profile"@)),
    }
}

/// A required session profile.
pub(crate) fn decode_session_profile(value: Option<pb::SessionProfile>) -> (r: Result<SessionProfile, ConvertError>)
    ensures
        match r {
            Ok(s) => required_profile(value) == Ok::<ProfileV, ConvertErrorV>(s@),
            Err(e) => required_profile(value) == Err::<ProfileV, ConvertErrorV>(e@),
        },
{
    match value {
        Some(p) => session_profile_from_pb(p),
        None => Err(ConvertError::MissingField(String::from_str("session_profile"))),
    }
}

/// View of an action request.
pub struct RequestV {
    pub action_id: Seq<char>,
    pub timeout_ms: u64,
    pub target: TargetV,
    pub kind: KindV,
    pub capture_policy: CapturePolicy,
}

impl View for ActionRequest {
    type V = RequestV;

    open spec fn view(&self) -> RequestV {
        RequestV {
            action_id: self.action_id@,
            timeout_ms: self.timeout_ms,
            target: self.target@,
            kind: self.kind@,
            capture_policy: self.capture_policy,
        }
    }
}

/// The text of a kind's payload; empty for kinds without options.
pub open spec fn payload_text(k: KindV) -> Seq<char> {
    match kind_payload(k) {
        Some(j) => json_text(j),
        None => Seq::empty(),
    }
}

/// The value a JSON field holds; an empty field holds null.
pub open spec fn json_field_value(text: Seq<char>) -> Option<JsonV> {
    if text.len() == 0 {
        Some(JsonV::Null)
    } else {
        parse_json(text)
    }
}

/// The action kind a wire name and payload describe.
pub open spec fn decode_kind(name: Seq<char>, payload: Seq<char>) -> Result<KindV, ConvertErrorV> {
    if is_unit_kind(name) {
        Ok(unit_kind(name))
    } else if is_payload_kind(name) {
        match json_field_value(payload) {
            Some(j) => match kind_from(name, j) {
                Some(k) => Ok(k),
                None => Err(ConvertErrorV::InvalidJson { field: "action_request.payload_json"@ }),
            },
            None => Err(ConvertErrorV::InvalidJson { field: "action_request.payload_json"@ }),
        }
    } else {
        Err(ConvertErrorV::UnsupportedActionKind(name))
    }
}

/// The action request a wire request describes: the target, then the kind,
/// then the capture policy are decoded, and the first failure is the error.
pub open spec fn decode_request(p: pb::ActionRequest) -> Result<RequestV, ConvertErrorV> {
    let target = match json_field_value(p.target_json@) {
        Some(j) => target_of(j),
        None => None,
    };
    match target {
        None => Err(ConvertErrorV::InvalidJson { field: "action_request.target_json"@ }),
        Some(t) => match decode_kind(p.kind@, p.payload_json@) {
            Err(e) => Err(e),
            Ok(k) => match capture_of(p.capture_policy) {
                None => Err(ConvertErrorV::InvalidEnumValue { field: "capture_policy"@, value: p.capture_policy }),
                Some(c) => Ok(RequestV { action_id: p.action_id@, timeout_ms: p.timeout_ms, target: t, kind: k, capture_policy: c }),
            },
        },
    }
}

/// The value a JSON field holds; `None` when the text is not JSON.
fn json_field(text: &str) -> (r: Option<JsonValue>)
    ensures
        match r {
            Some(j) => json_field_value(text@) == Some(j@),
            None => json_field_value(text@) is None,
        },
{
    if text.unicode_len() == 0 {
        Some(JsonValue::Null)
    } else {
        parse_json_text(text)
    }
}

/// The compact text of a value.
fn json_string(j: &JsonValue) -> (r: String)
    ensures
        r@ == json_text(j@),
{
    let mut out = String::new();
    write_json(&mut out, j);
    out
}

/// A wire request holds an action request: the kind's name, the target and
/// the options as JSON text (no text for kinds without options), the
/// policy's number.
pub open spec fn request_encodes(p: pb::ActionRequest, r: RequestV) -> bool {
    &&& p.action_id@ == r.action_id
    &&& p.kind@ == kind_name(r.kind)
    &&& p.target_json@ == json_text(target_json(r.target))
    &&& p.payload_json@ == payload_text(r.kind)
    &&& p.timeout_ms == r.timeout_ms
    &&& p.capture_policy == capture_code(r.capture_policy)
}

/// The wire form of an action request (see `request_encodes`).
pub fn encode_action_request(value: &ActionRequest) -> (r: Result<pb::ActionRequest, ConvertError>)
    ensures
        r matches Ok(p) && request_encodes(p, value@),
{
    let payload_json = match action_kind_payload(&value.kind) {
        Some(j) => json_string(&j),
        None => String::new(),
    };
    let target = target_to_json(&value.target);
    Ok(pb::ActionRequest {
        action_id: value.action_id.0.clone(),
        kind: String::from_str(action_kind_name(&value.kind)),
        target_json: json_string(&target),
        payload_json,
        timeout_ms: value.timeout_ms,
        capture_policy: encode_capture_policy(value.capture_policy),
    })
}

/// The action kind a wire name and payload describe (see `decode_kind`).
pub fn parse_action_kind(kind: &str, payload_json: &str) -> (r: Result<ActionKind, ConvertError>)
    ensures
        match r {
            Ok(k) => decode_kind(kind@, payload_json@) == Ok::<KindV, ConvertErrorV>(k@),
            Err(e) => decode_kind(kind@, payload_json@) == Err::<KindV, ConvertErrorV>(e@),
        },
{
    if str_equal(kind, "list_windows") {
        Ok(ActionKind::ListWindows)
    } else if str_equal(kind, "focus_window") {
        Ok(ActionKind::FocusWindow)
    } else if str_equal(kind, "invoke") {
        Ok(ActionKind::Invoke)
    } else if str_equal(kind, "get_tree") || str_equal(kind, "get_runtime_status") || str_equal(kind, "click_element")
        || str_equal(kind, "set_value") || str_equal(kind, "send_keys") || str_equal(kind, "wait_for") || str_equal(
        kind,
        "capture_region",
    ) || str_equal(kind, "ocr_region") || str_equal(kind, "write_artifact") || str_equal(
        kind,
        "collect_diagnostic_bundle",
    ) || str_equal(kind, "panel_probe") {
        assert(is_payload_kind(kind@));
        match json_field(payload_json) {
            Some(j) => match action_kind_from(kind, &j) {
                Ok(k) => Ok(k),
                Err(_) => Err(ConvertError::InvalidJson { field: String::from_str("action_request.payload_json") }),
            },
            None => Err(ConvertError::InvalidJson { field: String::from_str("action_request.payload_json") }),
        }
    } else {
        assert(!is_unit_kind(kind@) && !is_payload_kind(kind@));
        Err(ConvertError::UnsupportedActionKind(String::from_str(kind)))
    }
}

/// The action request a wire request describes (see `decode_request`).
pub fn decode_action_request(value: pb::ActionRequest) -> (r: Result<ActionRequest, ConvertError>)
    ensures
        match r {
            Ok(x) => decode_request(value) == Ok::<RequestV, ConvertErrorV>(x@),
            Err(e) => decode_request(value) == Err::<RequestV, ConvertErrorV>(e@),
        },
{
    let target = match json_field(value.target_json.as_str()) {
        Some(j) => match target_from_json(&j) {
            Ok(t) => t,
            Err(_) => {
                return Err(ConvertError::InvalidJson { field: String::from_str("action_request.target_json") });
            },
        },
        None => {
            return Err(ConvertError::InvalidJson { field: String::from_str("action_request.target_json") });
        },
    };
    let kind = match parse_action_kind(value.kind.as_str(), value.payload_json.as_str()) {
        Ok(k) => k,
        Err(e) => {
            return Err(e);
        },
    };
    let capture_policy = match decode_capture_policy(value.capture_policy) {
        Ok(c) => c,
        Err(e) => {
            return Err(e);
        },
    };
    Ok(ActionRequest { action_id: ActionId(value.action_id), timeout_ms: value.timeout_ms, target, kind, capture_policy })
}

/// The greeting a wire greeting describes.
pub fn decode_hello(value: pb::Hello) -> (r: Result<Hello, ConvertError>)
    ensures
        match r {
            Ok(h) => h.client_name@ == value.client_name@ && h.client_version@ == value.client_version@
                && required_profile(value.requested_profile) == Ok::<ProfileV, ConvertErrorV>(h.requested_profile@),
            Err(e) => required_profile(value.requested_profile) == Err::<ProfileV, ConvertErrorV>(e@),
        },
{
    match decode_session_profile(value.requested_profile) {
        Ok(p) => Ok(Hello { client_name: value.client_name, client_version: value.client_version, requested_profile: p }),
        Err(e) => Err(e),
    }
}

/// A wire answer holds a greeting's answer.
pub open spec fn ack_encodes(a: pb::HelloAck, h: HelloAck) -> bool {
    &&& a.session_id@ == h.session_id@
    &&& a.server_version@ == h.server_version@
    &&& a.backend_id@ == h.backend_id@
    &&& a.capabilities@.map_values(|c: String| c@) == h.capabilities@.map_values(|c: String| c@)
    &&& a.negotiated_profile matches Some(p) && profile_encodes(p, h.negotiated_profile@)
}

/// The wire form of a greeting's answer.
pub fn encode_hello_ack(value: &HelloAck) -> (r: pb::HelloAck)
    ensures
        r.session_id@ == value.session_id@,
        r.server_version@ == value.server_version@,
        r.backend_id@ == value.backend_id@,
        r.capabilities@.map_values(|c: String| c@) == value.capabilities@.map_values(|c: String| c@),
        r.negotiated_profile matches Some(p) && p.observation_scope == scope_code(value.negotiated_profile.observation_scope)
            && p.domain_profile == profile_code(value.negotiated_profile.domain_profile),
        ack_encodes(r, *value),
{
    let caps = crate::text::copy_strings(&value.capabilities);
    assert(caps@.map_values(|c: String| c@) =~= value.capabilities@.map_values(|c: String| c@));
    pb::HelloAck {
        session_id: value.session_id.0.clone(),
        server_version: value.server_version.clone(),
        backend_id: value.backend_id.clone(),
        capabilities: caps,
        negotiated_profile: Some(session_profile_to_pb(&value.negotiated_profile)),
    }
}

/// The greeting answer a wire answer describes.
pub fn decode_hello_ack(value: pb::HelloAck) -> (r: Result<HelloAck, ConvertError>)
    ensures
        match r {
            Ok(h) => h.session_id@ == value.session_id@ && h.server_version@ == value.server_version@
                && h.backend_id@ == value.backend_id@ && h.capabilities == value.capabilities
                && required_profile(value.negotiated_profile) == Ok::<ProfileV, ConvertErrorV>(h.negotiated_profile@),
            Err(e) => required_profile(value.negotiated_profile) == Err::<ProfileV, ConvertErrorV>(e@),
        },
{
    match decode_session_profile(value.negotiated_profile) {
        Ok(p) => Ok(
            HelloAck {
                session_id: SessionId(value.session_id),
                server_version: value.server_version,
                backend_id: value.backend_id,
                capabilities: value.capabilities,
                negotiated_profile: p,
            },
        ),
        Err(e) => Err(e),
    }
}

/// The wire form of an artifact descriptor.
pub fn encode_artifact_ready(value: &ArtifactDescriptor) -> (r: pb::ArtifactReady)
    ensures
        r.artifact_id@ == value.artifact_id@,
        r.kind@ == value.kind@,
        r.mime_type@ == value.mime_type@,
        r.size_bytes == value.size_bytes,
{
    pb::ArtifactReady {
        artifact_id: value.artifact_id.0.clone(),
        kind: value.kind.clone(),
        mime_type: value.mime_type.clone(),
        size_bytes: value.size_bytes,
    }
}

/// The descriptor a wire announcement describes.
pub fn decode_artifact_ready(value: pb::ArtifactReady) -> (r: ArtifactDescriptor)
    ensures
        r.artifact_id@ == value.artifact_id@,
        r.kind == value.kind,
        r.mime_type == value.mime_type,
        r.size_bytes == value.size_bytes,
{
    ArtifactDescriptor {
        artifact_id: ArtifactId(value.artifact_id),
        kind: value.kind,
        mime_type: value.mime_type,
        size_bytes: value.size_bytes,
    }
}

/// A wire announcement describes a descriptor.
pub open spec fn ready_matches(a: pb::ArtifactReady, d: ArtifactDescriptor) -> bool {
    a.artifact_id@ == d.artifact_id@ && a.kind@ == d.kind@ && a.mime_type@ == d.mime_type@ && a.size_bytes == d.size_bytes
}

/// A wire result holds an action result.
pub open spec fn result_encodes(r: pb::ActionResult, a: ActionResult) -> bool {
    &&& r.action_id@ == a.action_id@
    &&& r.ok == a.ok
    &&& r.status@ == status_name(a.status)
    &&& r.message@ == a.message@
    &&& r.artifacts@.len() == a.artifacts@.len()
    &&& forall|i: int| 0 <= i < a.artifacts@.len() ==> #[trigger] ready_matches(r.artifacts@[i], a.artifacts@[i])
}

/// The wire form of an action result: the status as its name.
pub fn encode_action_result(value: &ActionResult) -> (r: pb::ActionResult)
    ensures
        result_encodes(r, *value),
        r.action_id@ == value.action_id@,
        r.ok == value.ok,
        r.status@ == status_name(value.status),
        r.message@ == value.message@,
        r.artifacts@.len() == value.artifacts@.len(),
        forall|i: int| 0 <= i < value.artifacts@.len() ==> #[trigger] ready_matches(r.artifacts@[i], value.artifacts@[i]),
{
    let mut artifacts: Vec<pb::ArtifactReady> = Vec::new();
    let mut i: usize = 0;
    while i < value.artifacts.len()
        invariant
            i <= value.artifacts@.len(),
            artifacts@.len() == i,
            forall|k: int| 0 <= k < i ==> #[trigger] ready_matches(artifacts@[k], value.artifacts@[k]),
        decreases value.artifacts@.len() - i,
    {
        artifacts.push(encode_artifact_ready(&value.artifacts[i]));
        i = i + 1;
    }
    let ghost av = artifacts@;
    let r = pb::ActionResult {
        action_id: value.action_id.0.clone(),
        ok: value.ok,
        status: String::from_str(encode_action_status(value.status)),
        message: value.message.clone(),
        artifacts,
    };
    assert(r.artifacts@ == av);
    r
}

/// The action result a wire result describes; an unknown status name is an error.
pub fn decode_action_result(value: pb::ActionResult) -> (r: Result<ActionResult, ConvertError>)
    ensures
        match r {
            Ok(x) => x.action_id@ == value.action_id@ && x.ok == value.ok && status_name(x.status) == value.status@
                && x.message == value.message && x.artifacts@.len() == value.artifacts@.len()
                && forall|i: int| 0 <= i < value.artifacts@.len() ==> #[trigger] ready_matches(value.artifacts@[i], x.artifacts@[i]),
            Err(e) => value.status@ != "completed"@ && value.status@ != "failed"@ && value.status@ != "timed_out"@
                && value.status@ != "unsupported"@ && e@ == ConvertErrorV::UnsupportedActionStatus(value.status@),
        },
{
    let status = match decode_action_status(value.status.as_str()) {
        Ok(s) => s,
        Err(e) => {
            return Err(e);
        },
    };
    let ghost src = value.artifacts@;
    let mut input = value.artifacts;
    let mut artifacts: Vec<ArtifactDescriptor> = Vec::new();
    let n = input.len();
    let mut i: usize = 0;
    while input.len() > 0
        invariant
            i + input@.len() == n == src.len(),
            input@ == src.skip(i as int),
            artifacts@.len() == i,
            forall|k: int| 0 <= k < i ==> #[trigger] ready_matches(src[k], artifacts@[k]),
        decreases input@.len(),
    {
        let a = input.remove(0);
        assert(a == src[i as int]);
        assert(input@ =~= src.skip(i + 1));
        artifacts.push(decode_artifact_ready(a));
        i = i + 1;
    }
    Ok(ActionResult { action_id: ActionId(value.action_id), ok: value.ok, status, message: value.message, artifacts })
}

/// The wire form of a warning.
pub fn encode_warning(value: &WarningEvent) -> (r: pb::Warning)
    ensures
        r.code@ == value.code@,
        r.message@ == value.message@,
{
    pb::Warning { code: value.code.clone(), message: value.message.clone() }
}

/// The warning a wire warning describes.
pub fn decode_warning(value: pb::Warning) -> (r: WarningEvent)
    ensures
        r.code == value.code,
        r.message == value.message,
{
    WarningEvent { code: value.code, message: value.message }
}

/// The client message a wire message carries: its payload, converted.
pub fn decode_client_message(value: pb::ClientMsg) -> (r: Result<ClientMessage, ConvertError>)
    ensures
        value.payload is None ==> result_err(r) == Some(ConvertErrorV::MissingPayload),
        value.payload matches Some(pb::ClientPayload::Hello(h)) ==> match r {
            Ok(ClientMessage::Hello(x)) => x.client_name@ == h.client_name@ && x.client_version@ == h.client_version@
                && required_profile(h.requested_profile) == Ok::<ProfileV, ConvertErrorV>(x.requested_profile@),
            Ok(_) => false,
            Err(e) => required_profile(h.requested_profile) == Err::<ProfileV, ConvertErrorV>(e@),
        },
        value.payload matches Some(pb::ClientPayload::Subscribe(s)) ==> r matches Ok(ClientMessage::Subscribe(x))
            && x.include_initial_snapshot == s.include_initial_snapshot && x.include_diff_stream == s.include_diff_stream
            && x.shallow == s.shallow,
        value.payload matches Some(pb::ClientPayload::ActionRequest(a)) ==> match r {
            Ok(ClientMessage::ActionRequest(x)) => decode_request(a) == Ok::<RequestV, ConvertErrorV>(x@),
            Ok(_) => false,
            Err(e) => decode_request(a) == Err::<RequestV, ConvertErrorV>(e@),
        },
        value.payload matches Some(pb::ClientPayload::ReadArtifact(q)) ==> r matches Ok(ClientMessage::ReadArtifact(x))
            && x.artifact_id@ == q.artifact_id@,
        value.payload matches Some(pb::ClientPayload::Ping(_)) ==> r matches Ok(ClientMessage::Ping),
{
    match value.payload {
        None => Err(ConvertError::MissingPayload),
        Some(pb::ClientPayload::Hello(h)) => match decode_hello(h) {
            Ok(x) => Ok(ClientMessage::Hello(x)),
            Err(e) => Err(e),
        },
        Some(pb::ClientPayload::Subscribe(s)) => Ok(
            ClientMessage::Subscribe(
                Subscribe {
                    include_initial_snapshot: s.include_initial_snapshot,
                    include_diff_stream: s.include_diff_stream,
                    shallow: s.shallow,
                },
            ),
        ),
        Some(pb::ClientPayload::ActionRequest(a)) => match decode_action_request(a) {
            Ok(x) => Ok(ClientMessage::ActionRequest(x)),
            Err(e) => Err(e),
        },
        Some(pb::ClientPayload::ReadArtifact(q)) => Ok(
            ClientMessage::ReadArtifact(ReadArtifactRequest { artifact_id: ArtifactId(q.artifact_id) }),
        ),
        Some(pb::ClientPayload::Ping(_)) => Ok(ClientMessage::Ping),
    }
}

/// Decoding an action request's wire form gives the request back: whatever
/// its target, kind, options and capture policy, the wire request that
/// `encode_action_request` writes decodes to the same request.
pub proof fn lemma_action_request_roundtrip(p: pb::ActionRequest, r: RequestV)
    requires
        request_encodes(p, r),
    ensures
        decode_request(p) == Ok::<RequestV, ConvertErrorV>(r),
{
    lemma_target_json(r.target, MAX_DEPTH as nat);
    lemma_text_start(target_json(r.target), MAX_DEPTH as nat);
    lemma_parse_json_text(target_json(r.target));
    lemma_kind_names();
    match kind_payload(r.kind) {
        Some(j) => {
            lemma_kind_payload(r.kind, MAX_DEPTH as nat);
            lemma_text_start(j, MAX_DEPTH as nat);
            lemma_parse_json_text(j);
        },
        None => {},
    }
}

/// A session profile that survives the wire: its window filter, if any,
/// has no empty text and no zero pid.
pub open spec fn profile_survives(v: ProfileV) -> bool {
    match v.target_filter {
        Some(f) => {
            &&& f.window_id matches Some(t) ==> t.len() > 0
            &&& f.title matches Some(t) ==> t.len() > 0
            &&& f.pid != Some(0u32)
            &&& f.process_name matches Some(t) ==> t.len() > 0
            &&& f.class_name matches Some(t) ==> t.len() > 0
        },
        None => true,
    }
}

/// A surviving profile reads back from its wire form.
pub proof fn lemma_profile_roundtrip(q: pb::SessionProfile, v: ProfileV)
    requires
        profile_encodes(q, v),
        profile_survives(v),
    ensures
        required_profile(Some(q)) == Ok::<ProfileV, ConvertErrorV>(v),
{
    match (q.target_filter, v.target_filter) {
        (Some(f), Some(w)) => {
            assert(filter_locator(f) =~= w);
        },
        _ => {},
    }
    match profile_of(q) {
        Ok(x) => {
            assert(x =~= v);
        },
        Err(_) => {},
    }
}

} // verus!
