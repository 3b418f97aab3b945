//! The wire messages of the daemon's streaming RPC, as plain structs: enums
//! are their numbers, absent strings are empty, and structured fields that
//! the messages carry as JSON are strings. Element property values, whose
//! JSON holds floating-point numbers, are carried decoded: the transport
//! reads and writes their JSON text.
use vstd::prelude::*;

use crate::protocol::PropertyValue;

verus! {

/// Number of the unspecified value of every wire enum.
pub const ENUM_UNSPECIFIED: i32 = 0;

/// Wire numbers of the observation scope.
pub const SCOPE_DESKTOP: i32 = 1;
pub const SCOPE_ATTACHED_WINDOWS: i32 = 2;

/// Wire numbers of the domain profile.
pub const PROFILE_GENERIC: i32 = 1;
pub const PROFILE_ONEC_ENTERPRISE_UI: i32 = 2;
pub const PROFILE_ONEC_CONFIGURATOR: i32 = 3;

/// Wire numbers of the capture policy.
pub const CAPTURE_NEVER: i32 = 1;
pub const CAPTURE_ON_FAILURE: i32 = 2;
pub const CAPTURE_ALWAYS: i32 = 3;

/// Which windows a session observes, by filter fields (empty or zero: any).
#[derive(Clone, Debug, PartialEq, Eq, Default)]
pub struct WindowFilter {
    pub window_id: String,
    pub pid: u32,
    pub process_name: String,
    pub title: String,
    pub class_name: String,
}

/// The observation profile.
#[derive(Clone, Debug, PartialEq, Eq, Default)]
pub struct SessionProfile {
    pub observation_scope: i32,
    pub domain_profile: i32,
    pub target_filter: Option<WindowFilter>,
}

/// A client's greeting.
#[derive(Clone, Debug, PartialEq, Eq, Default)]
pub struct Hello {
    pub client_name: String,
    pub client_version: String,
    pub requested_profile: Option<SessionProfile>,
}

/// The daemon's answer to a greeting.
#[derive(Clone, Debug, PartialEq, Eq, Default)]
pub struct HelloAck {
    pub session_id: String,
    pub server_version: String,
    pub backend_id: String,
    pub capabilities: Vec<String>,
    pub negotiated_profile: Option<SessionProfile>,
}

/// A subscription request.
#[derive(Clone, Copy, Debug, PartialEq, Eq, Default)]
pub struct Subscribe {
    pub include_initial_snapshot: bool,
    pub include_diff_stream: bool,
    pub shallow: bool,
}

/// An action request; target and options travel as JSON.
#[derive(Clone, Debug, PartialEq, Eq, Default)]
pub struct ActionRequest {
    pub action_id: String,
    pub kind: String,
    pub target_json: String,
    pub payload_json: String,
    pub timeout_ms: u64,
    pub capture_policy: i32,
}

/// A request for an artifact's bytes.
#[derive(Clone, Debug, PartialEq, Eq, Default)]
pub struct ReadArtifactRequest {
    pub artifact_id: String,
}

/// A message with no fields.
#[derive(Clone, Copy, Debug, PartialEq, Eq, Default)]
pub struct Empty {}

/// What a client message carries.
#[derive(Clone, Debug, PartialEq, Eq)]
pub enum ClientPayload {
    Hello(Hello),
    Subscribe(Subscribe),
    ActionRequest(ActionRequest),
    ReadArtifact(ReadArtifactRequest),
    Ping(Empty),
}

/// A message from the client.
#[derive(Clone, Debug, PartialEq, Eq, Default)]
pub struct ClientMsg {
    pub payload: Option<ClientPayload>,
}

/// A stored artifact announced to the client.
#[derive(Clone, Debug, PartialEq, Eq, Default)]
pub struct ArtifactReady {
    pub artifact_id: String,
    pub kind: String,
    pub mime_type: String,
    pub size_bytes: u64,
}

/// The outcome of an action.
#[derive(Clone, Debug, PartialEq, Eq, Default)]
pub struct ActionResult {
    pub action_id: String,
    pub ok: bool,
    pub status: String,
    pub message: String,
    pub artifacts: Vec<ArtifactReady>,
}

/// A warning.
#[derive(Clone, Debug, PartialEq, Eq, Default)]
pub struct Warning {
    pub code: String,
    pub message: String,
}

/// A rectangle on the wire.
#[derive(Clone, Copy, Debug, PartialEq, Eq, Default)]
pub struct Bounds {
    pub left: i32,
    pub top: i32,
    pub width: i32,
    pub height: i32,
}

/// Element states on the wire.
#[derive(Clone, Copy, Debug, PartialEq, Eq, Default)]
pub struct ElementStates {
    pub enabled: bool,
    pub visible: bool,
    pub focused: bool,
    pub selected: bool,
    pub expanded: bool,
    pub toggled: bool,
}

/// A locator step on the wire; a zero ordinal is absent.
#[derive(Clone, Debug, PartialEq, Eq, Default)]
pub struct LocatorSegment {
    pub control_type: String,
    pub class_name: String,
    pub automation_id: String,
    pub name: String,
    pub sibling_ordinal: u32,
}

/// A locator on the wire.
#[derive(Clone, Debug, PartialEq, Eq, Default)]
pub struct Locator {
    pub window_fingerprint: String,
    pub path: Vec<LocatorSegment>,
}

/// An element property; `value` is `None` when the message carried no JSON text for it.
#[derive(Clone, Debug, PartialEq)]
pub struct Property {
    pub key: String,
    pub value: Option<PropertyValue>,
}

/// An element subtree on the wire; the confidence is the bits of a single.
#[derive(Debug, PartialEq)]
pub struct ElementNode {
    pub element_id: String,
    pub parent_id: String,
    pub backend: String,
    pub control_type: String,
    pub class_name: String,
    pub name: String,
    pub automation_id: String,
    pub native_window_handle: u64,
    pub bounds: Option<Bounds>,
    pub locator: Option<Locator>,
    pub properties: Vec<Property>,
    pub states: Option<ElementStates>,
    pub children: Vec<ElementNode>,
    pub confidence_bits: u32,
}

/// A top-level window on the wire.
#[derive(Debug, PartialEq, Default)]
pub struct WindowNode {
    pub window_id: String,
    pub pid: u32,
    pub process_name: String,
    pub title: String,
    pub bounds: Option<Bounds>,
    pub root: Option<ElementNode>,
    pub backend: String,
    pub confidence_bits: u32,
}

/// A full snapshot on the wire.
#[derive(Debug, PartialEq, Default)]
pub struct InitialSnapshot {
    pub session_id: String,
    pub rev: u64,
    pub profile: Option<SessionProfile>,
    pub captured_at_unix_ms: i64,
    pub windows: Vec<WindowNode>,
}

/// One diff operation on the wire: `op` names it, and the fields it does not use are empty.
#[derive(Debug, PartialEq, Default)]
pub struct DiffOp {
    pub op: String,
    pub element_id: String,
    pub parent_id: String,
    pub field: String,
    pub value: Option<PropertyValue>,
    pub node: Option<ElementNode>,
    pub window: Option<WindowNode>,
    pub window_id: String,
    pub reason: String,
}

/// A diff batch on the wire.
#[derive(Debug, PartialEq, Default)]
pub struct DiffBatch {
    pub base_rev: u64,
    pub new_rev: u64,
    pub emitted_at_unix_ms: i64,
    pub ops: Vec<DiffOp>,
}

/// What a server message carries.
#[derive(Debug, PartialEq)]
pub enum ServerPayload {
    HelloAck(HelloAck),
    InitialSnapshot(InitialSnapshot),
    DiffBatch(DiffBatch),
    ActionResult(ActionResult),
    ArtifactReady(ArtifactReady),
    Warning(Warning),
    Pong(Empty),
}

/// A message from the daemon.
#[derive(Debug, PartialEq, Default)]
pub struct ServerMsg {
    pub payload: Option<ServerPayload>,
}

} // verus!
