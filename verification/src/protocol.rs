//! Domain model shared by the daemon, the wire codecs and the MCP adapter.
//!
//! Instants are carried as Unix milliseconds and confidences as the IEEE-754
//! bit pattern of the value as a double (`f64::to_bits`), so that every value
//! here is an integer, a string or a composition of them.
use vstd::prelude::*;

use crate::ids::{uuid_text, uuid_v4_text};

verus! {

/// Monotonic revision of a session's UI state.
pub type Revision = u64;

/// Identifier of an action request.
#[derive(Clone, Debug, PartialEq, Eq, PartialOrd, Ord, Hash)]
pub struct ActionId(pub String);

/// Identifier of a stored artifact.
#[derive(Clone, Debug, PartialEq, Eq, PartialOrd, Ord, Hash)]
pub struct ArtifactId(pub String);

/// Identifier of a UI element.
#[derive(Clone, Debug, PartialEq, Eq, PartialOrd, Ord, Hash)]
pub struct ElementId(pub String);

/// Identifier of a client request.
#[derive(Clone, Debug, PartialEq, Eq, PartialOrd, Ord, Hash)]
pub struct RequestId(pub String);

/// Identifier of a daemon session.
#[derive(Clone, Debug, PartialEq, Eq, PartialOrd, Ord, Hash)]
pub struct SessionId(pub String);

/// Identifier of a top-level window.
#[derive(Clone, Debug, PartialEq, Eq, PartialOrd, Ord, Hash)]
pub struct WindowId(pub String);

impl View for ActionId {
    type V = Seq<char>;

    open spec fn view(&self) -> Seq<char> {
        self.0@
    }
}

impl View for ArtifactId {
    type V = Seq<char>;

    open spec fn view(&self) -> Seq<char> {
        self.0@
    }
}

impl View for ElementId {
    type V = Seq<char>;

    open spec fn view(&self) -> Seq<char> {
        self.0@
    }
}

impl View for RequestId {
    type V = Seq<char>;

    open spec fn view(&self) -> Seq<char> {
        self.0@
    }
}

impl View for SessionId {
    type V = Seq<char>;

    open spec fn view(&self) -> Seq<char> {
        self.0@
    }
}

impl View for WindowId {
    type V = Seq<char>;

    open spec fn view(&self) -> Seq<char> {
        self.0@
    }
}

/// The identifier `prefix-<uuid>` for the UUID built from `random`:
/// the prefix, `-`, then the UUID's 36 characters.
pub open spec fn prefixed_id(prefix: Seq<char>, random: u128) -> Seq<char> {
    prefix + "-"@ + uuid_text(random)
}

/// Builds `prefix-<uuid>` from random bits (see `prefixed_id`).
fn prefixed_id_text(prefix: &str, random: u128) -> (r: String)
    ensures
        r@ == prefixed_id(prefix@, random),
        r@.len() == prefix@.len() + 37,
{
    let suffix = uuid_v4_text(random);
    let mut text = String::from_str(prefix);
    text.append("-");
    proof {
        reveal_strlit("-");
    }
    text.append(suffix.as_str());
    text
}

impl ActionId {
    /// The identifier `prefix-<uuid>` for the version-4 UUID built from
    /// the random bits `random`.
    pub fn new(prefix: &str, random: u128) -> (r: Self)
        ensures
            r@ == prefixed_id(prefix@, random),
    {
        ActionId(prefixed_id_text(prefix, random))
    }

    /// Wraps an owned string.
    pub fn from_string(value: String) -> (r: Self)
        ensures
            r.0 == value,
    {
        ActionId(value)
    }

    /// Copies a string slice into an identifier.
    pub fn from_text(value: &str) -> (r: Self)
        ensures
            r@ == value@,
    {
        ActionId(String::from_str(value))
    }

    /// The identifier text.
    pub fn as_str(&self) -> (r: &str)
        ensures
            r@ == self@,
    {
        self.0.as_str()
    }

    /// The owned identifier text.
    pub fn into_inner(self) -> (r: String)
        ensures
            r == self.0,
    {
        self.0
    }
}

impl ArtifactId {
    /// The identifier `prefix-<uuid>` for the version-4 UUID built from
    /// the random bits `random`.
    pub fn new(prefix: &str, random: u128) -> (r: Self)
        ensures
            r@ == prefixed_id(prefix@, random),
    {
        ArtifactId(prefixed_id_text(prefix, random))
    }

    /// Wraps an owned string.
    pub fn from_string(value: String) -> (r: Self)
        ensures
            r.0 == value,
    {
        ArtifactId(value)
    }

    /// Copies a string slice into an identifier.
    pub fn from_text(value: &str) -> (r: Self)
        ensures
            r@ == value@,
    {
        ArtifactId(String::from_str(value))
    }

    /// The identifier text.
    pub fn as_str(&self) -> (r: &str)
        ensures
            r@ == self@,
    {
        self.0.as_str()
    }

    /// The owned identifier text.
    pub fn into_inner(self) -> (r: String)
        ensures
            r == self.0,
    {
        self.0
    }
}

impl ElementId {
    /// The identifier `prefix-<uuid>` for the version-4 UUID built from
    /// the random bits `random`.
    pub fn new(prefix: &str, random: u128) -> (r: Self)
        ensures
            r@ == prefixed_id(prefix@, random),
    {
        ElementId(prefixed_id_text(prefix, random))
    }

    /// Wraps an owned string.
    pub fn from_string(value: String) -> (r: Self)
        ensures
            r.0 == value,
    {
        ElementId(value)
    }

    /// Copies a string slice into an identifier.
    pub fn from_text(value: &str) -> (r: Self)
        ensures
            r@ == value@,
    {
        ElementId(String::from_str(value))
    }

    /// The identifier text.
    pub fn as_str(&self) -> (r: &str)
        ensures
            r@ == self@,
    {
        self.0.as_str()
    }

    /// The owned identifier text.
    pub fn into_inner(self) -> (r: String)
        ensures
            r == self.0,
    {
        self.0
    }
}

impl RequestId {
    /// The identifier `prefix-<uuid>` for the version-4 UUID built from
    /// the random bits `random`.
    pub fn new(prefix: &str, random: u128) -> (r: Self)
        ensures
            r@ == prefixed_id(prefix@, random),
    {
        RequestId(prefixed_id_text(prefix, random))
    }

    /// Wraps an owned string.
    pub fn from_string(value: String) -> (r: Self)
        ensures
            r.0 == value,
    {
        RequestId(value)
    }

    /// Copies a string slice into an identifier.
    pub fn from_text(value: &str) -> (r: Self)
        ensures
            r@ == value@,
    {
        RequestId(String::from_str(value))
    }

    /// The identifier text.
    pub fn as_str(&self) -> (r: &str)
        ensures
            r@ == self@,
    {
        self.0.as_str()
    }

    /// The owned identifier text.
    pub fn into_inner(self) -> (r: String)
        ensures
            r == self.0,
    {
        self.0
    }
}

impl SessionId {
    /// The identifier `prefix-<uuid>` for the version-4 UUID built from
    /// the random bits `random`.
    pub fn new(prefix: &str, random: u128) -> (r: Self)
        ensures
            r@ == prefixed_id(prefix@, random),
    {
        SessionId(prefixed_id_text(prefix, random))
    }

    /// Wraps an owned string.
    pub fn from_string(value: String) -> (r: Self)
        ensures
            r.0 == value,
    {
        SessionId(value)
    }

    /// Copies a string slice into an identifier.
    pub fn from_text(value: &str) -> (r: Self)
        ensures
            r@ == value@,
    {
        SessionId(String::from_str(value))
    }

    /// The identifier text.
    pub fn as_str(&self) -> (r: &str)
        ensures
            r@ == self@,
    {
        self.0.as_str()
    }

    /// The owned identifier text.
    pub fn into_inner(self) -> (r: String)
        ensures
            r == self.0,
    {
        self.0
    }
}

impl WindowId {
    /// The identifier `prefix-<uuid>` for the version-4 UUID built from
    /// the random bits `random`.
    pub fn new(prefix: &str, random: u128) -> (r: Self)
        ensures
            r@ == prefixed_id(prefix@, random),
    {
        WindowId(prefixed_id_text(prefix, random))
    }

    /// Wraps an owned string.
    pub fn from_string(value: String) -> (r: Self)
        ensures
            r.0 == value,
    {
        WindowId(value)
    }

    /// Copies a string slice into an identifier.
    pub fn from_text(value: &str) -> (r: Self)
        ensures
            r@ == value@,
    {
        WindowId(String::from_str(value))
    }

    /// The identifier text.
    pub fn as_str(&self) -> (r: &str)
        ensures
            r@ == self@,
    {
        self.0.as_str()
    }

    /// The owned identifier text.
    pub fn into_inner(self) -> (r: String)
        ensures
            r == self.0,
    {
        self.0
    }
}

/// Legacy session mode.
#[derive(Clone, Copy, Debug, PartialEq, Eq, Structural)]
pub enum SessionMode {
    EnterpriseUi,
    Configurator,
}

impl Default for SessionMode {
    fn default() -> (r: Self)
        ensures
            r == SessionMode::EnterpriseUi,
    {
        SessionMode::EnterpriseUi
    }
}

/// Which windows a session observes.
#[derive(Clone, Copy, Debug, PartialEq, Eq, Structural)]
pub enum ObservationScope {
    Desktop,
    AttachedWindows,
}

/// Domain-specific interpretation applied to observed windows.
#[derive(Clone, Copy, Debug, PartialEq, Eq, Structural)]
pub enum DomainProfile {
    Generic,
    OnecEnterpriseUi,
    OnecConfigurator,
}

/// Observation profile negotiated at session start.
#[derive(Clone, Debug, PartialEq, Eq)]
pub struct SessionProfile {
    pub observation_scope: ObservationScope,
    pub domain_profile: DomainProfile,
    pub target_filter: Option<WindowLocator>,
}

impl SessionProfile {
    /// Desktop-wide observation of the 1C Enterprise client.
    pub fn onec_enterprise_ui() -> (r: Self)
        ensures
            r.observation_scope == ObservationScope::Desktop,
            r.domain_profile == DomainProfile::OnecEnterpriseUi,
            r.target_filter is None,
    {
        SessionProfile {
            observation_scope: ObservationScope::Desktop,
            domain_profile: DomainProfile::OnecEnterpriseUi,
            target_filter: None,
        }
    }

    /// Desktop-wide observation of the 1C Configurator.
    pub fn onec_configurator() -> (r: Self)
        ensures
            r.observation_scope == ObservationScope::Desktop,
            r.domain_profile == DomainProfile::OnecConfigurator,
            r.target_filter is None,
    {
        SessionProfile {
            observation_scope: ObservationScope::Desktop,
            domain_profile: DomainProfile::OnecConfigurator,
            target_filter: None,
        }
    }

    /// Desktop-wide observation without a domain profile.
    pub fn generic_desktop() -> (r: Self)
        ensures
            r.observation_scope == ObservationScope::Desktop,
            r.domain_profile == DomainProfile::Generic,
            r.target_filter is None,
    {
        SessionProfile {
            observation_scope: ObservationScope::Desktop,
            domain_profile: DomainProfile::Generic,
            target_filter: None,
        }
    }
}

/// Accessibility technology that produced an observation.
#[derive(Clone, Copy, Debug, PartialEq, Eq, Structural)]
pub enum BackendKind {
    Uia,
    Msaa,
    Ocr,
    Mixed,
}

/// A client message with its request identifier.
#[derive(Debug, PartialEq)]
pub struct ClientEnvelope {
    pub request_id: RequestId,
    pub payload: ClientMessage,
}

/// Messages a client sends on a session stream.
#[derive(Debug, PartialEq)]
pub enum ClientMessage {
    Hello(Hello),
    Subscribe(Subscribe),
    ActionRequest(ActionRequest),
    ReadArtifact(ReadArtifactRequest),
    Ping,
}

/// Messages the daemon sends on a session stream.
#[derive(Debug, PartialEq)]
pub enum ServerMessage {
    HelloAck(HelloAck),
    InitialSnapshot(UiSnapshot),
    DiffBatch(UiDiffBatch),
    ActionResult(ActionResult),
    ArtifactReady(ArtifactDescriptor),
    Warning(WarningEvent),
    Pong,
}

/// Session opening request.
#[derive(Clone, Debug, PartialEq, Eq)]
pub struct Hello {
    pub client_name: String,
    pub client_version: String,
    pub requested_profile: SessionProfile,
}

/// Session opening acknowledgement.
#[derive(Clone, Debug, PartialEq, Eq)]
pub struct HelloAck {
    pub session_id: SessionId,
    pub server_version: String,
    pub backend_id: String,
    pub capabilities: Vec<String>,
    pub negotiated_profile: SessionProfile,
}

/// Subscription options.
#[derive(Clone, Copy, Debug, PartialEq, Eq, Structural)]
pub struct Subscribe {
    pub include_initial_snapshot: bool,
    pub include_diff_stream: bool,
    pub shallow: bool,
}

/// Request for an artifact's bytes.
#[derive(Clone, Debug, PartialEq, Eq)]
pub struct ReadArtifactRequest {
    pub artifact_id: ArtifactId,
}

/// A chunk of an artifact's bytes.
#[derive(Clone, Debug, PartialEq, Eq)]
pub struct ArtifactChunk {
    pub artifact_id: ArtifactId,
    pub data: Vec<u8>,
}

/// A warning raised by the daemon or a backend.
#[derive(Clone, Debug, PartialEq, Eq)]
pub struct WarningEvent {
    pub code: String,
    pub message: String,
}

/// Authoritative UI state of a session at one revision.
#[derive(Debug, PartialEq)]
pub struct UiSnapshot {
    pub session_id: SessionId,
    pub rev: Revision,
    pub profile: SessionProfile,
    pub captured_at_unix_ms: i64,
    pub windows: Vec<WindowState>,
}

/// One observed top-level window.
#[derive(Debug, PartialEq)]
pub struct WindowState {
    pub window_id: WindowId,
    pub pid: u32,
    pub process_name: Option<String>,
    pub title: String,
    pub bounds: Rect,
    pub backend: BackendKind,
    /// `f64::to_bits` of the observation confidence (an `f32` widened exactly).
    pub confidence_bits: u64,
    pub root: ElementNode,
}

/// One observed UI element with its subtree.
#[derive(Debug, PartialEq)]
pub struct ElementNode {
    pub element_id: ElementId,
    pub parent_id: Option<ElementId>,
    pub backend: BackendKind,
    pub control_type: String,
    pub class_name: Option<String>,
    pub name: Option<String>,
    pub automation_id: Option<String>,
    pub native_window_handle: Option<u64>,
    pub bounds: Rect,
    pub locator: Locator,
    /// Extra properties, sorted by key with no key twice.
    pub properties: Vec<(String, PropertyValue)>,
    pub states: ElementStates,
    pub children: Vec<ElementNode>,
    /// `f64::to_bits` of the observation confidence (an `f32` widened exactly).
    pub confidence_bits: u64,
}

/// Boolean element states.
#[derive(Clone, Copy, Debug, PartialEq, Eq, Default, Structural)]
pub struct ElementStates {
    pub enabled: bool,
    pub visible: bool,
    pub focused: bool,
    pub selected: bool,
    pub expanded: bool,
    pub toggled: bool,
}

/// Semantic path of an element inside a window.
#[derive(Clone, Debug, PartialEq, Eq)]
pub struct Locator {
    pub window_fingerprint: String,
    pub path: Vec<LocatorSegment>,
}

/// One step of a locator path.
#[derive(Clone, Debug, PartialEq, Eq)]
pub struct LocatorSegment {
    pub control_type: String,
    pub class_name: Option<String>,
    pub automation_id: Option<String>,
    pub name: Option<String>,
    pub sibling_ordinal: Option<u32>,
}

/// Value of an extra element property.
#[derive(Clone, Debug, PartialEq)]
pub enum PropertyValue {
    Bool(bool),
    I64(i64),
    /// `f64::to_bits` of a floating-point property.
    F64Bits(u64),
    String(String),
    StringList(Vec<String>),
    Rect(Rect),
    Null,
}

/// Screen rectangle.
#[derive(Clone, Copy, Debug, Default, PartialEq, Eq, Structural)]
pub struct Rect {
    pub left: i32,
    pub top: i32,
    pub width: i32,
    pub height: i32,
}

/// Incremental change between two revisions.
#[derive(Debug, PartialEq)]
pub struct UiDiffBatch {
    pub base_rev: Revision,
    pub new_rev: Revision,
    pub emitted_at_unix_ms: i64,
    pub ops: Vec<DiffOp>,
}

/// One incremental change.
#[derive(Debug, PartialEq)]
pub enum DiffOp {
    WindowAdded { window: WindowState },
    WindowRemoved { window_id: WindowId },
    NodeAdded { parent_id: ElementId, node: ElementNode },
    NodeRemoved { element_id: ElementId },
    NodeReplaced { element_id: ElementId, node: ElementNode },
    PropertyChanged { element_id: ElementId, field: String, value: PropertyValue },
    FocusChanged { window_id: WindowId, element_id: Option<ElementId> },
    SnapshotResync { reason: String },
}

/// A request to act on, or read, the UI.
#[derive(Clone, Debug, PartialEq)]
pub struct ActionRequest {
    pub action_id: ActionId,
    pub timeout_ms: u64,
    pub target: ActionTarget,
    pub kind: ActionKind,
    pub capture_policy: CapturePolicy,
}

/// What an action addresses.
#[derive(Clone, Debug, PartialEq)]
pub enum ActionTarget {
    Desktop,
    Window(WindowLocator),
    Element(ElementLocator),
    Region(RegionTarget),
}

/// Selects a window.
#[derive(Clone, Debug, PartialEq, Eq)]
pub struct WindowLocator {
    pub window_id: Option<WindowId>,
    pub title: Option<String>,
    pub pid: Option<u32>,
    pub process_name: Option<String>,
    pub class_name: Option<String>,
}

/// Selects an element.
#[derive(Clone, Debug, PartialEq)]
pub struct ElementLocator {
    pub element_id: Option<ElementId>,
    pub locator: Option<Locator>,
}

/// A rectangle, relative to a window when one is named.
#[derive(Clone, Debug, PartialEq)]
pub struct RegionTarget {
    pub window_id: Option<WindowId>,
    pub bounds: Rect,
}

/// The action to perform.
#[derive(Clone, Debug, PartialEq)]
pub enum ActionKind {
    ListWindows,
    GetTree(TreeRequest),
    GetRuntimeStatus(RuntimeStatusRequest),
    FocusWindow,
    ClickElement(ClickOptions),
    SetValue(SetValueOptions),
    Invoke,
    SendKeys(SendKeysOptions),
    WaitFor(WaitForOptions),
    CaptureRegion(CaptureOptions),
    OcrRegion(OcrOptions),
    WriteArtifact(WriteArtifactOptions),
    CollectDiagnosticBundle(DiagnosticBundleOptions),
    PanelProbe(PanelProbeOptions),
}

/// Tree read options.
#[derive(Clone, Copy, Debug, PartialEq, Eq, Structural)]
pub struct TreeRequest {
    pub raw: bool,
    pub max_depth: Option<u32>,
}

/// Runtime status read options (none so far).
#[derive(Clone, Copy, Debug, Default, PartialEq, Eq, Structural)]
pub struct RuntimeStatusRequest {}

/// Click options.
#[derive(Clone, Copy, Debug, PartialEq, Eq, Structural)]
pub struct ClickOptions {
    pub button: MouseButton,
    pub clicks: u8,
}

/// Mouse button.
#[derive(Clone, Copy, Debug, PartialEq, Eq, Structural)]
pub enum MouseButton {
    Left,
    Right,
    Middle,
}

/// Set-value options.
#[derive(Clone, Debug, PartialEq, Eq)]
pub struct SetValueOptions {
    pub value: String,
    pub clear_first: bool,
}

/// Send-keys options.
#[derive(Clone, Debug, PartialEq, Eq)]
pub struct SendKeysOptions {
    pub keys: String,
}

/// Wait options.
#[derive(Clone, Copy, Debug, PartialEq, Eq, Structural)]
pub struct WaitForOptions {
    pub condition: WaitCondition,
    pub stable_for_ms: u64,
}

/// Condition a wait expects.
#[derive(Clone, Copy, Debug, PartialEq, Eq, Structural)]
pub enum WaitCondition {
    Exists,
    Visible,
    Enabled,
    Focused,
    Gone,
}

/// Capture options.
#[derive(Clone, Copy, Debug, PartialEq, Eq, Structural)]
pub struct CaptureOptions {
    pub format: CaptureFormat,
}

/// Image format of a capture.
#[derive(Clone, Copy, Debug, PartialEq, Eq, Structural)]
pub enum CaptureFormat {
    Png,
    Jpeg,
}

/// OCR options.
#[derive(Clone, Debug, PartialEq, Eq)]
pub struct OcrOptions {
    pub language_hint: Option<String>,
}

/// Options of an explicit artifact write.
#[derive(Clone, Debug, PartialEq, Eq)]
pub struct WriteArtifactOptions {
    pub kind: String,
    pub note: Option<String>,
}

/// Verdict an external test runner reported for a step.
#[derive(Clone, Copy, Debug, PartialEq, Eq, Structural)]
pub enum DiagnosticStepVerdict {
    Failed,
    TimedOut,
    Blocked,
    Passed,
}

/// Options of a diagnostic bundle collection.
#[derive(Clone, Debug, PartialEq, Eq)]
pub struct DiagnosticBundleOptions {
    pub step_id: Option<String>,
    pub step_label: String,
    pub test_verdict: DiagnosticStepVerdict,
    pub note: Option<String>,
    pub baseline_artifact_id: Option<ArtifactId>,
    pub max_tree_depth: Option<u32>,
}

/// Options of a panel probe.
#[derive(Clone, Copy, Debug, PartialEq, Eq, Structural)]
pub struct PanelProbeOptions {
    pub uia_max_depth: Option<u32>,
    pub msaa_max_depth: Option<u32>,
    pub capture_format: CaptureFormat,
}

/// When a state snapshot is attached to an action result.
#[derive(Clone, Copy, Debug, PartialEq, Eq, Structural)]
pub enum CapturePolicy {
    Never,
    OnFailure,
    Always,
}

/// Outcome of an action.
#[derive(Clone, Debug, PartialEq, Eq)]
pub struct ActionResult {
    pub action_id: ActionId,
    pub ok: bool,
    pub status: ActionStatus,
    pub message: String,
    pub artifacts: Vec<ArtifactDescriptor>,
}

/// Status of an action.
#[derive(Clone, Copy, Debug, PartialEq, Eq, Structural)]
pub enum ActionStatus {
    Completed,
    Failed,
    TimedOut,
    Unsupported,
}

/// Metadata of a stored artifact.
#[derive(Clone, Debug, PartialEq, Eq)]
pub struct ArtifactDescriptor {
    pub artifact_id: ArtifactId,
    pub kind: String,
    pub mime_type: String,
    pub size_bytes: u64,
}

} // verus!
