//! The MCP adapter's own logic: its tool parameters and how they map onto
//! the domain model, the daemon address it dials, which logical session a
//! tool call addresses, when an interrupted action may be retried, and the
//! bookkeeping of one daemon session worker.
use vstd::prelude::*;

use crate::model::{LocatorV, ProfileV, SegmentV, WindowLocatorV};
use crate::payload::TargetV;
use crate::protocol::{
    ActionResult, ActionTarget, CapturePolicy, DiagnosticStepVerdict, DomainProfile, ElementId,
    ElementLocator, Locator, LocatorSegment, MouseButton, ObservationScope, Rect, RegionTarget,
    SessionProfile, WaitCondition, WindowId, WindowLocator,
};
use crate::diffspec::{apply_diff_spec, StoreV};
use crate::protocol::{HelloAck, ServerMessage, UiSnapshot, WarningEvent};
use crate::state::UiStateStore;
use crate::strmap::StrMap;
use crate::telemetry::{bump, copy_counts, count_of};
use crate::text::{bare, lemma_trimmed_bare, copy_opt_string, copy_string, copy_strings, occurs_at, opt_view, str_equal, str_starts_with, trim_owned, trimmed};
use crate::copy::copy_profile;
use crate::model::strings_view;
use crate::json::JsonValue;
use crate::protocol::ArtifactId;

verus! {

/// Where the adapter finds the daemon.
#[derive(Clone, Debug)]
pub struct ProxyConfig {
    pub daemon_addr: String,
}

/// The address with surrounding white space removed and `http://` put in
/// front unless it already names `http://` or `https://`.
pub open spec fn normalized_addr(raw: Seq<char>) -> Seq<char> {
    let t = trimmed(raw);
    if occurs_at(t, "http://"@, 0) || occurs_at(t, "https://"@, 0) {
        t
    } else {
        "http://"@ + t
    }
}

/// Normalizing a daemon address that is already normalized changes nothing.
pub proof fn lemma_normalized_addr_idempotent(raw: Seq<char>)
    ensures
        normalized_addr(normalized_addr(raw)) == normalized_addr(raw),
{
    let t = trimmed(raw);
    lemma_trimmed_bare(raw);
    let n = normalized_addr(raw);
    if occurs_at(t, "http://"@, 0) || occurs_at(t, "https://"@, 0) {
        lemma_trimmed_bare(t);
    } else {
        reveal_strlit("http://");
        assert(n =~= "http://"@ + t);
        assert(n[0] == 'h');
        if t.len() > 0 {
            assert(n.last() == t.last());
        } else {
            assert(n.last() == '/');
        }
        assert(bare(n));
        lemma_trimmed_bare(n);
        assert(n.subrange(0, 7) =~= "http://"@);
    }
}

fn normalize_daemon_addr(raw: &str) -> (r: String)
    ensures
        r@ == normalized_addr(raw@),
{
    let t = trim_owned(raw);
    if str_starts_with(t.as_str(), "http://") || str_starts_with(t.as_str(), "https://") {
        t
    } else {
        let mut out = String::from_str("http://");
        out.append(t.as_str());
        out
    }
}

impl ProxyConfig {
    /// The daemon address as an endpoint URI.
    pub fn normalized_daemon_addr(&self) -> (r: String)
        ensures
            r@ == normalized_addr(self.daemon_addr@),
    {
        normalize_daemon_addr(self.daemon_addr.as_str())
    }
}

/// Observation scope as a tool parameter.
#[derive(Clone, Copy, Debug, PartialEq, Eq, Structural)]
pub enum ProxyObservationScope {
    Desktop,
    AttachedWindows,
}

/// The domain scope a parameter names.
pub open spec fn scope_of(v: ProxyObservationScope) -> ObservationScope {
    match v {
        ProxyObservationScope::Desktop => ObservationScope::Desktop,
        ProxyObservationScope::AttachedWindows => ObservationScope::AttachedWindows,
    }
}

impl ProxyObservationScope {
    /// The domain scope.
    pub fn into_domain(self) -> (r: ObservationScope)
        ensures
            r == scope_of(self),
    {
        match self {
            ProxyObservationScope::Desktop => ObservationScope::Desktop,
            ProxyObservationScope::AttachedWindows => ObservationScope::AttachedWindows,
        }
    }

    /// The parameter naming a domain scope.
    pub fn from_domain(value: ObservationScope) -> (r: Self)
        ensures
            scope_of(r) == value,
    {
        match value {
            ObservationScope::Desktop => ProxyObservationScope::Desktop,
            ObservationScope::AttachedWindows => ProxyObservationScope::AttachedWindows,
        }
    }
}

/// Domain profile as a tool parameter.
#[derive(Clone, Copy, Debug, PartialEq, Eq, Structural)]
pub enum ProxyDomainProfile {
    Generic,
    OnecEnterpriseUi,
    OnecConfigurator,
}

/// The domain profile a parameter names.
pub open spec fn domain_profile_of(v: ProxyDomainProfile) -> DomainProfile {
    match v {
        ProxyDomainProfile::Generic => DomainProfile::Generic,
        ProxyDomainProfile::OnecEnterpriseUi => DomainProfile::OnecEnterpriseUi,
        ProxyDomainProfile::OnecConfigurator => DomainProfile::OnecConfigurator,
    }
}

impl ProxyDomainProfile {
    /// The domain profile.
    pub fn into_domain(self) -> (r: DomainProfile)
        ensures
            r == domain_profile_of(self),
    {
        match self {
            ProxyDomainProfile::Generic => DomainProfile::Generic,
            ProxyDomainProfile::OnecEnterpriseUi => DomainProfile::OnecEnterpriseUi,
            ProxyDomainProfile::OnecConfigurator => DomainProfile::OnecConfigurator,
        }
    }

    /// The parameter naming a domain profile.
    pub fn from_domain(value: DomainProfile) -> (r: Self)
        ensures
            domain_profile_of(r) == value,
    {
        match value {
            DomainProfile::Generic => ProxyDomainProfile::Generic,
            DomainProfile::OnecEnterpriseUi => ProxyDomainProfile::OnecEnterpriseUi,
            DomainProfile::OnecConfigurator => ProxyDomainProfile::OnecConfigurator,
        }
    }
}

/// Window filter as a tool parameter.
#[derive(Clone, Debug)]
pub struct ProxyWindowFilter {
    pub window_id: Option<String>,
    pub title: Option<String>,
    pub pid: Option<u32>,
    pub process_name: Option<String>,
    pub class_name: Option<String>,
}

impl View for ProxyWindowFilter {
    type V = WindowLocatorV;

    open spec fn view(&self) -> WindowLocatorV {
        WindowLocatorV {
            window_id: opt_view(self.window_id),
            title: opt_view(self.title),
            pid: self.pid,
            process_name: opt_view(self.process_name),
            class_name: opt_view(self.class_name),
        }
    }
}

/// Wraps an optional window identifier.
fn window_id_of(v: Option<String>) -> (r: Option<WindowId>)
    ensures
        match r {
            Some(w) => opt_view(v) == Some(w@),
            None => v is None,
        },
{
    match v {
        Some(s) => Some(WindowId(s)),
        None => None,
    }
}

impl ProxyWindowFilter {
    /// The domain window locator with the same fields.
    pub fn into_domain(self) -> (r: WindowLocator)
        ensures
            r@ == self@,
    {
        WindowLocator {
            window_id: window_id_of(self.window_id),
            title: self.title,
            pid: self.pid,
            process_name: self.process_name,
            class_name: self.class_name,
        }
    }

    /// The filter with the fields of a domain window locator.
    pub fn from_domain(value: WindowLocator) -> (r: Self)
        ensures
            r@ == value@,
    {
        let window_id = match value.window_id {
            Some(w) => Some(w.0),
            None => None,
        };
        ProxyWindowFilter {
            window_id,
            title: value.title,
            pid: value.pid,
            process_name: value.process_name,
            class_name: value.class_name,
        }
    }
}

/// Session profile as a tool parameter.
#[derive(Clone, Debug)]
pub struct ProxySessionProfile {
    pub observation_scope: ProxyObservationScope,
    pub domain_profile: ProxyDomainProfile,
    pub target_filter: Option<ProxyWindowFilter>,
}

impl View for ProxySessionProfile {
    type V = ProfileV;

    open spec fn view(&self) -> ProfileV {
        ProfileV {
            observation_scope: scope_of(self.observation_scope),
            domain_profile: domain_profile_of(self.domain_profile),
            target_filter: match self.target_filter {
                Some(f) => Some(f@),
                None => None,
            },
        }
    }
}

impl ProxySessionProfile {
    /// The domain profile with the same scope, domain and filter.
    pub fn into_domain(self) -> (r: SessionProfile)
        ensures
            r@ == self@,
    {
        let target_filter = match self.target_filter {
            Some(f) => Some(f.into_domain()),
            None => None,
        };
        SessionProfile {
            observation_scope: self.observation_scope.into_domain(),
            domain_profile: self.domain_profile.into_domain(),
            target_filter,
        }
    }

    /// The parameter form of a domain profile.
    pub fn from_domain(value: SessionProfile) -> (r: Self)
        ensures
            r@ == value@,
    {
        let target_filter = match value.target_filter {
            Some(f) => Some(ProxyWindowFilter::from_domain(f)),
            None => None,
        };
        ProxySessionProfile {
            observation_scope: ProxyObservationScope::from_domain(value.observation_scope),
            domain_profile: ProxyDomainProfile::from_domain(value.domain_profile),
            target_filter,
        }
    }
}

/// When an action's evidence is captured, as a tool parameter.
#[derive(Clone, Copy, Debug, PartialEq, Eq, Structural)]
pub enum CapturePolicyParam {
    Never,
    OnFailure,
    Always,
}

impl CapturePolicyParam {
    /// The domain capture policy.
    pub fn into_domain(self) -> (r: CapturePolicy)
        ensures
            r == (match self {
                CapturePolicyParam::Never => CapturePolicy::Never,
                CapturePolicyParam::OnFailure => CapturePolicy::OnFailure,
                CapturePolicyParam::Always => CapturePolicy::Always,
            }),
    {
        match self {
            CapturePolicyParam::Never => CapturePolicy::Never,
            CapturePolicyParam::OnFailure => CapturePolicy::OnFailure,
            CapturePolicyParam::Always => CapturePolicy::Always,
        }
    }
}

/// The condition a wait ends on, as a tool parameter.
#[derive(Clone, Copy, Debug, PartialEq, Eq, Structural)]
pub enum WaitConditionParam {
    Exists,
    Visible,
    Enabled,
    Focused,
    Gone,
}

impl WaitConditionParam {
    /// The domain wait condition.
    pub fn into_domain(self) -> (r: WaitCondition)
        ensures
            r == (match self {
                WaitConditionParam::Exists => WaitCondition::Exists,
                WaitConditionParam::Visible => WaitCondition::Visible,
                WaitConditionParam::Enabled => WaitCondition::Enabled,
                WaitConditionParam::Focused => WaitCondition::Focused,
                WaitConditionParam::Gone => WaitCondition::Gone,
            }),
    {
        match self {
            WaitConditionParam::Exists => WaitCondition::Exists,
            WaitConditionParam::Visible => WaitCondition::Visible,
            WaitConditionParam::Enabled => WaitCondition::Enabled,
            WaitConditionParam::Focused => WaitCondition::Focused,
            WaitConditionParam::Gone => WaitCondition::Gone,
        }
    }
}

/// Mouse button as a tool parameter.
#[derive(Clone, Copy, Debug, PartialEq, Eq, Structural)]
pub enum MouseButtonParam {
    Left,
    Right,
    Middle,
}

impl MouseButtonParam {
    /// The domain mouse button.
    pub fn into_domain(self) -> (r: MouseButton)
        ensures
            r == (match self {
                MouseButtonParam::Left => MouseButton::Left,
                MouseButtonParam::Right => MouseButton::Right,
                MouseButtonParam::Middle => MouseButton::Middle,
            }),
    {
        match self {
            MouseButtonParam::Left => MouseButton::Left,
            MouseButtonParam::Right => MouseButton::Right,
            MouseButtonParam::Middle => MouseButton::Middle,
        }
    }
}

/// A test step's verdict, as a tool parameter.
#[derive(Clone, Copy, Debug, PartialEq, Eq, Structural)]
pub enum DiagnosticVerdictParam {
    Failed,
    TimedOut,
    Blocked,
    Passed,
}

impl DiagnosticVerdictParam {
    /// The domain verdict.
    pub fn into_domain(self) -> (r: DiagnosticStepVerdict)
        ensures
            r == (match self {
                DiagnosticVerdictParam::Failed => DiagnosticStepVerdict::Failed,
                DiagnosticVerdictParam::TimedOut => DiagnosticStepVerdict::TimedOut,
                DiagnosticVerdictParam::Blocked => DiagnosticStepVerdict::Blocked,
                DiagnosticVerdictParam::Passed => DiagnosticStepVerdict::Passed,
            }),
    {
        match self {
            DiagnosticVerdictParam::Failed => DiagnosticStepVerdict::Failed,
            DiagnosticVerdictParam::TimedOut => DiagnosticStepVerdict::TimedOut,
            DiagnosticVerdictParam::Blocked => DiagnosticStepVerdict::Blocked,
            DiagnosticVerdictParam::Passed => DiagnosticStepVerdict::Passed,
        }
    }
}

/// Parameters of `session_open`.
#[derive(Clone, Debug)]
pub struct SessionOpenParams {
    pub profile: ProxySessionProfile,
}

/// Parameters naming a logical session, or none.
#[derive(Clone, Debug)]
pub struct SessionRefParams {
    pub session_id: Option<String>,
}

/// Parameters of `list_windows`.
#[derive(Clone, Debug)]
pub struct ListWindowsParams {
    pub session_id: Option<String>,
    pub timeout_ms: Option<u64>,
}

/// Parameters of `runtime_status`.
#[derive(Clone, Debug)]
pub struct RuntimeStatusParams {
    pub session_id: Option<String>,
    pub timeout_ms: Option<u64>,
}

/// Parameters of `get_tree`.
#[derive(Clone, Debug)]
pub struct GetTreeParams {
    pub session_id: Option<String>,
    pub target: TargetParams,
    pub raw: bool,
    pub max_depth: Option<u32>,
    pub timeout_ms: Option<u64>,
}

/// Parameters of `wait_for`.
#[derive(Clone, Debug)]
pub struct WaitForParams {
    pub session_id: Option<String>,
    pub target: TargetParams,
    pub condition: WaitConditionParam,
    pub stable_for_ms: Option<u64>,
    pub timeout_ms: Option<u64>,
    pub capture_policy: Option<CapturePolicyParam>,
}

/// Parameters of `focus_window`.
#[derive(Clone, Debug)]
pub struct FocusWindowParams {
    pub session_id: Option<String>,
    pub target: TargetParams,
    pub timeout_ms: Option<u64>,
    pub capture_policy: Option<CapturePolicyParam>,
}

/// Parameters of `invoke`.
#[derive(Clone, Debug)]
pub struct InvokeParams {
    pub session_id: Option<String>,
    pub target: TargetParams,
    pub timeout_ms: Option<u64>,
    pub capture_policy: Option<CapturePolicyParam>,
}

/// Parameters of `click_element`.
#[derive(Clone, Debug)]
pub struct ClickElementParams {
    pub session_id: Option<String>,
    pub target: TargetParams,
    pub button: MouseButtonParam,
    pub clicks: Option<u8>,
    pub timeout_ms: Option<u64>,
    pub capture_policy: Option<CapturePolicyParam>,
}

/// Parameters of `set_value`.
#[derive(Clone, Debug)]
pub struct SetValueParams {
    pub session_id: Option<String>,
    pub target: TargetParams,
    pub value: String,
    pub clear_first: Option<bool>,
    pub timeout_ms: Option<u64>,
    pub capture_policy: Option<CapturePolicyParam>,
}

/// Parameters of `send_keys`.
#[derive(Clone, Debug)]
pub struct SendKeysParams {
    pub session_id: Option<String>,
    pub target: TargetParams,
    pub keys: String,
    pub timeout_ms: Option<u64>,
    pub capture_policy: Option<CapturePolicyParam>,
}

/// Parameters of `collect_diagnostic_bundle`.
#[derive(Clone, Debug)]
pub struct CollectDiagnosticBundleParams {
    pub session_id: Option<String>,
    pub target: TargetParams,
    pub step_id: Option<String>,
    pub step_label: String,
    pub test_verdict: DiagnosticVerdictParam,
    pub note: Option<String>,
    pub baseline_artifact_id: Option<String>,
    pub max_tree_depth: Option<u32>,
    pub timeout_ms: Option<u64>,
}

/// Parameters of the artifact readers.
#[derive(Clone, Debug)]
pub struct ArtifactReadParams {
    pub session_id: Option<String>,
    pub artifact_id: String,
}

/// A rectangle as a tool parameter.
#[derive(Clone, Copy, Debug, PartialEq, Eq, Structural)]
pub struct RectParams {
    pub left: i32,
    pub top: i32,
    pub width: i32,
    pub height: i32,
}

impl RectParams {
    /// The domain rectangle.
    pub fn into_domain(self) -> (r: Rect)
        ensures
            r == (Rect { left: self.left, top: self.top, width: self.width, height: self.height }),
    {
        Rect { left: self.left, top: self.top, width: self.width, height: self.height }
    }
}

/// A locator step as a tool parameter.
#[derive(Clone, Debug)]
pub struct LocatorSegmentParams {
    pub control_type: String,
    pub class_name: Option<String>,
    pub automation_id: Option<String>,
    pub name: Option<String>,
    pub sibling_ordinal: Option<u32>,
}

impl View for LocatorSegmentParams {
    type V = SegmentV;

    open spec fn view(&self) -> SegmentV {
        SegmentV {
            control_type: self.control_type@,
            class_name: opt_view(self.class_name),
            automation_id: opt_view(self.automation_id),
            name: opt_view(self.name),
            sibling_ordinal: self.sibling_ordinal,
        }
    }
}

impl LocatorSegmentParams {
    /// The domain locator step.
    pub fn into_domain(self) -> (r: LocatorSegment)
        ensures
            r@ == self@,
    {
        LocatorSegment {
            control_type: self.control_type,
            class_name: self.class_name,
            automation_id: self.automation_id,
            name: self.name,
            sibling_ordinal: self.sibling_ordinal,
        }
    }
}

/// A locator as a tool parameter.
#[derive(Clone, Debug)]
pub struct LocatorParams {
    pub window_fingerprint: String,
    pub path: Vec<LocatorSegmentParams>,
}

impl View for LocatorParams {
    type V = LocatorV;

    open spec fn view(&self) -> LocatorV {
        LocatorV {
            window_fingerprint: self.window_fingerprint@,
            path: self.path@.map_values(|s: LocatorSegmentParams| s@),
        }
    }
}

impl LocatorParams {
    /// The domain locator, step by step.
    pub fn into_domain(self) -> (r: Locator)
        ensures
            r@ == self@,
    {
        let LocatorParams { window_fingerprint, path } = self;
        let ghost src = path@;
        let mut rest = path;
        let mut out: Vec<LocatorSegment> = Vec::new();
        while rest.len() > 0
            invariant
                out.len() + rest.len() == src.len(),
                forall|i: int| 0 <= i < out.len() ==> (#[trigger] out@[i])@ == src[i]@,
                rest@ == src.subrange(out.len() as int, src.len() as int),
            decreases rest.len(),
        {
            let s = rest.remove(0);
            out.push(s.into_domain());
        }
        let r = Locator { window_fingerprint, path: out };
        assert(r@.path =~= src.map_values(|s: LocatorSegmentParams| s@));
        r
    }
}

/// What a tool call addresses.
#[derive(Clone, Debug)]
pub enum TargetParams {
    Desktop,
    Window {
        window_id: Option<String>,
        title: Option<String>,
        pid: Option<u32>,
        process_name: Option<String>,
        class_name: Option<String>,
    },
    Element { element_id: Option<String>, locator: Option<LocatorParams> },
    Region { window_id: Option<String>, bounds: RectParams },
}

impl View for TargetParams {
    type V = TargetV;

    open spec fn view(&self) -> TargetV {
        match self {
            TargetParams::Desktop => TargetV::Desktop,
            TargetParams::Window { window_id, title, pid, process_name, class_name } => TargetV::Window(
                WindowLocatorV {
                    window_id: opt_view(*window_id),
                    title: opt_view(*title),
                    pid: *pid,
                    process_name: opt_view(*process_name),
                    class_name: opt_view(*class_name),
                },
            ),
            TargetParams::Element { element_id, locator } => TargetV::Element {
                element_id: opt_view(*element_id),
                locator: match locator {
                    Some(l) => Some(l@),
                    None => None,
                },
            },
            TargetParams::Region { window_id, bounds } => TargetV::Region {
                window_id: opt_view(*window_id),
                bounds: Rect { left: bounds.left, top: bounds.top, width: bounds.width, height: bounds.height },
            },
        }
    }
}

impl TargetParams {
    /// The domain action target with the same fields.
    pub fn into_domain(self) -> (r: ActionTarget)
        ensures
            r@ == self@,
    {
        match self {
            TargetParams::Desktop => ActionTarget::Desktop,
            TargetParams::Window { window_id, title, pid, process_name, class_name } => ActionTarget::Window(
                WindowLocator { window_id: window_id_of(window_id), title, pid, process_name, class_name },
            ),
            TargetParams::Element { element_id, locator } => {
                let element_id = match element_id {
                    Some(s) => Some(ElementId(s)),
                    None => None,
                };
                let locator = match locator {
                    Some(l) => Some(l.into_domain()),
                    None => None,
                };
                ActionTarget::Element(ElementLocator { element_id, locator })
            },
            TargetParams::Region { window_id, bounds } => ActionTarget::Region(
                RegionTarget { window_id: window_id_of(window_id), bounds: bounds.into_domain() },
            ),
        }
    }
}


/// Why a tool call could not be tied to a logical session.
#[derive(Clone, Debug, PartialEq, Eq)]
pub enum SessionResolveError {
    /// The named session is not open.
    UnknownSession { session_id: String },
    /// No session is open.
    NoActiveSessions,
    /// Several sessions are open and none was named.
    SessionIdRequired,
}

/// The error text shown to the MCP client.
pub open spec fn resolve_error_message(e: SessionResolveError) -> Seq<char> {
    match e {
        SessionResolveError::UnknownSession { session_id } => "unknown session_id `"@ + session_id@ + "`"@,
        SessionResolveError::NoActiveSessions => "no active MCP sessions; call session_open first"@,
        SessionResolveError::SessionIdRequired => "session_id is required because multiple logical sessions are active"@,
    }
}

impl SessionResolveError {
    /// The error text shown to the MCP client.
    pub fn message(&self) -> (r: String)
        ensures
            r@ == resolve_error_message(*self),
    {
        match self {
            SessionResolveError::UnknownSession { session_id } => {
                let mut out = String::from_str("unknown session_id `");
                out.append(session_id.as_str());
                out.append("`");
                out
            },
            SessionResolveError::NoActiveSessions => String::from_str(
                "no active MCP sessions; call session_open first",
            ),
            SessionResolveError::SessionIdRequired => String::from_str(
                "session_id is required because multiple logical sessions are active",
            ),
        }
    }

    /// Whether the client named a session that does not exist (as opposed
    /// to giving too little to choose one).
    pub fn is_not_found(&self) -> (r: bool)
        ensures
            r == (*self is UnknownSession),
    {
        match self {
            SessionResolveError::UnknownSession { .. } => true,
            _ => false,
        }
    }
}

/// Some open session is named `id`.
pub open spec fn is_active(active: Seq<String>, id: Seq<char>) -> bool {
    exists|i: int| 0 <= i < active.len() && #[trigger] active[i]@ == id
}

/// The logical session a tool call addresses: the one it names, which must
/// be open, or, when it names none, the only open session.
pub fn resolve_session_id(requested: Option<&str>, active: &Vec<String>) -> (r: Result<String, SessionResolveError>)
    ensures
        match requested {
            Some(id) => match r {
                Ok(s) => s@ == id@ && is_active(active@, id@),
                Err(e) => !is_active(active@, id@) && (e matches SessionResolveError::UnknownSession { session_id } && session_id@ == id@),
            },
            None => if active@.len() == 0 {
                r == Err::<String, SessionResolveError>(SessionResolveError::NoActiveSessions)
            } else if active@.len() == 1 {
                (r matches Ok(s) && s@ == active@[0]@)
            } else {
                r == Err::<String, SessionResolveError>(SessionResolveError::SessionIdRequired)
            },
        },
{
    match requested {
        Some(id) => {
            let mut i: usize = 0;
            while i < active.len()
                invariant
                    requested == Some(id),
                    i <= active@.len(),
                    forall|k: int| 0 <= k < i ==> (#[trigger] active@[k])@ != id@,
                decreases active@.len() - i,
            {
                if crate::text::str_equal(active[i].as_str(), id) {
                    assert(active@[i as int]@ == id@);
                    return Ok(String::from_str(id));
                }
                i = i + 1;
            }
            Err(SessionResolveError::UnknownSession { session_id: String::from_str(id) })
        },
        None => {
            if active.len() == 0 {
                Err(SessionResolveError::NoActiveSessions)
            } else if active.len() == 1 {
                Ok(active[0].clone())
            } else {
                Err(SessionResolveError::SessionIdRequired)
            }
        },
    }
}

/// What the worker does next while carrying out an action.
#[derive(Clone, Debug, PartialEq, Eq)]
pub enum AttemptDecision {
    /// Send the request on the current stream.
    Send,
    /// Re-establish the daemon stream, giving this reason, then try again.
    Reconnect { reason: String },
    /// Give up with this message.
    Fail { message: String },
}

/// Reason recorded when a read finds the stream gone.
pub open spec fn stream_lost_reason() -> Seq<char> {
    "daemon session stream lost"@
}

/// Message for a mutating action that finds the stream gone.
pub open spec fn continuity_lost_message() -> Seq<char> {
    "daemon session continuity was lost; retry the mutating action explicitly"@
}

/// Message for an action interrupted by `error` that may not be retried.
pub open spec fn interrupted_message(error: Seq<char>) -> Seq<char> {
    "daemon action interrupted; retry is required because continuity was lost: "@ + error
}

/// Whether the worker reconnects before a try.
pub open spec fn reconnects_before(read_only: bool, connected: bool) -> bool {
    !connected && read_only
}

/// Whether the worker reconnects after try number `attempt` failed.
pub open spec fn reconnects_after(read_only: bool, attempt: int) -> bool {
    read_only && attempt == 0
}

/// Before a try: send on a live stream; on a lost one, reconnect for a read
/// and refuse a mutating action, which must never be replayed silently.
pub fn decide_before_attempt(read_only: bool, connected: bool) -> (r: AttemptDecision)
    ensures
        (r is Send) == connected,
        (r is Reconnect) == reconnects_before(read_only, connected),
        r matches AttemptDecision::Reconnect { reason } ==> reason@ == stream_lost_reason(),
        r matches AttemptDecision::Fail { message } ==> message@ == continuity_lost_message(),
{
    if connected {
        AttemptDecision::Send
    } else if read_only {
        AttemptDecision::Reconnect { reason: String::from_str("daemon session stream lost") }
    } else {
        AttemptDecision::Fail {
            message: String::from_str("daemon session continuity was lost; retry the mutating action explicitly"),
        }
    }
}

/// After try number `attempt` (from zero) failed with `error`: a read is
/// retried once over a fresh stream; anything else fails.
pub fn decide_after_failure(read_only: bool, attempt: usize, error: &str) -> (r: AttemptDecision)
    ensures
        !(r is Send),
        (r is Reconnect) == reconnects_after(read_only, attempt as int),
        r matches AttemptDecision::Reconnect { reason } ==> reason@ == error@,
        r matches AttemptDecision::Fail { message } ==> message@ == interrupted_message(error@),
{
    if read_only && attempt == 0 {
        AttemptDecision::Reconnect { reason: String::from_str(error) }
    } else {
        let mut message = String::from_str("daemon action interrupted; retry is required because continuity was lost: ");
        message.append(error);
        AttemptDecision::Fail { message }
    }
}

/// A mutating action is never sent again over a new stream, and a read is
/// retried after at most one failed try.
pub proof fn lemma_no_silent_replay(read_only: bool, connected: bool, attempt: int)
    ensures
        !read_only ==> !reconnects_before(read_only, connected) && !reconnects_after(read_only, attempt),
        attempt >= 1 ==> !reconnects_after(read_only, attempt),
{
}


/// The warning code with which the daemon reports that it rebuilt a
/// session's state, so that earlier observations no longer hold.
pub open spec fn recovered_code() -> Seq<char> {
    "session_state_recovered"@
}

/// Reason given when a session was closed on request.
pub open spec fn closed_reason() -> Seq<char> {
    "session closed"@
}

/// Reason given on a reconnect for which none was supplied.
pub open spec fn default_reconnect_reason() -> Seq<char> {
    "daemon session was re-established and previous continuity is invalidated"@
}

/// Reason given for a send on a stream that never came up.
pub open spec fn not_connected_reason() -> Seq<char> {
    "daemon session is not connected"@
}

/// Same code and message.
pub open spec fn same_warning(a: Option<WarningEvent>, b: Option<WarningEvent>) -> bool {
    match (a, b) {
        (Some(x), Some(y)) => x.code@ == y.code@ && x.message@ == y.message@,
        (None, None) => true,
        _ => false,
    }
}

/// What a daemon session worker knows of its stream and of the session
/// behind it. The stream's channels and reader task live beside it.
#[derive(Debug)]
pub struct WorkerState {
    pub connected: bool,
    pub daemon_session_id: Option<String>,
    pub backend_id: String,
    pub capabilities: Vec<String>,
    pub snapshot: UiStateStore,
    pub reconnect_count: u64,
    pub disconnect_reason: Option<String>,
    pub continuity_invalidated: bool,
    pub continuity_reason: Option<String>,
    pub warning_counts: StrMap<u64>,
    pub last_warning: Option<WarningEvent>,
}

impl Default for WorkerState {
    fn default() -> (r: Self)
        ensures
            r.wf(),
            !r.connected,
            r.daemon_session_id is None,
            r.backend_id@.len() == 0,
            r.capabilities@.len() == 0,
            r.snapshot@ == (StoreV { snapshot: None, rev: 0, resync: None }),
            r.reconnect_count == 0,
            r.disconnect_reason is None,
            !r.continuity_invalidated,
            r.continuity_reason is None,
            r.warning_counts@ == Map::<Seq<char>, u64>::empty(),
            r.last_warning is None,
    {
        WorkerState {
            connected: false,
            daemon_session_id: None,
            backend_id: String::new(),
            capabilities: Vec::new(),
            snapshot: UiStateStore::default(),
            reconnect_count: 0,
            disconnect_reason: None,
            continuity_invalidated: false,
            continuity_reason: None,
            warning_counts: StrMap::new(),
            last_warning: None,
        }
    }
}

impl WorkerState {
    /// The warning counts are a well-formed map.
    pub open spec fn wf(&self) -> bool {
        self.warning_counts.wf()
    }

    /// Counts a warning by its code and keeps it as the last one.
    pub fn record_warning(&mut self, warning: WarningEvent)
        requires
            old(self).wf(),
            count_of(old(self).warning_counts@, warning.code@) < u64::MAX,
        ensures
            final(self).wf(),
            final(self).warning_counts@ == old(self).warning_counts@.insert(
                warning.code@,
                (count_of(old(self).warning_counts@, warning.code@) + 1) as u64,
            ),
            *final(self) == (WorkerState {
                warning_counts: final(self).warning_counts,
                last_warning: Some(warning),
                ..*old(self)
            }),
    {
        bump(&mut self.warning_counts, warning.code.as_str(), u64::MAX);
        self.last_warning = Some(warning);
    }

    /// Takes over a freshly opened stream: the daemon's acknowledgement and
    /// initial snapshot become current and, on a reconnect, earlier
    /// continuity is declared lost with the given or a default reason.
    pub fn on_connected(&mut self, ack: HelloAck, initial: UiSnapshot, is_reconnect: bool, reason: Option<String>)
        requires
            is_reconnect ==> old(self).reconnect_count < u64::MAX,
        ensures
            final(self).connected,
            final(self).daemon_session_id == Some(ack.session_id.0),
            final(self).backend_id == ack.backend_id,
            final(self).capabilities == ack.capabilities,
            final(self).snapshot@ == (StoreV { snapshot: Some(initial@), rev: initial.rev, resync: None }),
            final(self).disconnect_reason is None,
            final(self).warning_counts == old(self).warning_counts,
            final(self).last_warning == old(self).last_warning,
            is_reconnect ==> {
                &&& final(self).reconnect_count == old(self).reconnect_count + 1
                &&& final(self).continuity_invalidated
                &&& opt_view(final(self).continuity_reason) == Some(
                    match reason {
                        Some(t) => t@,
                        None => default_reconnect_reason(),
                    },
                )
            },
            !is_reconnect ==> {
                &&& final(self).reconnect_count == old(self).reconnect_count
                &&& final(self).continuity_invalidated == old(self).continuity_invalidated
                &&& final(self).continuity_reason == old(self).continuity_reason
            },
    {
        self.connected = true;
        self.daemon_session_id = Some(ack.session_id.0);
        self.backend_id = ack.backend_id;
        self.capabilities = ack.capabilities;
        self.snapshot.replace_snapshot(initial);
        self.disconnect_reason = None;
        if is_reconnect {
            self.reconnect_count = self.reconnect_count + 1;
            self.continuity_invalidated = true;
            self.continuity_reason = match reason {
                Some(t) => Some(t),
                None => Some(String::from_str(
                    "daemon session was re-established and previous continuity is invalidated",
                )),
            };
        }
    }

    /// Folds one message of the daemon stream into the state; an action
    /// result is handed back for the action waiting on it.
    pub fn apply_server_message(&mut self, message: ServerMessage) -> (r: Option<ActionResult>)
        requires
            old(self).wf(),
            message matches ServerMessage::Warning(w) ==> count_of(old(self).warning_counts@, w.code@) < u64::MAX,
        ensures
            final(self).wf(),
            match message {
                ServerMessage::InitialSnapshot(s) => {
                    &&& r is None
                    &&& final(self).snapshot@ == (StoreV { snapshot: Some(s@), rev: s.rev, resync: None })
                    &&& *final(self) == (WorkerState { snapshot: final(self).snapshot, ..*old(self) })
                },
                ServerMessage::DiffBatch(d) => {
                    &&& r is None
                    &&& final(self).snapshot@ == apply_diff_spec(old(self).snapshot@, d@).0
                    &&& *final(self) == (WorkerState { snapshot: final(self).snapshot, ..*old(self) })
                },
                ServerMessage::ActionResult(a) => r == Some(a) && *final(self) == *old(self),
                ServerMessage::Warning(w) => {
                    let recovered = w.code@ == recovered_code();
                    &&& r is None
                    &&& final(self).warning_counts@ == old(self).warning_counts@.insert(
                        w.code@,
                        (count_of(old(self).warning_counts@, w.code@) + 1) as u64,
                    )
                    &&& final(self).last_warning == Some(w)
                    &&& final(self).continuity_invalidated == (old(self).continuity_invalidated || recovered)
                    &&& opt_view(final(self).continuity_reason) == (if recovered {
                        Some(w.message@)
                    } else {
                        opt_view(old(self).continuity_reason)
                    })
                    &&& final(self).connected == old(self).connected
                    &&& final(self).daemon_session_id == old(self).daemon_session_id
                    &&& final(self).snapshot == old(self).snapshot
                    &&& final(self).reconnect_count == old(self).reconnect_count
                    &&& final(self).disconnect_reason == old(self).disconnect_reason
                },
                _ => r is None && *final(self) == *old(self),
            },
    {
        match message {
            ServerMessage::InitialSnapshot(s) => {
                self.snapshot.replace_snapshot(s);
                None
            },
            ServerMessage::DiffBatch(d) => {
                let _ = self.snapshot.apply_diff(&d);
                None
            },
            ServerMessage::ActionResult(a) => Some(a),
            ServerMessage::Warning(w) => {
                if str_equal(w.code.as_str(), "session_state_recovered") {
                    proof {
                        reveal_strlit("session_state_recovered");
                    }
                    self.continuity_invalidated = true;
                    self.continuity_reason = Some(copy_string(&w.message));
                }
                proof {
                    reveal_strlit("session_state_recovered");
                }
                self.record_warning(w);
                None
            },
            _ => None,
        }
    }

    /// The stream ended for `reason`.
    pub fn on_disconnected(&mut self, reason: String)
        ensures
            *final(self) == (WorkerState { connected: false, disconnect_reason: Some(reason), ..*old(self) }),
    {
        self.connected = false;
        self.disconnect_reason = Some(reason);
    }

    /// The session was closed on request.
    pub fn on_closed(&mut self)
        ensures
            !final(self).connected,
            opt_view(final(self).disconnect_reason) == Some(closed_reason()),
            *final(self) == (WorkerState {
                connected: false,
                disconnect_reason: final(self).disconnect_reason,
                ..*old(self)
            }),
    {
        self.connected = false;
        self.disconnect_reason = Some(String::from_str("session closed"));
    }

    /// Why no request can be sent: the recorded disconnect reason, or that
    /// the stream never came up.
    pub fn unavailable_reason(&self) -> (r: String)
        ensures
            r@ == (match self.disconnect_reason {
                Some(t) => t@,
                None => not_connected_reason(),
            }),
    {
        match &self.disconnect_reason {
            Some(t) => copy_string(t),
            None => String::from_str("daemon session is not connected"),
        }
    }

    /// Continuity facts reported with an action's outcome.
    pub fn session_outcome(&self, reconnected: bool) -> (r: SessionOutcome)
        ensures
            opt_view(r.daemon_session_id) == opt_view(self.daemon_session_id),
            r.connected == self.connected,
            r.reconnected == reconnected,
            r.continuity_invalidated == self.continuity_invalidated,
            opt_view(r.continuity_reason) == opt_view(self.continuity_reason),
    {
        SessionOutcome {
            daemon_session_id: copy_opt_string(&self.daemon_session_id),
            connected: self.connected,
            reconnected,
            continuity_invalidated: self.continuity_invalidated,
            continuity_reason: copy_opt_string(&self.continuity_reason),
        }
    }

    /// The worker's status for `session_status`, for the logical session
    /// `session_id` opened with `profile`.
    pub fn status(&self, session_id: &str, profile: &SessionProfile) -> (r: WorkerStatus)
        requires
            self.wf(),
        ensures
            r.session_id@ == session_id@,
            r.profile@ == profile@,
            opt_view(r.daemon_session_id) == opt_view(self.daemon_session_id),
            r.backend_id@ == self.backend_id@,
            strings_view(r.capabilities@) == strings_view(self.capabilities@),
            r.connected == self.connected,
            r.snapshot_revision == (match self.snapshot@.snapshot {
                Some(s) => Some(s.rev),
                None => None::<u64>,
            }),
            r.window_count == (match self.snapshot@.snapshot {
                Some(s) => Some(s.windows.len() as usize),
                None => None::<usize>,
            }),
            r.resync_required == (self.snapshot@.resync is Some),
            opt_view(r.resync_reason) == self.snapshot@.resync,
            r.reconnect_count == self.reconnect_count,
            opt_view(r.disconnect_reason) == opt_view(self.disconnect_reason),
            r.continuity_invalidated == self.continuity_invalidated,
            opt_view(r.continuity_reason) == opt_view(self.continuity_reason),
            r.warning_counts.wf(),
            r.warning_counts@ == self.warning_counts@,
            same_warning(r.last_warning, self.last_warning),
    {
        let (snapshot_revision, window_count) = match self.snapshot.snapshot() {
            Some(s) => (Some(s.rev), Some(s.windows.len())),
            None => (None, None),
        };
        let resync_reason = match self.snapshot.resync_reason() {
            Some(t) => Some(String::from_str(t)),
            None => None,
        };
        let last_warning = match &self.last_warning {
            Some(w) => Some(WarningEvent { code: copy_string(&w.code), message: copy_string(&w.message) }),
            None => None,
        };
        WorkerStatus {
            session_id: String::from_str(session_id),
            profile: ProxySessionProfile::from_domain(copy_profile(profile)),
            daemon_session_id: copy_opt_string(&self.daemon_session_id),
            backend_id: copy_string(&self.backend_id),
            capabilities: copy_strings(&self.capabilities),
            connected: self.connected,
            snapshot_revision,
            window_count,
            resync_required: resync_reason.is_some(),
            resync_reason,
            reconnect_count: self.reconnect_count,
            disconnect_reason: copy_opt_string(&self.disconnect_reason),
            continuity_invalidated: self.continuity_invalidated,
            continuity_reason: copy_opt_string(&self.continuity_reason),
            warning_counts: copy_counts(&self.warning_counts),
            last_warning,
        }
    }
}

/// What `session_open` returns.
#[derive(Debug)]
pub struct SessionOpenResult {
    pub session_id: String,
    pub profile: ProxySessionProfile,
    pub daemon_session_id: Option<String>,
    pub backend_id: String,
    pub capabilities: Vec<String>,
    pub connected: bool,
    pub continuity_invalidated: bool,
    pub continuity_reason: Option<String>,
    pub snapshot_revision: Option<u64>,
    pub window_count: Option<usize>,
}

impl SessionOpenResult {
    /// The answer to `session_open` for the new logical session
    /// `session_id`, from its worker's first status.
    pub fn from_status(session_id: String, status: WorkerStatus) -> (r: Self)
        ensures
            r.session_id == session_id,
            r.profile == status.profile,
            r.daemon_session_id == status.daemon_session_id,
            r.backend_id == status.backend_id,
            r.capabilities == status.capabilities,
            r.connected == status.connected,
            r.continuity_invalidated == status.continuity_invalidated,
            r.continuity_reason == status.continuity_reason,
            r.snapshot_revision == status.snapshot_revision,
            r.window_count == status.window_count,
    {
        SessionOpenResult {
            session_id,
            profile: status.profile,
            daemon_session_id: status.daemon_session_id,
            backend_id: status.backend_id,
            capabilities: status.capabilities,
            connected: status.connected,
            continuity_invalidated: status.continuity_invalidated,
            continuity_reason: status.continuity_reason,
            snapshot_revision: status.snapshot_revision,
            window_count: status.window_count,
        }
    }
}

/// What `session_close` returns.
#[derive(Clone, Debug)]
pub struct SessionCloseResult {
    pub ok: bool,
    pub session_id: String,
}

/// What `session_status` returns.
#[derive(Debug)]
pub struct WorkerStatus {
    pub session_id: String,
    pub profile: ProxySessionProfile,
    pub daemon_session_id: Option<String>,
    pub backend_id: String,
    pub capabilities: Vec<String>,
    pub connected: bool,
    pub snapshot_revision: Option<u64>,
    pub window_count: Option<usize>,
    pub resync_required: bool,
    pub resync_reason: Option<String>,
    pub reconnect_count: u64,
    pub disconnect_reason: Option<String>,
    pub continuity_invalidated: bool,
    pub continuity_reason: Option<String>,
    pub warning_counts: StrMap<u64>,
    pub last_warning: Option<WarningEvent>,
}

/// Continuity facts of the session an action ran in.
#[derive(Clone, Debug)]
pub struct SessionOutcome {
    pub daemon_session_id: Option<String>,
    pub connected: bool,
    pub reconnected: bool,
    pub continuity_invalidated: bool,
    pub continuity_reason: Option<String>,
}

/// An action's result with the continuity facts of its session.
#[derive(Debug)]
pub struct ActionOutcome {
    pub session: SessionOutcome,
    pub action_result: ActionResult,
}

/// What the acting tools return.
#[derive(Debug)]
pub struct ActionEnvelope {
    pub session_id: String,
    pub daemon_session_id: Option<String>,
    pub connected: bool,
    pub reconnected: bool,
    pub continuity_invalidated: bool,
    pub continuity_reason: Option<String>,
    pub action_result: ActionResult,
}

impl ActionEnvelope {
    /// The envelope for logical session `session_id`.
    pub fn from_outcome(session_id: String, outcome: ActionOutcome) -> (r: Self)
        ensures
            r.session_id == session_id,
            r.daemon_session_id == outcome.session.daemon_session_id,
            r.connected == outcome.session.connected,
            r.reconnected == outcome.session.reconnected,
            r.continuity_invalidated == outcome.session.continuity_invalidated,
            r.continuity_reason == outcome.session.continuity_reason,
            r.action_result == outcome.action_result,
    {
        ActionEnvelope {
            session_id,
            daemon_session_id: outcome.session.daemon_session_id,
            connected: outcome.session.connected,
            reconnected: outcome.session.reconnected,
            continuity_invalidated: outcome.session.continuity_invalidated,
            continuity_reason: outcome.session.continuity_reason,
            action_result: outcome.action_result,
        }
    }
}

/// A reading action's JSON artifact with the continuity facts of its session.
#[derive(Debug)]
pub struct ReadActionOutcome {
    pub session: SessionOutcome,
    pub payload: JsonValue,
}

/// What the reading tools return: the artifact's JSON in place of the result.
#[derive(Debug)]
pub struct ReadEnvelope {
    pub session_id: String,
    pub daemon_session_id: Option<String>,
    pub connected: bool,
    pub reconnected: bool,
    pub continuity_invalidated: bool,
    pub continuity_reason: Option<String>,
    pub payload: JsonValue,
}

impl ReadEnvelope {
    /// The envelope for logical session `session_id`.
    pub fn from_outcome(session_id: String, outcome: ReadActionOutcome) -> (r: Self)
        ensures
            r.session_id == session_id,
            r.daemon_session_id == outcome.session.daemon_session_id,
            r.connected == outcome.session.connected,
            r.reconnected == outcome.session.reconnected,
            r.continuity_invalidated == outcome.session.continuity_invalidated,
            r.continuity_reason == outcome.session.continuity_reason,
            r.payload == outcome.payload,
    {
        ReadEnvelope {
            session_id,
            daemon_session_id: outcome.session.daemon_session_id,
            connected: outcome.session.connected,
            reconnected: outcome.session.reconnected,
            continuity_invalidated: outcome.session.continuity_invalidated,
            continuity_reason: outcome.session.continuity_reason,
            payload: outcome.payload,
        }
    }
}

/// The artifact a reading action's JSON is read from: the result's first
/// artifact; a result without artifacts is an error.
pub fn read_artifact_of(result: &ActionResult) -> (r: Result<ArtifactId, String>)
    ensures
        result.artifacts@.len() > 0 ==> (r matches Ok(id) && id@ == result.artifacts@[0].artifact_id@),
        result.artifacts@.len() == 0 ==> (r matches Err(m) && m@ == "expected action artifact"@),
{
    if result.artifacts.len() > 0 {
        Ok(ArtifactId(result.artifacts[0].artifact_id.0.clone()))
    } else {
        Err(String::from_str("expected action artifact"))
    }
}

/// What a proxy has gathered from a session stream while it starts: the
/// daemon's acknowledgement and the latest initial snapshot, and the
/// warnings seen meanwhile, in order.
#[derive(Debug)]
pub struct SessionStartup {
    pub hello_ack: Option<HelloAck>,
    pub initial_snapshot: Option<UiSnapshot>,
    pub warnings: Vec<WarningEvent>,
}

impl SessionStartup {
    /// Nothing gathered yet.
    pub fn new() -> (r: Self)
        ensures
            r.hello_ack is None,
            r.initial_snapshot is None,
            r.warnings@.len() == 0,
    {
        SessionStartup { hello_ack: None, initial_snapshot: None, warnings: Vec::new() }
    }

    /// Both the acknowledgement and an initial snapshot have arrived.
    pub open spec fn complete(&self) -> bool {
        self.hello_ack is Some && self.initial_snapshot is Some
    }

    /// Takes one startup message: an acknowledgement or an initial
    /// snapshot replaces the one held, a warning is kept, anything else is
    /// ignored. Returns whether startup is now complete.
    pub fn on_message(&mut self, message: ServerMessage) -> (r: bool)
        ensures
            r == final(self).complete(),
            match message {
                ServerMessage::HelloAck(a) => final(self).hello_ack == Some(a)
                    && final(self).initial_snapshot == old(self).initial_snapshot
                    && final(self).warnings@ == old(self).warnings@,
                ServerMessage::InitialSnapshot(sn) => final(self).initial_snapshot == Some(sn)
                    && final(self).hello_ack == old(self).hello_ack
                    && final(self).warnings@ == old(self).warnings@,
                ServerMessage::Warning(w) => final(self).warnings@ == old(self).warnings@.push(w)
                    && final(self).hello_ack == old(self).hello_ack
                    && final(self).initial_snapshot == old(self).initial_snapshot,
                _ => final(self).hello_ack == old(self).hello_ack
                    && final(self).initial_snapshot == old(self).initial_snapshot
                    && final(self).warnings@ == old(self).warnings@,
            },
    {
        match message {
            ServerMessage::HelloAck(a) => {
                self.hello_ack = Some(a);
            },
            ServerMessage::InitialSnapshot(sn) => {
                self.initial_snapshot = Some(sn);
            },
            ServerMessage::Warning(w) => {
                self.warnings.push(w);
            },
            _ => {},
        }
        self.hello_ack.is_some() && self.initial_snapshot.is_some()
    }

    /// The error when the stream ends before startup completes.
    pub fn ended_early() -> (r: String)
        ensures
            r@ == "daemon session ended before startup completed"@,
    {
        String::from_str("daemon session ended before startup completed")
    }
}

} // verus!
