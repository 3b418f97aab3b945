//! What a UI backend hands the daemon: action outcomes with their raw
//! artifacts, its capabilities, the parameters of a session it opens, and
//! the events it reports.
use vstd::prelude::*;

use crate::protocol::{
    ActionId, ActionResult, ActionStatus, ArtifactDescriptor, SessionId, SessionProfile, UiDiffBatch,
};

verus! {

/// Bytes a backend produced while acting, not yet stored.
#[derive(Clone, Debug, PartialEq, Eq)]
pub struct BackendArtifact {
    pub kind: String,
    pub mime_type: String,
    pub bytes: Vec<u8>,
}

/// The outcome of an action as the backend reports it.
#[derive(Clone, Debug, PartialEq, Eq)]
pub struct BackendActionResult {
    pub action_id: ActionId,
    pub ok: bool,
    pub status: ActionStatus,
    pub message: String,
    pub artifacts: Vec<BackendArtifact>,
}

impl BackendActionResult {
    /// The protocol result: this outcome with the descriptors under which its
    /// artifacts were stored in place of the raw bytes.
    pub fn into_action_result(self, artifacts: Vec<ArtifactDescriptor>) -> (r: ActionResult)
        ensures
            r.action_id == self.action_id,
            r.ok == self.ok,
            r.status == self.status,
            r.message == self.message,
            r.artifacts == artifacts,
    {
        ActionResult {
            action_id: self.action_id,
            ok: self.ok,
            status: self.status,
            message: self.message,
            artifacts,
        }
    }
}

/// What a backend can observe and produce.
#[derive(Clone, Copy, Debug, PartialEq, Eq, Structural)]
pub struct BackendCapabilities {
    pub supports_live_observer: bool,
    pub supports_uia: bool,
    pub supports_msaa: bool,
    pub supports_ocr_fallback: bool,
    pub supports_artifacts: bool,
}

/// Parameters of a session a backend opens or snapshots.
#[derive(Clone, Debug, PartialEq, Eq)]
pub struct BackendSessionParams {
    pub session_id: SessionId,
    pub profile: SessionProfile,
    pub shallow: bool,
}

/// An event a backend reports while a session is open.
#[derive(Debug, PartialEq)]
pub enum BackendEvent {
    Diff(UiDiffBatch),
    Warning { code: String, message: String },
}

} // verus!
