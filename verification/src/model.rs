//! Mathematical views of the domain types: strings become character
//! sequences and vectors become sequences, so that two values with the same
//! characters have equal views.
use vstd::prelude::*;

use crate::protocol::{
    ArtifactDescriptor, BackendKind, DiffOp, DomainProfile, ElementNode, ElementStates, Locator, LocatorSegment,
    ObservationScope, PropertyValue, Rect, SessionProfile, UiDiffBatch, UiSnapshot, WindowLocator,
    WindowState,
};
use crate::text::opt_view;

verus! {

/// View of a locator segment.
#[verifier::ext_equal]
pub struct SegmentV {
    pub control_type: Seq<char>,
    pub class_name: Option<Seq<char>>,
    pub automation_id: Option<Seq<char>>,
    pub name: Option<Seq<char>>,
    pub sibling_ordinal: Option<u32>,
}

/// View of a locator.
#[verifier::ext_equal]
pub struct LocatorV {
    pub window_fingerprint: Seq<char>,
    pub path: Seq<SegmentV>,
}

/// View of a property value.
pub enum PropertyValueV {
    Bool(bool),
    I64(i64),
    F64Bits(u64),
    Str(Seq<char>),
    StrList(Seq<Seq<char>>),
    Rect(Rect),
    Null,
}

/// View of an element subtree.
#[verifier::ext_equal]
pub struct NodeV {
    pub element_id: Seq<char>,
    pub parent_id: Option<Seq<char>>,
    pub backend: BackendKind,
    pub control_type: Seq<char>,
    pub class_name: Option<Seq<char>>,
    pub name: Option<Seq<char>>,
    pub automation_id: Option<Seq<char>>,
    pub native_window_handle: Option<u64>,
    pub bounds: Rect,
    pub locator: LocatorV,
    pub properties: Seq<(Seq<char>, PropertyValueV)>,
    pub states: ElementStates,
    pub children: Seq<NodeV>,
    pub confidence_bits: u64,
}

/// View of a window.
#[verifier::ext_equal]
pub struct WindowV {
    pub window_id: Seq<char>,
    pub pid: u32,
    pub process_name: Option<Seq<char>>,
    pub title: Seq<char>,
    pub bounds: Rect,
    pub backend: BackendKind,
    pub confidence_bits: u64,
    pub root: NodeV,
}

/// View of a window locator.
#[verifier::ext_equal]
pub struct WindowLocatorV {
    pub window_id: Option<Seq<char>>,
    pub title: Option<Seq<char>>,
    pub pid: Option<u32>,
    pub process_name: Option<Seq<char>>,
    pub class_name: Option<Seq<char>>,
}

/// View of a session profile.
#[verifier::ext_equal]
pub struct ProfileV {
    pub observation_scope: ObservationScope,
    pub domain_profile: DomainProfile,
    pub target_filter: Option<WindowLocatorV>,
}

/// View of a snapshot.
#[verifier::ext_equal]
pub struct SnapshotV {
    pub session_id: Seq<char>,
    pub rev: u64,
    pub profile: ProfileV,
    pub captured_at_unix_ms: i64,
    pub windows: Seq<WindowV>,
}

/// View of a diff operation.
pub enum DiffOpV {
    WindowAdded { window: WindowV },
    WindowRemoved { window_id: Seq<char> },
    NodeAdded { parent_id: Seq<char>, node: NodeV },
    NodeRemoved { element_id: Seq<char> },
    NodeReplaced { element_id: Seq<char>, node: NodeV },
    PropertyChanged { element_id: Seq<char>, field: Seq<char>, value: PropertyValueV },
    FocusChanged { window_id: Seq<char>, element_id: Option<Seq<char>> },
    SnapshotResync { reason: Seq<char> },
}

/// View of a diff batch.
#[verifier::ext_equal]
pub struct DiffV {
    pub base_rev: u64,
    pub new_rev: u64,
    pub emitted_at_unix_ms: i64,
    pub ops: Seq<DiffOpV>,
}

impl View for LocatorSegment {
    type V = SegmentV;

    open spec fn view(&self) -> SegmentV {
        SegmentV {
            control_type: self.control_type@,
            class_name: opt_view(self.class_name),
            automation_id: opt_view(self.automation_id),
            name: opt_view(self.name),
            sibling_ordinal: self.sibling_ordinal,
        }
    }
}

impl View for Locator {
    type V = LocatorV;

    open spec fn view(&self) -> LocatorV {
        LocatorV {
            window_fingerprint: self.window_fingerprint@,
            path: self.path@.map_values(|s: LocatorSegment| s@),
        }
    }
}

/// Views of a list of strings.
pub open spec fn strings_view(v: Seq<String>) -> Seq<Seq<char>> {
    v.map_values(|s: String| s@)
}

impl View for PropertyValue {
    type V = PropertyValueV;

    open spec fn view(&self) -> PropertyValueV {
        match self {
            PropertyValue::Bool(b) => PropertyValueV::Bool(*b),
            PropertyValue::I64(x) => PropertyValueV::I64(*x),
            PropertyValue::F64Bits(x) => PropertyValueV::F64Bits(*x),
            PropertyValue::String(s) => PropertyValueV::Str(s@),
            PropertyValue::StringList(v) => PropertyValueV::StrList(strings_view(v@)),
            PropertyValue::Rect(r) => PropertyValueV::Rect(*r),
            PropertyValue::Null => PropertyValueV::Null,
        }
    }
}

/// Views of a property list.
pub open spec fn properties_view(v: Seq<(String, PropertyValue)>) -> Seq<(Seq<char>, PropertyValueV)> {
    v.map_values(|p: (String, PropertyValue)| (p.0@, p.1@))
}

/// The placeholder view used outside a sequence's bounds.
pub open spec fn empty_node_v() -> NodeV {
    NodeV {
        element_id: Seq::empty(),
        parent_id: None,
        backend: BackendKind::Uia,
        control_type: Seq::empty(),
        class_name: None,
        name: None,
        automation_id: None,
        native_window_handle: None,
        bounds: Rect { left: 0, top: 0, width: 0, height: 0 },
        locator: LocatorV { window_fingerprint: Seq::empty(), path: Seq::empty() },
        properties: Seq::empty(),
        states: ElementStates {
            enabled: false,
            visible: false,
            focused: false,
            selected: false,
            expanded: false,
            toggled: false,
        },
        children: Seq::empty(),
        confidence_bits: 0,
    }
}

/// View of an element subtree.
pub open spec fn node_view(n: ElementNode) -> NodeV
    decreases n,
{
    NodeV {
        element_id: n.element_id@,
        parent_id: match n.parent_id {
            Some(p) => Some(p@),
            None => None,
        },
        backend: n.backend,
        control_type: n.control_type@,
        class_name: opt_view(n.class_name),
        name: opt_view(n.name),
        automation_id: opt_view(n.automation_id),
        native_window_handle: n.native_window_handle,
        bounds: n.bounds,
        locator: n.locator@,
        properties: properties_view(n.properties@),
        states: n.states,
        children: Seq::new(
            n.children@.len(),
            |i: int|
                if 0 <= i < n.children@.len() {
                    node_view(n.children@[i])
                } else {
                    empty_node_v()
                },
        ),
        confidence_bits: n.confidence_bits,
    }
}

impl View for ElementNode {
    type V = NodeV;

    open spec fn view(&self) -> NodeV {
        node_view(*self)
    }
}

/// The views of a list of subtrees.
pub open spec fn nodes_view(v: Seq<ElementNode>) -> Seq<NodeV> {
    v.map_values(|n: ElementNode| n@)
}

/// The children of a node's view are the views of its children.
pub proof fn lemma_children_view(n: ElementNode)
    ensures
        n@.children == nodes_view(n.children@),
        n@.children.len() == n.children@.len(),
{
    assert(n@.children =~= nodes_view(n.children@));
}

impl View for WindowState {
    type V = WindowV;

    open spec fn view(&self) -> WindowV {
        WindowV {
            window_id: self.window_id@,
            pid: self.pid,
            process_name: opt_view(self.process_name),
            title: self.title@,
            bounds: self.bounds,
            backend: self.backend,
            confidence_bits: self.confidence_bits,
            root: self.root@,
        }
    }
}

/// The views of a list of windows.
pub open spec fn windows_view(v: Seq<WindowState>) -> Seq<WindowV> {
    v.map_values(|w: WindowState| w@)
}

impl View for WindowLocator {
    type V = WindowLocatorV;

    open spec fn view(&self) -> WindowLocatorV {
        WindowLocatorV {
            window_id: match self.window_id {
                Some(w) => Some(w@),
                None => None,
            },
            title: opt_view(self.title),
            pid: self.pid,
            process_name: opt_view(self.process_name),
            class_name: opt_view(self.class_name),
        }
    }
}

impl View for SessionProfile {
    type V = ProfileV;

    open spec fn view(&self) -> ProfileV {
        ProfileV {
            observation_scope: self.observation_scope,
            domain_profile: self.domain_profile,
            target_filter: match self.target_filter {
                Some(f) => Some(f@),
                None => None,
            },
        }
    }
}

impl View for UiSnapshot {
    type V = SnapshotV;

    open spec fn view(&self) -> SnapshotV {
        SnapshotV {
            session_id: self.session_id@,
            rev: self.rev,
            profile: self.profile@,
            captured_at_unix_ms: self.captured_at_unix_ms,
            windows: windows_view(self.windows@),
        }
    }
}

impl View for DiffOp {
    type V = DiffOpV;

    open spec fn view(&self) -> DiffOpV {
        match self {
            DiffOp::WindowAdded { window } => DiffOpV::WindowAdded { window: window@ },
            DiffOp::WindowRemoved { window_id } => DiffOpV::WindowRemoved { window_id: window_id@ },
            DiffOp::NodeAdded { parent_id, node } => DiffOpV::NodeAdded {
                parent_id: parent_id@,
                node: node@,
            },
            DiffOp::NodeRemoved { element_id } => DiffOpV::NodeRemoved { element_id: element_id@ },
            DiffOp::NodeReplaced { element_id, node } => DiffOpV::NodeReplaced {
                element_id: element_id@,
                node: node@,
            },
            DiffOp::PropertyChanged { element_id, field, value } => DiffOpV::PropertyChanged {
                element_id: element_id@,
                field: field@,
                value: value@,
            },
            DiffOp::FocusChanged { window_id, element_id } => DiffOpV::FocusChanged {
                window_id: window_id@,
                element_id: match element_id {
                    Some(e) => Some(e@),
                    None => None,
                },
            },
            DiffOp::SnapshotResync { reason } => DiffOpV::SnapshotResync { reason: reason@ },
        }
    }
}

impl View for UiDiffBatch {
    type V = DiffV;

    open spec fn view(&self) -> DiffV {
        DiffV {
            base_rev: self.base_rev,
            new_rev: self.new_rev,
            emitted_at_unix_ms: self.emitted_at_unix_ms,
            ops: self.ops@.map_values(|o: DiffOp| o@),
        }
    }
}

/// View of an artifact descriptor.
#[verifier::ext_equal]
pub struct DescriptorV {
    pub artifact_id: Seq<char>,
    pub kind: Seq<char>,
    pub mime_type: Seq<char>,
    pub size_bytes: u64,
}

impl View for ArtifactDescriptor {
    type V = DescriptorV;

    open spec fn view(&self) -> DescriptorV {
        DescriptorV {
            artifact_id: self.artifact_id@,
            kind: self.kind@,
            mime_type: self.mime_type@,
            size_bytes: self.size_bytes,
        }
    }
}

} // verus!
