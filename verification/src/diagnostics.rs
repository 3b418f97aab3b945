//! What a post-failure diagnostic bundle holds: the context of the failed
//! step as the external runner reported it, the target and its tree, the
//! windows and recent diffs, the baseline comparison, and the elements that
//! were observed through a fallback rather than a confident UI Automation
//! read; and which artifacts the bundle is stored as.
use vstd::prelude::*;

use crate::agent::{build_tree_payload, is_tree_read, opt_element_id_view, opt_locator_view, resolve_element_among, resolve_window_among, resolved_element, resolved_window, TreePayload};
use crate::compare::{compare_snapshots, countable, is_comparison, prop_text, property_string, SnapshotComparison};
use crate::copy::{copy_window_locator, copy_locator, copy_windows};
use crate::diffspec::window_index;
use crate::model::{properties_view, windows_view, NodeV, WindowV};
use crate::payload::TargetV;
use crate::protocol::{
    ActionId, ActionResult, ActionStatus, ActionTarget, ArtifactDescriptor, ArtifactId, BackendKind, DiagnosticBundleOptions, DiagnosticStepVerdict, ElementId,
    ElementLocator, ElementNode, RegionTarget, SessionId, SessionMode, UiDiffBatch, UiSnapshot, WindowId,
    WindowState,
};
use crate::state::find_window;
use crate::text::{copy_opt_string, opt_view};
use crate::decimal::{decimal, u64_to_decimal};
use crate::tree::{node_at, path_view, subtree_at};

verus! {

// ----- confidences -----

/// The bits of the double the confidence threshold 0.6 (a single) widens to.
pub const LOW_CONFIDENCE_BITS: u64 = 0x3fe3_3333_4000_0000;

/// A double's bits hold a NaN.
pub open spec fn is_nan_bits(b: u64) -> bool {
    (b / 0x10_0000_0000_0000) % 2048 == 2047 && b % 0x10_0000_0000_0000 != 0
}

/// The IEEE-754 order of doubles, on their bits: NaN is unordered, the two
/// zeros are equal, non-negative values order as their bits do and
/// negative ones the other way round.
pub open spec fn double_less(a: u64, b: u64) -> bool {
    let neg_a = a >= 0x8000_0000_0000_0000;
    let neg_b = b >= 0x8000_0000_0000_0000;
    let ma = a % 0x8000_0000_0000_0000;
    let mb = b % 0x8000_0000_0000_0000;
    &&& !is_nan_bits(a)
    &&& !is_nan_bits(b)
    &&& if !neg_a && !neg_b {
        ma < mb
    } else if neg_a && neg_b {
        mb < ma
    } else if neg_a {
        !(ma == 0 && mb == 0)
    } else {
        false
    }
}

/// Whether the double with bits `a` is less than the one with bits `b`.
pub fn double_bits_less(a: u64, b: u64) -> (r: bool)
    ensures
        r == double_less(a, b),
{
    let nan_a = (a / 0x10_0000_0000_0000) % 2048 == 2047 && a % 0x10_0000_0000_0000 != 0;
    let nan_b = (b / 0x10_0000_0000_0000) % 2048 == 2047 && b % 0x10_0000_0000_0000 != 0;
    if nan_a || nan_b {
        return false;
    }
    let neg_a = a >= 0x8000_0000_0000_0000;
    let neg_b = b >= 0x8000_0000_0000_0000;
    let ma = a % 0x8000_0000_0000_0000;
    let mb = b % 0x8000_0000_0000_0000;
    if !neg_a && !neg_b {
        ma < mb
    } else if neg_a && neg_b {
        mb < ma
    } else if neg_a {
        !(ma == 0 && mb == 0)
    } else {
        false
    }
}

// ----- fallback surfaces -----

/// An element observed through a fallback: by a 1C fallback, by another
/// backend than UI Automation, or with a confidence below 0.6.
#[derive(Debug, PartialEq)]
pub struct FallbackSurface {
    pub window_id: WindowId,
    pub element_id: ElementId,
    pub backend: BackendKind,
    /// The bits of the double of the element's confidence.
    pub confidence_bits: u64,
    pub onec_profile: Option<String>,
    pub onec_fallback_reason: Option<String>,
}

/// View of a fallback surface.
pub struct SurfaceV {
    pub window_id: Seq<char>,
    pub element_id: Seq<char>,
    pub backend: BackendKind,
    pub confidence_bits: u64,
    pub onec_profile: Option<Seq<char>>,
    pub onec_fallback_reason: Option<Seq<char>>,
}

impl View for FallbackSurface {
    type V = SurfaceV;

    open spec fn view(&self) -> SurfaceV {
        SurfaceV {
            window_id: self.window_id@,
            element_id: self.element_id@,
            backend: self.backend,
            confidence_bits: self.confidence_bits,
            onec_profile: opt_view(self.onec_profile),
            onec_fallback_reason: opt_view(self.onec_fallback_reason),
        }
    }
}

/// Views of surfaces.
pub open spec fn surfaces_view(v: Seq<FallbackSurface>) -> Seq<SurfaceV> {
    v.map_values(|s: FallbackSurface| s@)
}

/// Whether an element was observed through a fallback.
pub open spec fn is_fallback(n: NodeV) -> bool {
    ||| prop_text(n.properties, "onec_fallback_reason"@) is Some
    ||| n.backend != BackendKind::Uia
    ||| double_less(n.confidence_bits, LOW_CONFIDENCE_BITS)
}

/// The surface an element of window `wid` is.
pub open spec fn surface_of(wid: Seq<char>, n: NodeV) -> SurfaceV {
    SurfaceV {
        window_id: wid,
        element_id: n.element_id,
        backend: n.backend,
        confidence_bits: n.confidence_bits,
        onec_profile: prop_text(n.properties, "onec_profile"@),
        onec_fallback_reason: prop_text(n.properties, "onec_fallback_reason"@),
    }
}

/// The fallback surfaces of a subtree, in pre-order.
pub open spec fn node_surfaces(wid: Seq<char>, n: NodeV) -> Seq<SurfaceV>
    decreases n, 1int, 0int,
{
    (if is_fallback(n) {
        seq![surface_of(wid, n)]
    } else {
        Seq::empty()
    }) + children_surfaces(wid, n, 0)
}

/// The fallback surfaces of the children of `n` from `i` on, in order.
pub open spec fn children_surfaces(wid: Seq<char>, n: NodeV, i: int) -> Seq<SurfaceV>
    decreases n, 0int, n.children.len() - i,
{
    if 0 <= i < n.children.len() {
        node_surfaces(wid, n.children[i]) + children_surfaces(wid, n, i + 1)
    } else {
        Seq::empty()
    }
}

/// Appends the fallback surfaces of a subtree of window `window_id` (see `node_surfaces`).
pub fn collect_fallback_surfaces_from_node(surfaces: &mut Vec<FallbackSurface>, window_id: &WindowId, node: &ElementNode)
    ensures
        surfaces_view(final(surfaces)@) == surfaces_view(old(surfaces)@) + node_surfaces(window_id@, node@),
    decreases node,
{
    proof {
        crate::model::lemma_children_view(*node);
    }
    let ghost start = surfaces_view(surfaces@);
    let reason = property_string(&node.properties, "onec_fallback_reason");
    let profile = property_string(&node.properties, "onec_profile");
    let low = double_bits_less(node.confidence_bits, LOW_CONFIDENCE_BITS);
    let backend_other = match node.backend {
        BackendKind::Uia => false,
        _ => true,
    };
    if reason.is_some() || backend_other || low {
        surfaces.push(
            FallbackSurface {
                window_id: WindowId(window_id.0.clone()),
                element_id: ElementId(node.element_id.0.clone()),
                backend: node.backend,
                confidence_bits: node.confidence_bits,
                onec_profile: profile,
                onec_fallback_reason: reason,
            },
        );
    }
    let ghost head = surfaces_view(surfaces@);
    proof {
        assert(head =~= start + (if is_fallback(node@) {
            seq![surface_of(window_id@, node@)]
        } else {
            Seq::empty()
        }));
        assert(children_surfaces(window_id@, node@, 0) == children_surfaces(window_id@, node@, 0));
    }
    let mut i: usize = 0;
    while i < node.children.len()
        invariant
            i <= node.children@.len(),
            node@.children == crate::model::nodes_view(node.children@),
            head + children_surfaces(window_id@, node@, 0) == surfaces_view(surfaces@) + children_surfaces(
                window_id@,
                node@,
                i as int,
            ),
        decreases node.children@.len() - i,
    {
        proof {
            assert(decreases_to!(node => node.children));
            assert(decreases_to!(node.children => node.children@));
            assert(decreases_to!(node.children@ => node.children@[i as int]));
        }
        let ghost before = surfaces_view(surfaces@);
        collect_fallback_surfaces_from_node(surfaces, window_id, &node.children[i]);
        proof {
            assert(node@.children[i as int] == node.children@[i as int]@);
            assert(children_surfaces(window_id@, node@, i as int) == node_surfaces(window_id@, node.children@[i as int]@)
                + children_surfaces(window_id@, node@, i + 1));
            assert(before + children_surfaces(window_id@, node@, i as int) =~= surfaces_view(surfaces@)
                + children_surfaces(window_id@, node@, i + 1));
        }
        i = i + 1;
    }
    proof {
        assert(surfaces_view(surfaces@) + children_surfaces(window_id@, node@, i as int) =~= surfaces_view(surfaces@));
        assert(surfaces_view(surfaces@) =~= start + node_surfaces(window_id@, node@));
    }
}

/// The fallback surfaces of each window's tree from `i` on, in order.
pub open spec fn windows_surfaces(ws: Seq<WindowV>, i: int) -> Seq<SurfaceV>
    decreases ws.len() - i,
{
    if 0 <= i < ws.len() {
        node_surfaces(ws[i].window_id, ws[i].root) + windows_surfaces(ws, i + 1)
    } else {
        Seq::empty()
    }
}

/// The fallback surfaces a target covers: every window's for the
/// desktop, the named window's, the named element's subtree's, or the
/// tree of the window a region names.
pub open spec fn fallback_surfaces_of(ws: Seq<WindowV>, t: TargetV) -> Seq<SurfaceV> {
    match t {
        TargetV::Desktop => windows_surfaces(ws, 0),
        TargetV::Window(l) => match resolved_window(ws, l) {
            Some(k) => node_surfaces(ws[k].window_id, ws[k].root),
            None => Seq::empty(),
        },
        TargetV::Element { element_id, locator } => match resolved_element(ws, element_id, locator) {
            Some((k, p)) => node_surfaces(ws[k].window_id, node_at(ws[k].root, p)),
            None => Seq::empty(),
        },
        TargetV::Region { window_id, .. } => match window_id {
            Some(id) => match window_index(ws, id, 0) {
                Some(k) => node_surfaces(ws[k].window_id, ws[k].root),
                None => Seq::empty(),
            },
            None => Seq::empty(),
        },
    }
}

/// The fallback surfaces a target covers in a snapshot (see `fallback_surfaces_of`).
pub fn collect_fallback_surfaces(snapshot: &UiSnapshot, target: &ActionTarget) -> (r: Vec<FallbackSurface>)
    ensures
        surfaces_view(r@) == fallback_surfaces_of(snapshot@.windows, target@),
{
    let ghost ws = windows_view(snapshot.windows@);
    assert(snapshot@.windows == ws);
    let mut surfaces: Vec<FallbackSurface> = Vec::new();
    assert(surfaces_view(surfaces@) =~= Seq::<SurfaceV>::empty());
    match target {
        ActionTarget::Desktop => {
            let mut i: usize = 0;
            while i < snapshot.windows.len()
                invariant
                    i <= snapshot.windows@.len(),
                    ws == windows_view(snapshot.windows@),
                    surfaces_view(surfaces@) + windows_surfaces(ws, i as int) == windows_surfaces(ws, 0),
                decreases snapshot.windows@.len() - i,
            {
                let w = &snapshot.windows[i];
                let ghost before = surfaces_view(surfaces@);
                collect_fallback_surfaces_from_node(&mut surfaces, &w.window_id, &w.root);
                assert(before + windows_surfaces(ws, i as int) =~= surfaces_view(surfaces@) + windows_surfaces(ws, i + 1));
                i = i + 1;
            }
            assert(surfaces_view(surfaces@) + windows_surfaces(ws, i as int) =~= surfaces_view(surfaces@));
        },
        ActionTarget::Window(l) => {
            if let Some(k) = resolve_window_among(&snapshot.windows, l) {
                let w = &snapshot.windows[k];
                collect_fallback_surfaces_from_node(&mut surfaces, &w.window_id, &w.root);
            }
        },
        ActionTarget::Element(e) => {
            if let Some((k, p)) = resolve_element_among(&snapshot.windows, &e.element_id, &e.locator) {
                proof {
                    crate::agent::lemma_resolved_element_valid(ws, opt_element_id_view(e.element_id), opt_locator_view(e.locator));
                    assert(path_view(p@).skip(0) =~= path_view(p@));
                }
                let w = &snapshot.windows[k];
                let n = subtree_at(&w.root, &p, 0);
                collect_fallback_surfaces_from_node(&mut surfaces, &w.window_id, n);
            }
        },
        ActionTarget::Region(region) => {
            if let Some(id) = &region.window_id {
                if let Some(k) = find_window(&snapshot.windows, id.0.as_str()) {
                    proof {
                        crate::diffspec::lemma_window_index(ws, id@, 0);
                    }
                    let w = &snapshot.windows[k];
                    collect_fallback_surfaces_from_node(&mut surfaces, &w.window_id, &w.root);
                }
            }
        },
    }
    surfaces
}

// ----- the bundle -----

/// The context of the failed step: as the external runner reported it,
/// with where the verdict came from and how the daemon's collection went.
#[derive(Debug, PartialEq)]
pub struct DiagnosticContext {
    pub session_id: SessionId,
    pub mode: SessionMode,
    pub step_id: Option<String>,
    pub step_label: String,
    pub test_verdict: DiagnosticStepVerdict,
    pub test_verdict_source: String,
    pub daemon_diagnostic_status: String,
    pub note: Option<String>,
    pub baseline_artifact_id: Option<ArtifactId>,
}

/// A post-failure diagnostic bundle.
#[derive(Debug)]
pub struct DiagnosticBundle {
    pub context: DiagnosticContext,
    pub target: ActionTarget,
    pub active_windows: Vec<WindowState>,
    pub target_tree: Option<TreePayload>,
    pub recent_diffs: Vec<UiDiffBatch>,
    pub baseline_comparison: Option<BaselineComparison>,
    pub fallback_surfaces: Vec<FallbackSurface>,
}

/// What reading the baseline artifact gave: its snapshot, or why there is
/// none (the artifact could not be read, or holds no snapshot).
#[derive(Debug)]
pub enum BaselineRead {
    Snapshot(UiSnapshot),
    Missing(String),
    Invalid(String),
}

/// How the current snapshot compares with the baseline artifact's.
#[derive(Debug)]
pub enum BaselineComparison {
    /// The baseline snapshot (expected) against the current one (actual).
    Compared { baseline_artifact_id: ArtifactId, comparison: SnapshotComparison },
    /// The baseline artifact could not be read.
    MissingArtifact { baseline_artifact_id: ArtifactId, message: String },
    /// The baseline artifact holds no snapshot.
    InvalidArtifact { baseline_artifact_id: ArtifactId, message: String },
}

/// Every window of the snapshot can be summarized.
pub open spec fn all_countable(ws: Seq<WindowV>) -> bool {
    forall|i: int| 0 <= i < ws.len() ==> countable(#[trigger] ws[i])
}

/// The baseline read can be compared: its snapshot's windows, if it has one,
/// can be summarized.
pub open spec fn baseline_countable(b: Option<BaselineRead>) -> bool {
    match b {
        Some(BaselineRead::Snapshot(s)) => all_countable(s@.windows),
        _ => true,
    }
}

/// `r` is the baseline comparison for the baseline artifact `id` (if one
/// was named) given what reading it gave and the current snapshot.
pub open spec fn is_baseline_comparison(
    r: Option<BaselineComparison>,
    id: Option<ArtifactId>,
    read: Option<BaselineRead>,
    current: crate::model::SnapshotV,
) -> bool {
    match (r, id, read) {
        (None, None, _) => true,
        (Some(BaselineComparison::Compared { baseline_artifact_id, comparison }), Some(a), Some(BaselineRead::Snapshot(b))) =>
            baseline_artifact_id@ == a@ && is_comparison(comparison, b@, current),
        (Some(BaselineComparison::MissingArtifact { baseline_artifact_id, message }), Some(a), Some(BaselineRead::Missing(m))) =>
            baseline_artifact_id@ == a@ && message@ == m@,
        (Some(BaselineComparison::InvalidArtifact { baseline_artifact_id, message }), Some(a), Some(BaselineRead::Invalid(m))) =>
            baseline_artifact_id@ == a@ && message@ == m@,
        _ => false,
    }
}

/// The baseline comparison: none when no baseline artifact was named;
/// otherwise the comparison of its snapshot (expected) with the current
/// one (actual), or why it could not be made.
pub fn build_baseline_comparison(
    snapshot: &UiSnapshot,
    baseline_artifact_id: &Option<ArtifactId>,
    read: Option<BaselineRead>,
) -> (r: Option<BaselineComparison>)
    requires
        (baseline_artifact_id is Some) == (read is Some),
        baseline_countable(read),
        all_countable(snapshot@.windows),
    ensures
        is_baseline_comparison(r, *baseline_artifact_id, read, snapshot@),
        (r is Some) == (baseline_artifact_id is Some),
{
    match (baseline_artifact_id, read) {
        (Some(a), Some(BaselineRead::Snapshot(b))) => Some(
            BaselineComparison::Compared { baseline_artifact_id: ArtifactId(a.0.clone()), comparison: compare_snapshots(&b, snapshot) },
        ),
        (Some(a), Some(BaselineRead::Missing(m))) => Some(
            BaselineComparison::MissingArtifact { baseline_artifact_id: ArtifactId(a.0.clone()), message: m },
        ),
        (Some(a), Some(BaselineRead::Invalid(m))) => Some(
            BaselineComparison::InvalidArtifact { baseline_artifact_id: ArtifactId(a.0.clone()), message: m },
        ),
        _ => None,
    }
}

/// A copy of an action target.
pub(crate) fn copy_target(t: &ActionTarget) -> (r: ActionTarget)
    ensures
        r@ == t@,
{
    match t {
        ActionTarget::Desktop => ActionTarget::Desktop,
        ActionTarget::Window(l) => ActionTarget::Window(copy_window_locator(l)),
        ActionTarget::Element(e) => ActionTarget::Element(
            ElementLocator {
                element_id: match &e.element_id {
                    Some(x) => Some(ElementId(x.0.clone())),
                    None => None,
                },
                locator: match &e.locator {
                    Some(l) => Some(copy_locator(l)),
                    None => None,
                },
            },
        ),
        ActionTarget::Region(r) => ActionTarget::Region(
            RegionTarget {
                window_id: match &r.window_id {
                    Some(x) => Some(WindowId(x.0.clone())),
                    None => None,
                },
                bounds: r.bounds,
            },
        ),
    }
}

/// The bundle of a failed step in session `session_id`: the runner's
/// verdict kept as given (its source is the external runner, the daemon's
/// collection completed), the target, the snapshot's windows, the target's
/// tree (wrapped, cut at the depth the options ask for), the recent diffs,
/// the baseline comparison exactly when a baseline artifact is named, and
/// the fallback surfaces the target covers.
pub fn build_diagnostic_bundle(
    session_id: &SessionId,
    mode: SessionMode,
    options: &DiagnosticBundleOptions,
    target: &ActionTarget,
    snapshot: &UiSnapshot,
    recent_diffs: Vec<UiDiffBatch>,
    baseline: Option<BaselineRead>,
) -> (r: DiagnosticBundle)
    requires
        (options.baseline_artifact_id is Some) == (baseline is Some),
        baseline_countable(baseline),
        all_countable(snapshot@.windows),
    ensures
        r.context.session_id@ == session_id@,
        r.context.mode == mode,
        opt_view(r.context.step_id) == opt_view(options.step_id),
        r.context.step_label@ == options.step_label@,
        r.context.test_verdict == options.test_verdict,
        r.context.test_verdict_source@ == "external_runner"@,
        r.context.daemon_diagnostic_status@ == "completed"@,
        opt_view(r.context.note) == opt_view(options.note),
        match (r.context.baseline_artifact_id, options.baseline_artifact_id) {
            (Some(a), Some(b)) => a@ == b@,
            (None, None) => true,
            _ => false,
        },
        r.target@ == target@,
        windows_view(r.active_windows@) == snapshot@.windows,
        is_tree_read(r.target_tree, snapshot@, target@, false, options.max_tree_depth),
        r.recent_diffs == recent_diffs,
        is_baseline_comparison(r.baseline_comparison, options.baseline_artifact_id, baseline, snapshot@),
        (r.baseline_comparison is Some) == (options.baseline_artifact_id is Some),
        surfaces_view(r.fallback_surfaces@) == fallback_surfaces_of(snapshot@.windows, target@),
{
    let context = DiagnosticContext {
        session_id: SessionId(session_id.0.clone()),
        mode,
        step_id: copy_opt_string(&options.step_id),
        step_label: options.step_label.clone(),
        test_verdict: options.test_verdict,
        test_verdict_source: String::from_str("external_runner"),
        daemon_diagnostic_status: String::from_str("completed"),
        note: copy_opt_string(&options.note),
        baseline_artifact_id: match &options.baseline_artifact_id {
            Some(a) => Some(ArtifactId(a.0.clone())),
            None => None,
        },
    };
    DiagnosticBundle {
        context,
        target: copy_target(target),
        active_windows: copy_windows(&snapshot.windows),
        target_tree: build_tree_payload(snapshot, target, false, options.max_tree_depth),
        recent_diffs,
        baseline_comparison: build_baseline_comparison(snapshot, &options.baseline_artifact_id, baseline),
        fallback_surfaces: collect_fallback_surfaces(snapshot, target),
    }
}

/// The message of a completed bundle collection of `count` artifacts.
pub open spec fn bundle_message(step_label: Seq<char>, count: nat) -> Seq<char> {
    "collected diagnostic bundle for step `"@ + step_label + "` with "@ + decimal(count) + " artifacts"@
}

/// The result of a completed bundle collection that stored `artifacts`.
pub fn diagnostic_bundle_result(action_id: ActionId, options: &DiagnosticBundleOptions, artifacts: Vec<ArtifactDescriptor>) -> (r: ActionResult)
    ensures
        r.action_id == action_id,
        r.ok,
        r.status == ActionStatus::Completed,
        r.message@ == bundle_message(options.step_label@, artifacts@.len()),
        r.artifacts == artifacts,
{
    let mut message = String::from_str("collected diagnostic bundle for step `");
    message.append(options.step_label.as_str());
    message.append("` with ");
    let count = u64_to_decimal(artifacts.len() as u64);
    message.append(count.as_str());
    message.append(" artifacts");
    ActionResult { action_id, ok: true, status: ActionStatus::Completed, message, artifacts }
}

/// The kinds of the artifacts a bundle is stored as, in order: the bundle,
/// the snapshot, the recent diffs, then the target's tree and the baseline
/// comparison when there are ones.
pub open spec fn bundle_artifact_kinds(has_tree: bool, has_comparison: bool) -> Seq<Seq<char>> {
    seq!["diagnostic-json"@, "snapshot-json"@, "diff-json"@] + (if has_tree {
        seq!["snapshot-json"@]
    } else {
        Seq::empty()
    }) + (if has_comparison {
        seq!["baseline-comparison-json"@]
    } else {
        Seq::empty()
    })
}

/// The kinds of the artifacts a bundle is stored as (see `bundle_artifact_kinds`).
pub fn diagnostic_artifact_kinds(bundle: &DiagnosticBundle) -> (r: Vec<&'static str>)
    ensures
        r@.map_values(|k: &str| k@) == bundle_artifact_kinds(
            bundle.target_tree is Some,
            bundle.baseline_comparison is Some,
        ),
{
    let mut kinds: Vec<&'static str> = Vec::new();
    kinds.push("diagnostic-json");
    kinds.push("snapshot-json");
    kinds.push("diff-json");
    if bundle.target_tree.is_some() {
        kinds.push("snapshot-json");
    }
    if bundle.baseline_comparison.is_some() {
        kinds.push("baseline-comparison-json");
    }
    assert(kinds@.map_values(|k: &str| k@) =~= bundle_artifact_kinds(
        bundle.target_tree is Some,
        bundle.baseline_comparison is Some,
    ));
    kinds
}

} // verus!
