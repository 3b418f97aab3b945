//! The geometry and verdicts of a panel probe: which points of a target
//! surface are hit-tested, how rectangles and points meet, and how the
//! evidence gathered at a layer is judged.
use vstd::prelude::*;

use crate::materialize::RawObservedNode;
use crate::platform::BackendArtifact;
use crate::protocol::ArtifactId;
use crate::protocol::Rect;
use crate::text::str_equal;

verus! {

/// How much a probe layer saw of the target surface.
#[derive(Clone, Copy, Debug, PartialEq, Eq, Structural)]
pub enum ProbeLayerStatus {
    Observed,
    Insufficient,
    Unsupported,
}

/// The rectangles overlap.
pub open spec fn intersects(a: Rect, b: Rect) -> bool {
    &&& a.left < b.left + b.width
    &&& a.left + a.width > b.left
    &&& a.top < b.top + b.height
    &&& a.top + a.height > b.top
}

/// Whether two rectangles overlap (see `intersects`).
pub fn rects_intersect(lhs: Rect, rhs: Rect) -> (r: bool)
    ensures
        r == intersects(lhs, rhs),
{
    let lhs_right = lhs.left as i64 + lhs.width as i64;
    let lhs_bottom = lhs.top as i64 + lhs.height as i64;
    let rhs_right = rhs.left as i64 + rhs.width as i64;
    let rhs_bottom = rhs.top as i64 + rhs.height as i64;
    (lhs.left as i64) < rhs_right && lhs_right > rhs.left as i64 && (lhs.top as i64) < rhs_bottom && lhs_bottom > rhs.top as i64
}

/// The point lies in the rectangle (its right and bottom edges excluded).
pub open spec fn contains_point(r: Rect, x: int, y: int) -> bool {
    r.left <= x < r.left + r.width && r.top <= y < r.top + r.height
}

/// Whether the point (`x`, `y`) lies in the rectangle (see `contains_point`).
pub fn rect_contains_point(rect: Rect, x: i32, y: i32) -> (r: bool)
    ensures
        r == contains_point(rect, x as int, y as int),
{
    x >= rect.left && y >= rect.top && (x as i64) < rect.left as i64 + rect.width as i64 && (y as i64) < rect.top as i64
        + rect.height as i64
}

/// Division rounded toward zero, as integer division does.
pub open spec fn tdiv(a: int, d: int) -> int {
    if a >= 0 {
        a / d
    } else {
        -((-a) / d)
    }
}

/// How far in from an edge the corner samples lie: a fifth of the
/// length, and at least 8.
pub open spec fn inset(len: int) -> int {
    if tdiv(len, 5) > 8 {
        tdiv(len, 5)
    } else {
        8
    }
}

/// A corner sample's offset from the near edge: the inset, kept inside
/// the surface.
pub open spec fn near(len: int) -> int {
    let last = if len - 1 < i32::MIN { i32::MIN as int } else { len - 1 };
    if inset(len) < last {
        inset(len)
    } else {
        last
    }
}

/// A corner sample's offset from the near edge when measured in from the
/// far edge: the length less the inset, at least one, less one.
pub open spec fn far(len: int) -> int {
    (if len - inset(len) > 1 { len - inset(len) } else { 1 }) - 1
}

/// The hit-test samples of a surface: its centre and four points inset
/// from its corners, each with its label.
pub open spec fn probe_points(b: Rect) -> Seq<(Seq<char>, int, int)> {
    seq![
        ("center"@, b.left + tdiv(b.width as int, 2), b.top + tdiv(b.height as int, 2)),
        ("top_left"@, b.left + near(b.width as int), b.top + near(b.height as int)),
        ("top_right"@, b.left + far(b.width as int), b.top + near(b.height as int)),
        ("bottom_left"@, b.left + near(b.width as int), b.top + far(b.height as int)),
        ("bottom_right"@, b.left + far(b.width as int), b.top + far(b.height as int)),
    ]
}

/// Every sample of the surface, and the length less the inset along each
/// side, fit in 32 bits.
pub open spec fn probe_points_fit(b: Rect) -> bool {
    &&& i32::MIN <= b.width - inset(b.width as int) <= i32::MAX
    &&& i32::MIN <= b.height - inset(b.height as int) <= i32::MAX
    &&& forall|k: int| 0 <= k < 5 ==> i32::MIN <= (#[trigger] probe_points(b)[k]).1 <= i32::MAX && i32::MIN <= probe_points(b)[k].2 <= i32::MAX
}

/// `a` divided by `d`, rounded toward zero (see `tdiv`).
fn div_toward_zero(a: i64, d: i64) -> (r: i64)
    requires
        i32::MIN <= a <= i32::MAX,
        d > 0,
    ensures
        r == tdiv(a as int, d as int),
        -i32::MAX - 1 <= r <= i32::MAX,
{
    if a >= 0 {
        a / d
    } else {
        -((-a) / d)
    }
}

/// The offsets of a side's corner samples from its near edge, going in
/// from the near and from the far edge.
fn side_offsets(len: i32) -> (r: (i64, i64))
    ensures
        r.0 == near(len as int),
        r.1 == far(len as int),
{
    let fifth = div_toward_zero(len as i64, 5);
    let ins: i64 = if fifth > 8 {
        fifth
    } else {
        8
    };
    let last: i64 = if (len as i64) - 1 < i32::MIN as i64 {
        i32::MIN as i64
    } else {
        len as i64 - 1
    };
    let n = if ins < last {
        ins
    } else {
        last
    };
    let rest = len as i64 - ins;
    let f = (if rest > 1 {
        rest
    } else {
        1
    }) - 1;
    (n, f)
}

/// The hit-test samples of a surface (see `probe_points`).
pub fn hit_test_points(bounds: Rect) -> (r: Vec<(&'static str, i32, i32)>)
    requires
        probe_points_fit(bounds),
    ensures
        r@.map_values(|p: (&'static str, i32, i32)| (p.0@, p.1 as int, p.2 as int)) == probe_points(bounds),
{
    let ghost pts = probe_points(bounds);
    assert(i32::MIN <= pts[0].1 <= i32::MAX && i32::MIN <= pts[0].2 <= i32::MAX);
    assert(i32::MIN <= pts[1].1 <= i32::MAX && i32::MIN <= pts[1].2 <= i32::MAX);
    assert(i32::MIN <= pts[2].1 <= i32::MAX && i32::MIN <= pts[2].2 <= i32::MAX);
    assert(i32::MIN <= pts[3].1 <= i32::MAX && i32::MIN <= pts[3].2 <= i32::MAX);
    assert(i32::MIN <= pts[4].1 <= i32::MAX && i32::MIN <= pts[4].2 <= i32::MAX);
    let (nx, fx) = side_offsets(bounds.width);
    let (ny, fy) = side_offsets(bounds.height);
    let cx = bounds.left as i64 + div_toward_zero(bounds.width as i64, 2);
    let cy = bounds.top as i64 + div_toward_zero(bounds.height as i64, 2);
    let left = bounds.left as i64;
    let top = bounds.top as i64;
    let mut out: Vec<(&'static str, i32, i32)> = Vec::new();
    out.push(("center", cx as i32, cy as i32));
    out.push(("top_left", (left + nx) as i32, (top + ny) as i32));
    out.push(("top_right", (left + fx) as i32, (top + ny) as i32));
    out.push(("bottom_left", (left + nx) as i32, (top + fy) as i32));
    out.push(("bottom_right", (left + fx) as i32, (top + fy) as i32));
    assert(out@.map_values(|p: (&'static str, i32, i32)| (p.0@, p.1 as int, p.2 as int)) =~= pts);
    out
}

/// The verdict of the hit-test layer: observed when some sample resolved
/// UI Automation or MSAA semantics, insufficient otherwise; with its note.
pub fn hit_test_verdict(rich_samples: usize) -> (r: (ProbeLayerStatus, Option<String>))
    ensures
        rich_samples > 0 ==> r.0 == ProbeLayerStatus::Observed && (r.1 matches Some(m)
            && m@ == "captured point hit-test evidence for the target surface"@),
        rich_samples == 0 ==> r.0 == ProbeLayerStatus::Insufficient && (r.1 matches Some(m)
            && m@ == "point hit-tests resolved HWNDs but no meaningful UIA/MSAA semantics"@),
{
    if rich_samples > 0 {
        (ProbeLayerStatus::Observed, Some(String::from_str("captured point hit-test evidence for the target surface")))
    } else {
        (
            ProbeLayerStatus::Insufficient,
            Some(String::from_str("point hit-tests resolved HWNDs but no meaningful UIA/MSAA semantics")),
        )
    }
}

/// A UI Automation probe root that says nothing: no children, no name, no
/// automation id, and a bare `Pane` or `Custom` control.
pub open spec fn looks_opaque(children: nat, name: Option<Seq<char>>, automation_id: Option<Seq<char>>, control_type: Seq<char>) -> bool {
    &&& children == 0
    &&& name is None
    &&& automation_id is None
    &&& (control_type == "Pane"@ || control_type == "Custom"@)
}

/// Whether a UI Automation probe root says nothing (see `looks_opaque`).
pub fn uia_probe_looks_opaque(root: &RawObservedNode) -> (r: bool)
    ensures
        r == looks_opaque(
            root.children@.len(),
            match root.name {
                Some(n) => Some(n@),
                None => None,
            },
            match root.automation_id {
                Some(n) => Some(n@),
                None => None,
            },
            root.control_type@,
        ),
{
    root.children.len() == 0 && root.name.is_none() && root.automation_id.is_none() && (str_equal(
        root.control_type.as_str(),
        "Pane",
    ) || str_equal(root.control_type.as_str(), "Custom"))
}

/// The verdict of a UI Automation layer: insufficient when its root says
/// nothing, observed otherwise.
pub fn uia_layer_status(root: &RawObservedNode) -> (r: ProbeLayerStatus)
    ensures
        r == (if looks_opaque(
            root.children@.len(),
            match root.name {
                Some(n) => Some(n@),
                None => None,
            },
            match root.automation_id {
                Some(n) => Some(n@),
                None => None,
            },
            root.control_type@,
        ) {
            ProbeLayerStatus::Insufficient
        } else {
            ProbeLayerStatus::Observed
        }),
{
    if uia_probe_looks_opaque(root) {
        ProbeLayerStatus::Insufficient
    } else {
        ProbeLayerStatus::Observed
    }
}

/// The layers a panel probe looks through, in the order it looks.
#[derive(Clone, Copy, Debug, PartialEq, Eq, Structural)]
pub enum PanelProbeLayerKind {
    HwndHierarchy,
    UiaRaw,
    UiaControl,
    UiaContent,
    Msaa,
    HitTest,
    Capture,
}

/// What one layer of a panel probe found, and where its evidence went.
#[derive(Clone, Debug, PartialEq, Eq)]
pub struct PanelProbeLayer {
    pub layer: PanelProbeLayerKind,
    pub status: ProbeLayerStatus,
    pub artifact_kind: Option<String>,
    pub artifact_id: Option<ArtifactId>,
    pub mime_type: Option<String>,
    pub message: Option<String>,
}

/// The depth a probe walks a tree to: the one asked for (the default when
/// none is), and at least one.
pub open spec fn probe_depth(asked: Option<u32>, default: u32) -> u32 {
    let d = match asked {
        Some(d) => d,
        None => default,
    };
    if d > 1 { d } else { 1 }
}

/// The depth a probe walks a tree to (see `probe_depth`).
pub fn probe_max_depth(asked: Option<u32>, default: u32) -> (r: u32)
    ensures
        r == probe_depth(asked, default),
{
    let d = match asked {
        Some(d) => d,
        None => default,
    };
    if d > 1 {
        d
    } else {
        1
    }
}

/// Same layer, status, artifact kind and id, and note.
pub open spec fn same_layer_facts(a: PanelProbeLayer, b: PanelProbeLayer) -> bool {
    &&& a.layer == b.layer
    &&& a.status == b.status
    &&& a.artifact_kind == b.artifact_kind
    &&& a.artifact_id == b.artifact_id
    &&& a.message == b.message
}

/// Records a layer and its evidence: the layer takes the evidence's MIME
/// type when there is evidence, and the evidence joins the artifacts.
pub fn push_probe_layer(
    layers: &mut Vec<PanelProbeLayer>,
    artifacts: &mut Vec<BackendArtifact>,
    layer: PanelProbeLayer,
    artifact: Option<BackendArtifact>,
)
    ensures
        final(layers)@.len() == old(layers)@.len() + 1,
        final(layers)@.take(old(layers)@.len() as int) == old(layers)@,
        same_layer_facts(final(layers)@.last(), layer),
        match artifact {
            Some(a) => {
                &&& final(layers)@.last().mime_type matches Some(m) && m@ == a.mime_type@
                &&& final(artifacts)@ == old(artifacts)@.push(a)
            },
            None => {
                &&& final(layers)@.last().mime_type == layer.mime_type
                &&& final(artifacts)@ == old(artifacts)@
            },
        },
{
    let ghost l0 = layers@;
    match artifact {
        Some(a) => {
            let mime = a.mime_type.clone();
            layers.push(PanelProbeLayer { mime_type: Some(mime), ..layer });
            artifacts.push(a);
        },
        None => {
            layers.push(layer);
        },
    }
    assert(layers@.take(l0.len() as int) =~= l0);
}

/// The capture layer: the surface was captured, as the capture artifact.
pub fn capture_layer(capture: &BackendArtifact) -> (r: PanelProbeLayer)
    ensures
        r.layer == PanelProbeLayerKind::Capture,
        r.status == ProbeLayerStatus::Observed,
        r.artifact_kind matches Some(k) && k@ == capture.kind@,
        r.artifact_id is None,
        r.mime_type matches Some(m) && m@ == capture.mime_type@,
        r.message matches Some(m) && m@ == "captured target surface"@,
{
    PanelProbeLayer {
        layer: PanelProbeLayerKind::Capture,
        status: ProbeLayerStatus::Observed,
        artifact_kind: Some(capture.kind.clone()),
        artifact_id: None,
        mime_type: Some(capture.mime_type.clone()),
        message: Some(String::from_str("captured target surface")),
    }
}

} // verus!
