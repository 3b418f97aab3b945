//! Conversions of the UI state messages between the domain and the wire:
//! element subtrees, windows, snapshots, diffs and the daemon's messages.
//! Absent strings travel empty, absent ordinals and handles as zero,
//! backends by name and confidences as singles.
use vstd::prelude::*;

use crate::copy::copy_property_value;
use crate::floatbits::{narrow_f64, narrow_f64_bits, widen_f32, widen_f32_bits};
use crate::model::{
    empty_node_v, lemma_children_view, nodes_view, properties_view, DiffOpV, DiffV, LocatorV, NodeV, ProfileV,
    PropertyValueV, SegmentV, SnapshotV, WindowV,
};
use crate::pb;
use crate::protocol::{
    BackendKind, DiffOp, ElementId, ElementNode, ElementStates, Locator, LocatorSegment, PropertyValue, Rect,
    ServerMessage, SessionId, UiDiffBatch, UiSnapshot, WindowId, WindowState,
};
use crate::text::{opt_view, seq_less, str_equal, str_less};
use crate::clock::{utc_millis_ok, utc_millis_representable};
use crate::wire::{
    ack_encodes, decode_action_result, decode_artifact_ready, decode_hello_ack, decode_session_profile,
    decode_warning, encode_action_result, encode_artifact_ready, encode_hello_ack, encode_warning,
    lemma_profile_roundtrip, none_if_empty, none_if_empty_spec, or_empty, profile_encodes, profile_survives,
    ready_matches, required_profile, result_encodes, result_err, session_profile_to_pb, ConvertError,
    ConvertErrorV,
};

verus! {

// ----- views of the wire structs -----

/// View of a wire locator step.
pub struct PbSegmentV {
    pub control_type: Seq<char>,
    pub class_name: Seq<char>,
    pub automation_id: Seq<char>,
    pub name: Seq<char>,
    pub sibling_ordinal: u32,
}

impl View for pb::LocatorSegment {
    type V = PbSegmentV;

    open spec fn view(&self) -> PbSegmentV {
        PbSegmentV {
            control_type: self.control_type@,
            class_name: self.class_name@,
            automation_id: self.automation_id@,
            name: self.name@,
            sibling_ordinal: self.sibling_ordinal,
        }
    }
}

/// View of a wire locator.
pub struct PbLocatorV {
    pub window_fingerprint: Seq<char>,
    pub path: Seq<PbSegmentV>,
}

impl View for pb::Locator {
    type V = PbLocatorV;

    open spec fn view(&self) -> PbLocatorV {
        PbLocatorV {
            window_fingerprint: self.window_fingerprint@,
            path: self.path@.map_values(|g: pb::LocatorSegment| g@),
        }
    }
}

/// View of an optional property value.
pub open spec fn opt_value_view(v: Option<PropertyValue>) -> Option<PropertyValueV> {
    match v {
        Some(x) => Some(x@),
        None => None,
    }
}

/// Views of wire properties.
pub open spec fn pb_properties_view(ps: Seq<pb::Property>) -> Seq<(Seq<char>, Option<PropertyValueV>)> {
    ps.map_values(|p: pb::Property| (p.key@, opt_value_view(p.value)))
}

/// View of a wire element subtree.
pub struct PbNodeV {
    pub element_id: Seq<char>,
    pub parent_id: Seq<char>,
    pub backend: Seq<char>,
    pub control_type: Seq<char>,
    pub class_name: Seq<char>,
    pub name: Seq<char>,
    pub automation_id: Seq<char>,
    pub native_window_handle: u64,
    pub bounds: Option<pb::Bounds>,
    pub locator: Option<PbLocatorV>,
    pub properties: Seq<(Seq<char>, Option<PropertyValueV>)>,
    pub states: Option<pb::ElementStates>,
    pub children: Seq<PbNodeV>,
    pub confidence_bits: u32,
}

/// The placeholder used outside a sequence's bounds.
pub open spec fn empty_pb_node() -> PbNodeV {
    PbNodeV {
        element_id: Seq::empty(),
        parent_id: Seq::empty(),
        backend: Seq::empty(),
        control_type: Seq::empty(),
        class_name: Seq::empty(),
        name: Seq::empty(),
        automation_id: Seq::empty(),
        native_window_handle: 0,
        bounds: None,
        locator: None,
        properties: Seq::empty(),
        states: None,
        children: Seq::empty(),
        confidence_bits: 0,
    }
}

/// View of a wire element subtree.
pub open spec fn pb_node_view(n: pb::ElementNode) -> PbNodeV
    decreases n,
{
    PbNodeV {
        element_id: n.element_id@,
        parent_id: n.parent_id@,
        backend: n.backend@,
        control_type: n.control_type@,
        class_name: n.class_name@,
        name: n.name@,
        automation_id: n.automation_id@,
        native_window_handle: n.native_window_handle,
        bounds: n.bounds,
        locator: match n.locator {
            Some(l) => Some(l@),
            None => None,
        },
        properties: pb_properties_view(n.properties@),
        states: n.states,
        children: Seq::new(
            n.children@.len(),
            |i: int|
                if 0 <= i < n.children@.len() {
                    pb_node_view(n.children@[i])
                } else {
                    empty_pb_node()
                },
        ),
        confidence_bits: n.confidence_bits,
    }
}

impl View for pb::ElementNode {
    type V = PbNodeV;

    open spec fn view(&self) -> PbNodeV {
        pb_node_view(*self)
    }
}

/// The children of a wire node's view are the views of its children.
pub proof fn lemma_pb_children_view(n: pb::ElementNode)
    ensures
        n@.children == n.children@.map_values(|c: pb::ElementNode| c@),
{
    assert(n@.children =~= n.children@.map_values(|c: pb::ElementNode| c@));
}

// ----- the domain side as it travels -----

/// The wire name of a backend.
pub open spec fn backend_name(b: BackendKind) -> Seq<char> {
    match b {
        BackendKind::Uia => "uia"@,
        BackendKind::Msaa => "msaa"@,
        BackendKind::Ocr => "ocr"@,
        BackendKind::Mixed => "mixed"@,
    }
}

/// The backend a wire name names.
pub open spec fn backend_of(s: Seq<char>) -> Option<BackendKind> {
    if s == "uia"@ {
        Some(BackendKind::Uia)
    } else if s == "msaa"@ {
        Some(BackendKind::Msaa)
    } else if s == "ocr"@ {
        Some(BackendKind::Ocr)
    } else if s == "mixed"@ {
        Some(BackendKind::Mixed)
    } else {
        None
    }
}

/// A rectangle on the wire.
pub open spec fn bounds_of(r: Rect) -> pb::Bounds {
    pb::Bounds { left: r.left, top: r.top, width: r.width, height: r.height }
}

/// The rectangle of wire bounds.
pub open spec fn rect_of(b: pb::Bounds) -> Rect {
    Rect { left: b.left, top: b.top, width: b.width, height: b.height }
}

/// Element states on the wire.
pub open spec fn states_to_pb(s: ElementStates) -> pb::ElementStates {
    pb::ElementStates {
        enabled: s.enabled,
        visible: s.visible,
        focused: s.focused,
        selected: s.selected,
        expanded: s.expanded,
        toggled: s.toggled,
    }
}

/// The element states of their wire form; absent states are all false.
pub open spec fn states_of(s: Option<pb::ElementStates>) -> ElementStates {
    match s {
        Some(s) => ElementStates {
            enabled: s.enabled,
            visible: s.visible,
            focused: s.focused,
            selected: s.selected,
            expanded: s.expanded,
            toggled: s.toggled,
        },
        None => ElementStates {
            enabled: false,
            visible: false,
            focused: false,
            selected: false,
            expanded: false,
            toggled: false,
        },
    }
}

/// A locator step on the wire.
pub open spec fn segment_to_pb(g: SegmentV) -> PbSegmentV {
    PbSegmentV {
        control_type: g.control_type,
        class_name: or_empty(g.class_name),
        automation_id: or_empty(g.automation_id),
        name: or_empty(g.name),
        sibling_ordinal: match g.sibling_ordinal {
            Some(o) => o,
            None => 0,
        },
    }
}

/// The locator step of its wire form.
pub open spec fn segment_of(g: PbSegmentV) -> SegmentV {
    SegmentV {
        control_type: g.control_type,
        class_name: none_if_empty_spec(g.class_name),
        automation_id: none_if_empty_spec(g.automation_id),
        name: none_if_empty_spec(g.name),
        sibling_ordinal: if g.sibling_ordinal == 0 {
            None
        } else {
            Some(g.sibling_ordinal)
        },
    }
}

/// A locator on the wire.
pub open spec fn locator_to_pb(l: LocatorV) -> PbLocatorV {
    PbLocatorV { window_fingerprint: l.window_fingerprint, path: l.path.map_values(|g: SegmentV| segment_to_pb(g)) }
}

/// The locator of its wire form.
pub open spec fn locator_of(l: PbLocatorV) -> LocatorV {
    LocatorV { window_fingerprint: l.window_fingerprint, path: l.path.map_values(|g: PbSegmentV| segment_of(g)) }
}

/// The bits of the single a confidence (the bits of a double) travels as.
pub open spec fn single_of(b: u64) -> u32 {
    narrow_f64(b as nat) as u32
}

/// The bits of the double a confidence received as a single is.
pub open spec fn double_of(f: u32) -> u64 {
    widen_f32(f as nat) as u64
}

/// An element subtree on the wire.
pub open spec fn node_to_pb(n: NodeV) -> PbNodeV
    decreases n,
{
    PbNodeV {
        element_id: n.element_id,
        parent_id: or_empty(n.parent_id),
        backend: backend_name(n.backend),
        control_type: n.control_type,
        class_name: or_empty(n.class_name),
        name: or_empty(n.name),
        automation_id: or_empty(n.automation_id),
        native_window_handle: match n.native_window_handle {
            Some(h) => h,
            None => 0,
        },
        bounds: Some(bounds_of(n.bounds)),
        locator: Some(locator_to_pb(n.locator)),
        properties: n.properties.map_values(|p: (Seq<char>, PropertyValueV)| (p.0, Some(p.1))),
        states: Some(states_to_pb(n.states)),
        children: Seq::new(
            n.children.len(),
            |i: int|
                if 0 <= i < n.children.len() {
                    node_to_pb(n.children[i])
                } else {
                    empty_pb_node()
                },
        ),
        confidence_bits: single_of(n.confidence_bits),
    }
}

/// Sets `k` to `v` in entries sorted by key: replaces the entry with key
/// `k`, or inserts one before the first greater key.
pub open spec fn put_prop(s: Seq<(Seq<char>, PropertyValueV)>, k: Seq<char>, v: PropertyValueV) -> Seq<
    (Seq<char>, PropertyValueV),
>
    decreases s.len(),
{
    if s.len() == 0 {
        seq![(k, v)]
    } else if s[0].0 == k {
        s.update(0, (k, v))
    } else if seq_less(k, s[0].0) {
        seq![(k, v)] + s
    } else {
        seq![s[0]] + put_prop(s.drop_first(), k, v)
    }
}

/// The properties wire properties hold, in key order, a later key winning;
/// `None` when one of them carries no value.
pub open spec fn props_of(ps: Seq<(Seq<char>, Option<PropertyValueV>)>) -> Option<Seq<(Seq<char>, PropertyValueV)>>
    decreases ps.len(),
{
    if ps.len() == 0 {
        Some(Seq::empty())
    } else {
        match (props_of(ps.drop_last()), ps.last().1) {
            (Some(acc), Some(v)) => Some(put_prop(acc, ps.last().0, v)),
            _ => None,
        }
    }
}

/// The first error among results, in order.
pub open spec fn first_err<T>(s: Seq<Result<T, ConvertErrorV>>) -> Option<ConvertErrorV>
    decreases s.len(),
{
    if s.len() == 0 {
        None
    } else {
        match s[0] {
            Err(e) => Some(e),
            Ok(_) => first_err(s.drop_first()),
        }
    }
}

/// The subtrees of results that are all `Ok`.
pub open spec fn ok_nodes(s: Seq<Result<NodeV, ConvertErrorV>>) -> Seq<NodeV> {
    s.map_values(
        |r: Result<NodeV, ConvertErrorV>|
            match r {
                Ok(x) => x,
                Err(_) => empty_node_v(),
            },
    )
}

/// The results of reading each child of a wire subtree.
pub open spec fn kids_of(p: PbNodeV) -> Seq<Result<NodeV, ConvertErrorV>>
    decreases p, 0int,
{
    Seq::new(
        p.children.len(),
        |i: int|
            if 0 <= i < p.children.len() {
                node_of(p.children[i])
            } else {
                Err(ConvertErrorV::MissingPayload)
            },
    )
}

/// The element subtree a wire subtree describes. Its fields are read in
/// order: the backend, the bounds, the locator, the properties, then each
/// child; the first that fails gives the error.
pub open spec fn node_of(p: PbNodeV) -> Result<NodeV, ConvertErrorV>
    decreases p, 1int,
{
    let kids = kids_of(p);
    match backend_of(p.backend) {
        None => Err(ConvertErrorV::MissingField("backend"@)),
        Some(backend) => match p.bounds {
            None => Err(ConvertErrorV::MissingField("element.bounds"@)),
            Some(bounds) => match p.locator {
                None => Err(ConvertErrorV::MissingField("element.locator"@)),
                Some(locator) => match props_of(p.properties) {
                    None => Err(ConvertErrorV::InvalidJson { field: "property.value_json"@ }),
                    Some(properties) => match first_err(kids) {
                        Some(e) => Err(e),
                        None => Ok(
                            NodeV {
                                element_id: p.element_id,
                                parent_id: none_if_empty_spec(p.parent_id),
                                backend,
                                control_type: p.control_type,
                                class_name: none_if_empty_spec(p.class_name),
                                name: none_if_empty_spec(p.name),
                                automation_id: none_if_empty_spec(p.automation_id),
                                native_window_handle: if p.native_window_handle == 0 {
                                    None
                                } else {
                                    Some(p.native_window_handle)
                                },
                                bounds: rect_of(bounds),
                                locator: locator_of(locator),
                                properties,
                                states: states_of(p.states),
                                children: ok_nodes(kids),
                                confidence_bits: double_of(p.confidence_bits),
                            },
                        ),
                    },
                },
            },
        },
    }
}

// ----- small conversions -----

/// The wire name of a backend.
pub fn encode_backend_kind(b: BackendKind) -> (r: String)
    ensures
        r@ == backend_name(b),
{
    match b {
        BackendKind::Uia => String::from_str("uia"),
        BackendKind::Msaa => String::from_str("msaa"),
        BackendKind::Ocr => String::from_str("ocr"),
        BackendKind::Mixed => String::from_str("mixed"),
    }
}

/// The backend a wire name names; an unknown name counts as a missing backend.
pub fn decode_backend_kind(s: &str) -> (r: Result<BackendKind, ConvertError>)
    ensures
        match r {
            Ok(b) => backend_of(s@) == Some(b),
            Err(e) => backend_of(s@) is None && e@ == ConvertErrorV::MissingField("backend"@),
        },
{
    if str_equal(s, "uia") {
        Ok(BackendKind::Uia)
    } else if str_equal(s, "msaa") {
        Ok(BackendKind::Msaa)
    } else if str_equal(s, "ocr") {
        Ok(BackendKind::Ocr)
    } else if str_equal(s, "mixed") {
        Ok(BackendKind::Mixed)
    } else {
        Err(ConvertError::MissingField(String::from_str("backend")))
    }
}

/// A string, or the empty string when absent.
fn or_empty_string(o: &Option<String>) -> (r: String)
    ensures
        r@ == or_empty(opt_view(*o)),
{
    match o {
        Some(s) => s.clone(),
        None => String::new(),
    }
}

/// Wire bounds of a rectangle.
pub fn encode_bounds(r: Rect) -> (b: pb::Bounds)
    ensures
        b == bounds_of(r),
{
    pb::Bounds { left: r.left, top: r.top, width: r.width, height: r.height }
}

/// The rectangle of wire bounds.
pub fn decode_bounds(b: pb::Bounds) -> (r: Rect)
    ensures
        r == rect_of(b),
{
    Rect { left: b.left, top: b.top, width: b.width, height: b.height }
}

/// Wire form of element states.
pub fn encode_states(s: ElementStates) -> (r: pb::ElementStates)
    ensures
        r == states_to_pb(s),
{
    pb::ElementStates {
        enabled: s.enabled,
        visible: s.visible,
        focused: s.focused,
        selected: s.selected,
        expanded: s.expanded,
        toggled: s.toggled,
    }
}

/// Element states of their optional wire form; absent states are all false.
pub fn decode_states(s: Option<pb::ElementStates>) -> (r: ElementStates)
    ensures
        r == states_of(s),
{
    match s {
        Some(s) => ElementStates {
            enabled: s.enabled,
            visible: s.visible,
            focused: s.focused,
            selected: s.selected,
            expanded: s.expanded,
            toggled: s.toggled,
        },
        None => ElementStates {
            enabled: false,
            visible: false,
            focused: false,
            selected: false,
            expanded: false,
            toggled: false,
        },
    }
}

/// Wire form of a locator step.
pub fn encode_segment(g: &LocatorSegment) -> (r: pb::LocatorSegment)
    ensures
        r@ == segment_to_pb(g@),
{
    pb::LocatorSegment {
        control_type: g.control_type.clone(),
        class_name: or_empty_string(&g.class_name),
        automation_id: or_empty_string(&g.automation_id),
        name: or_empty_string(&g.name),
        sibling_ordinal: match g.sibling_ordinal {
            Some(o) => o,
            None => 0,
        },
    }
}

/// The locator step of its wire form.
pub fn decode_segment(g: &pb::LocatorSegment) -> (r: LocatorSegment)
    ensures
        r@ == segment_of(g@),
{
    let o = g.sibling_ordinal;
    LocatorSegment {
        control_type: g.control_type.clone(),
        class_name: none_if_empty(g.class_name.clone()),
        automation_id: none_if_empty(g.automation_id.clone()),
        name: none_if_empty(g.name.clone()),
        sibling_ordinal: if o == 0 {
            None
        } else {
            Some(o)
        },
    }
}

/// Wire form of a locator.
pub fn encode_locator(l: &Locator) -> (r: pb::Locator)
    ensures
        r@ == locator_to_pb(l@),
{
    let mut path: Vec<pb::LocatorSegment> = Vec::new();
    let mut i: usize = 0;
    while i < l.path.len()
        invariant
            i <= l.path@.len(),
            path@.len() == i,
            forall|j: int| 0 <= j < i ==> #[trigger] path@[j]@ == segment_to_pb(l.path@[j]@),
        decreases l.path@.len() - i,
    {
        path.push(encode_segment(&l.path[i]));
        i = i + 1;
    }
    let r = pb::Locator { window_fingerprint: l.window_fingerprint.clone(), path };
    assert(r@.path =~= locator_to_pb(l@).path);
    r
}

/// The locator of its wire form.
pub fn decode_locator(l: &pb::Locator) -> (r: Locator)
    ensures
        r@ == locator_of(l@),
{
    let mut path: Vec<LocatorSegment> = Vec::new();
    let mut i: usize = 0;
    while i < l.path.len()
        invariant
            i <= l.path@.len(),
            path@.len() == i,
            forall|k: int| 0 <= k < i ==> #[trigger] path@[k]@ == segment_of(l.path@[k]@),
        decreases l.path@.len() - i,
    {
        path.push(decode_segment(&l.path[i]));
        i = i + 1;
    }
    let r = Locator { window_fingerprint: l.window_fingerprint.clone(), path };
    assert(r@.path =~= locator_of(l@).path);
    r
}

// ----- properties -----

/// `put_prop` reaches position `i`: every earlier key differs from `k` and
/// is not greater, and the key at `i` (if any) is `k` or greater.
pub proof fn lemma_put_prop_at(s: Seq<(Seq<char>, PropertyValueV)>, k: Seq<char>, v: PropertyValueV, i: int)
    requires
        0 <= i <= s.len(),
        forall|j: int| 0 <= j < i ==> #[trigger] s[j].0 != k && !seq_less(k, s[j].0),
        i < s.len() ==> (s[i].0 == k || seq_less(k, s[i].0)),
    ensures
        put_prop(s, k, v) == (if i < s.len() && s[i].0 == k {
            s.update(i, (k, v))
        } else {
            s.insert(i, (k, v))
        }),
    decreases i,
{
    if s.len() == 0 {
        assert(s.insert(0, (k, v)) =~= seq![(k, v)]);
    } else if i == 0 {
        if s[0].0 != k {
            assert(s.insert(0, (k, v)) =~= seq![(k, v)] + s);
        }
    } else {
        assert(s[0].0 != k && !seq_less(k, s[0].0));
        let t = s.drop_first();
        assert forall|j: int| 0 <= j < i - 1 implies #[trigger] t[j].0 != k && !seq_less(k, t[j].0) by {
            assert(t[j] == s[j + 1]);
        }
        lemma_put_prop_at(t, k, v, i - 1);
        if i < s.len() && s[i].0 == k {
            assert(seq![s[0]] + t.update(i - 1, (k, v)) =~= s.update(i, (k, v)));
        } else {
            assert(seq![s[0]] + t.insert(i - 1, (k, v)) =~= s.insert(i, (k, v)));
        }
    }
}

/// Sets property `k` to `v` as `put_prop` does.
fn put_property(props: &mut Vec<(String, PropertyValue)>, k: String, v: PropertyValue)
    ensures
        properties_view(final(props)@) == put_prop(properties_view(old(props)@), k@, v@),
{
    let ghost s = properties_view(props@);
    let mut i: usize = 0;
    while i < props.len() && !str_equal(props[i].0.as_str(), k.as_str()) && !str_less(k.as_str(), props[i].0.as_str())
        invariant
            i <= props@.len(),
            s == properties_view(props@),
            forall|j: int| 0 <= j < i ==> #[trigger] s[j].0 != k@ && !seq_less(k@, s[j].0),
        decreases props@.len() - i,
    {
        i = i + 1;
    }
    proof {
        lemma_put_prop_at(s, k@, v@, i as int);
    }
    if i < props.len() && str_equal(props[i].0.as_str(), k.as_str()) {
        props.set(i, (k, v));
        assert(properties_view(props@) =~= s.update(i as int, (k@, v@)));
    } else {
        props.insert(i, (k, v));
        assert(properties_view(props@) =~= s.insert(i as int, (k@, v@)));
    }
}

/// Once a prefix of wire properties lacks a value, the whole list does.
pub proof fn lemma_props_of_none(ps: Seq<(Seq<char>, Option<PropertyValueV>)>, k: int)
    requires
        0 <= k <= ps.len(),
        props_of(ps.take(k)) is None,
    ensures
        props_of(ps) is None,
    decreases ps.len() - k,
{
    if k < ps.len() {
        let t = ps.take(k + 1);
        assert(t.drop_last() =~= ps.take(k));
        lemma_props_of_none(ps, k + 1);
    } else {
        assert(ps.take(k) =~= ps);
    }
}

/// The properties wire properties hold (see `props_of`).
pub fn decode_properties(ps: &Vec<pb::Property>) -> (r: Result<Vec<(String, PropertyValue)>, ConvertError>)
    ensures
        match r {
            Ok(x) => props_of(pb_properties_view(ps@)) == Some(properties_view(x@)),
            Err(e) => props_of(pb_properties_view(ps@)) is None
                && e@ == ConvertErrorV::InvalidJson { field: "property.value_json"@ },
        },
{
    let ghost src = pb_properties_view(ps@);
    let mut out: Vec<(String, PropertyValue)> = Vec::new();
    let mut i: usize = 0;
    proof {
        assert(src.take(0) =~= Seq::<(Seq<char>, Option<PropertyValueV>)>::empty());
        assert(properties_view(out@) =~= Seq::<(Seq<char>, PropertyValueV)>::empty());
    }
    while i < ps.len()
        invariant
            i <= ps@.len(),
            src == pb_properties_view(ps@),
            props_of(src.take(i as int)) == Some(properties_view(out@)),
        decreases ps@.len() - i,
    {
        proof {
            let t = src.take(i + 1);
            assert(t.drop_last() =~= src.take(i as int));
        }
        match &ps[i].value {
            None => {
                proof {
                    lemma_props_of_none(src, i + 1);
                }
                return Err(ConvertError::InvalidJson { field: String::from_str("property.value_json") });
            },
            Some(v) => {
                let c = copy_property_value(v);
                put_property(&mut out, ps[i].key.clone(), c);
            },
        }
        i = i + 1;
    }
    assert(src.take(i as int) =~= src);
    Ok(out)
}

// ----- element subtrees -----

/// The first error is at `i` when every earlier result is `Ok`.
pub proof fn lemma_first_err_at<T>(s: Seq<Result<T, ConvertErrorV>>, i: int)
    requires
        0 <= i <= s.len(),
        forall|j: int| 0 <= j < i ==> #[trigger] s[j] is Ok,
    ensures
        first_err(s) == (if i < s.len() {
            first_err(s.skip(i))
        } else {
            None
        }),
    decreases i,
{
    if i > 0 {
        let t = s.drop_first();
        assert forall|j: int| 0 <= j < i - 1 implies #[trigger] t[j] is Ok by {
            assert(t[j] == s[j + 1]);
        }
        lemma_first_err_at(t, i - 1);
        assert(t.skip(i - 1) =~= s.skip(i));
    } else {
        assert(s.skip(0) =~= s);
    }
}

/// The wire form of an element subtree.
pub fn encode_node(n: &ElementNode) -> (r: pb::ElementNode)
    ensures
        r@ == node_to_pb(n@),
    decreases n,
{
    proof {
        lemma_children_view(*n);
    }
    let mut properties: Vec<pb::Property> = Vec::new();
    let mut i: usize = 0;
    while i < n.properties.len()
        invariant
            i <= n.properties@.len(),
            properties@.len() == i,
            forall|j: int|
                0 <= j < i ==> #[trigger] properties@[j].key@ == n.properties@[j].0@ && opt_value_view(
                    properties@[j].value,
                ) == Some(n.properties@[j].1@),
        decreases n.properties@.len() - i,
    {
        properties.push(pb::Property { key: n.properties[i].0.clone(), value: Some(copy_property_value(&n.properties[i].1)) });
        i = i + 1;
    }
    let mut children: Vec<pb::ElementNode> = Vec::new();
    let mut i: usize = 0;
    while i < n.children.len()
        invariant
            i <= n.children@.len(),
            children@.len() == i,
            forall|j: int| 0 <= j < i ==> #[trigger] children@[j]@ == node_to_pb(n.children@[j]@),
        decreases n.children@.len() - i,
    {
        proof {
            assert(decreases_to!(n => n.children));
            assert(decreases_to!(n.children => n.children@));
            assert(decreases_to!(n.children@ => n.children@[i as int]));
        }
        children.push(encode_node(&n.children[i]));
        i = i + 1;
    }
    let parent_id: Option<String> = match &n.parent_id {
        Some(p) => Some(p.0.clone()),
        None => None,
    };
    let r = pb::ElementNode {
        element_id: n.element_id.0.clone(),
        parent_id: or_empty_string(&parent_id),
        backend: encode_backend_kind(n.backend),
        control_type: n.control_type.clone(),
        class_name: or_empty_string(&n.class_name),
        name: or_empty_string(&n.name),
        automation_id: or_empty_string(&n.automation_id),
        native_window_handle: match n.native_window_handle {
            Some(h) => h,
            None => 0,
        },
        bounds: Some(encode_bounds(n.bounds)),
        locator: Some(encode_locator(&n.locator)),
        properties,
        states: Some(encode_states(n.states)),
        children,
        confidence_bits: narrow_f64_bits(n.confidence_bits),
    };
    proof {
        lemma_pb_children_view(r);
        let e = node_to_pb(n@);
        assert(r@.properties =~= e.properties);
        assert(r@.children =~= e.children);
        assert(r@ =~= e);
    }
    r
}

/// The element subtree a wire subtree describes (see `node_of`).
pub fn decode_node(p: &pb::ElementNode) -> (r: Result<ElementNode, ConvertError>)
    ensures
        match r {
            Ok(x) => node_of(p@) == Ok::<NodeV, ConvertErrorV>(x@),
            Err(e) => node_of(p@) == Err::<NodeV, ConvertErrorV>(e@),
        },
    decreases p,
{
    proof {
        lemma_pb_children_view(*p);
    }
    let ghost pv = p@;
    let ghost kids = kids_of(pv);
    let backend = match decode_backend_kind(p.backend.as_str()) {
        Ok(b) => b,
        Err(e) => {
            return Err(e);
        },
    };
    let bounds = match p.bounds {
        Some(b) => decode_bounds(b),
        None => {
            return Err(ConvertError::MissingField(String::from_str("element.bounds")));
        },
    };
    let locator = match &p.locator {
        Some(l) => decode_locator(l),
        None => {
            return Err(ConvertError::MissingField(String::from_str("element.locator")));
        },
    };
    let properties = match decode_properties(&p.properties) {
        Ok(x) => x,
        Err(e) => {
            return Err(e);
        },
    };
    let mut children: Vec<ElementNode> = Vec::new();
    let mut i: usize = 0;
    while i < p.children.len()
        invariant
            i <= p.children@.len(),
            pv == p@,
            backend_of(pv.backend) == Some(backend),
            pv.bounds matches Some(b) && bounds == rect_of(b),
            pv.locator matches Some(l) && locator@ == locator_of(l),
            props_of(pv.properties) == Some(properties_view(properties@)),
            pv.children.len() == p.children@.len(),
            forall|j: int| 0 <= j < pv.children.len() ==> #[trigger] pv.children[j] == p.children@[j]@,
            kids.len() == pv.children.len(),
            forall|j: int| 0 <= j < pv.children.len() ==> #[trigger] kids[j] == node_of(pv.children[j]),
            children@.len() == i,
            forall|j: int| 0 <= j < i ==> #[trigger] kids[j] == Ok::<NodeV, ConvertErrorV>(children@[j]@),
        decreases p.children@.len() - i,
    {
        proof {
            assert(decreases_to!(p => p.children));
            assert(decreases_to!(p.children => p.children@));
            assert(decreases_to!(p.children@ => p.children@[i as int]));
        }
        match decode_node(&p.children[i]) {
            Ok(c) => {
                children.push(c);
            },
            Err(e) => {
                proof {
                    lemma_first_err_at(kids, i as int);
                    let t = kids.skip(i as int);
                    assert(t[0] == kids[i as int]);
                    assert(kids[i as int] == Err::<NodeV, ConvertErrorV>(e@));
                    assert(first_err(t) == Some(e@));
                    assert(first_err(kids) == Some(e@));
                    assert(kids == kids_of(pv));
                }
                return Err(e);
            },
        }
        i = i + 1;
    }
    proof {
        lemma_first_err_at(kids, i as int);
    }
    let parent_id = match none_if_empty(p.parent_id.clone()) {
        Some(x) => Some(ElementId(x)),
        None => None,
    };
    let r = ElementNode {
        element_id: ElementId(p.element_id.clone()),
        parent_id,
        backend,
        control_type: p.control_type.clone(),
        class_name: none_if_empty(p.class_name.clone()),
        name: none_if_empty(p.name.clone()),
        automation_id: none_if_empty(p.automation_id.clone()),
        native_window_handle: if p.native_window_handle == 0 {
            None
        } else {
            Some(p.native_window_handle)
        },
        bounds,
        locator,
        properties,
        states: decode_states(p.states),
        children,
        confidence_bits: widen_f32_bits(p.confidence_bits),
    };
    proof {
        lemma_children_view(r);
        assert(nodes_view(r.children@) =~= ok_nodes(kids));
        match node_of(pv) {
            Ok(x) => {
                assert(r@ =~= x);
            },
            Err(_) => {},
        }
    }
    Ok(r)
}

// ----- windows -----

/// View of a wire window.
pub struct PbWindowV {
    pub window_id: Seq<char>,
    pub pid: u32,
    pub process_name: Seq<char>,
    pub title: Seq<char>,
    pub bounds: Option<pb::Bounds>,
    pub root: Option<PbNodeV>,
    pub backend: Seq<char>,
    pub confidence_bits: u32,
}

impl View for pb::WindowNode {
    type V = PbWindowV;

    open spec fn view(&self) -> PbWindowV {
        PbWindowV {
            window_id: self.window_id@,
            pid: self.pid,
            process_name: self.process_name@,
            title: self.title@,
            bounds: self.bounds,
            root: match self.root {
                Some(n) => Some(n@),
                None => None,
            },
            backend: self.backend@,
            confidence_bits: self.confidence_bits,
        }
    }
}

/// A window on the wire.
pub open spec fn window_to_pb(w: WindowV) -> PbWindowV {
    PbWindowV {
        window_id: w.window_id,
        pid: w.pid,
        process_name: or_empty(w.process_name),
        title: w.title,
        bounds: Some(bounds_of(w.bounds)),
        root: Some(node_to_pb(w.root)),
        backend: backend_name(w.backend),
        confidence_bits: single_of(w.confidence_bits),
    }
}

/// The window a wire window describes: the bounds, the backend, then the
/// root are read, and the first that fails gives the error.
pub open spec fn window_of(p: PbWindowV) -> Result<WindowV, ConvertErrorV> {
    match p.bounds {
        None => Err(ConvertErrorV::MissingField("window.bounds"@)),
        Some(bounds) => match backend_of(p.backend) {
            None => Err(ConvertErrorV::MissingField("backend"@)),
            Some(backend) => match p.root {
                None => Err(ConvertErrorV::MissingField("window.root"@)),
                Some(root) => match node_of(root) {
                    Err(e) => Err(e),
                    Ok(root) => Ok(
                        WindowV {
                            window_id: p.window_id,
                            pid: p.pid,
                            process_name: none_if_empty_spec(p.process_name),
                            title: p.title,
                            bounds: rect_of(bounds),
                            backend,
                            confidence_bits: double_of(p.confidence_bits),
                            root,
                        },
                    ),
                },
            },
        },
    }
}

/// The wire form of a window.
pub fn encode_window(w: &WindowState) -> (r: pb::WindowNode)
    ensures
        r@ == window_to_pb(w@),
{
    let r = pb::WindowNode {
        window_id: w.window_id.0.clone(),
        pid: w.pid,
        process_name: or_empty_string(&w.process_name),
        title: w.title.clone(),
        bounds: Some(encode_bounds(w.bounds)),
        root: Some(encode_node(&w.root)),
        backend: encode_backend_kind(w.backend),
        confidence_bits: narrow_f64_bits(w.confidence_bits),
    };
    assert(r@ =~= window_to_pb(w@));
    r
}

/// The window a wire window describes (see `window_of`).
pub fn decode_window(p: &pb::WindowNode) -> (r: Result<WindowState, ConvertError>)
    ensures
        match r {
            Ok(x) => window_of(p@) == Ok::<WindowV, ConvertErrorV>(x@),
            Err(e) => window_of(p@) == Err::<WindowV, ConvertErrorV>(e@),
        },
{
    let bounds = match p.bounds {
        Some(b) => decode_bounds(b),
        None => {
            return Err(ConvertError::MissingField(String::from_str("window.bounds")));
        },
    };
    let backend = match decode_backend_kind(p.backend.as_str()) {
        Ok(b) => b,
        Err(e) => {
            return Err(e);
        },
    };
    let root = match &p.root {
        None => {
            return Err(ConvertError::MissingField(String::from_str("window.root")));
        },
        Some(n) => match decode_node(n) {
            Ok(x) => x,
            Err(e) => {
                return Err(e);
            },
        },
    };
    let r = WindowState {
        window_id: WindowId(p.window_id.clone()),
        pid: p.pid,
        process_name: none_if_empty(p.process_name.clone()),
        title: p.title.clone(),
        bounds,
        backend,
        confidence_bits: widen_f32_bits(p.confidence_bits),
        root,
    };
    proof {
        match window_of(p@) {
            Ok(x) => {
                assert(r@ =~= x);
            },
            Err(_) => {},
        }
    }
    Ok(r)
}

/// The windows of results that are all `Ok`.
pub open spec fn ok_windows(s: Seq<Result<WindowV, ConvertErrorV>>) -> Seq<WindowV> {
    s.map_values(
        |r: Result<WindowV, ConvertErrorV>|
            match r {
                Ok(x) => x,
                Err(_) => arbitrary(),
            },
    )
}

/// Reads wire windows in order; the first failure is the error.
pub open spec fn windows_of(ws: Seq<PbWindowV>) -> Result<Seq<WindowV>, ConvertErrorV> {
    let rs = ws.map_values(|w: PbWindowV| window_of(w));
    match first_err(rs) {
        Some(e) => Err(e),
        None => Ok(ok_windows(rs)),
    }
}

/// Wire forms of windows.
fn encode_windows(ws: &Vec<WindowState>) -> (r: Vec<pb::WindowNode>)
    ensures
        r@.map_values(|w: pb::WindowNode| w@) == ws@.map_values(|w: WindowState| window_to_pb(w@)),
{
    let mut out: Vec<pb::WindowNode> = Vec::new();
    let mut i: usize = 0;
    while i < ws.len()
        invariant
            i <= ws@.len(),
            out@.len() == i,
            forall|j: int| 0 <= j < i ==> #[trigger] out@[j]@ == window_to_pb(ws@[j]@),
        decreases ws@.len() - i,
    {
        out.push(encode_window(&ws[i]));
        i = i + 1;
    }
    assert(out@.map_values(|w: pb::WindowNode| w@) =~= ws@.map_values(|w: WindowState| window_to_pb(w@)));
    out
}

/// The windows wire windows describe (see `windows_of`).
fn decode_windows(ws: &Vec<pb::WindowNode>) -> (r: Result<Vec<WindowState>, ConvertError>)
    ensures
        match r {
            Ok(x) => windows_of(ws@.map_values(|w: pb::WindowNode| w@)) == Ok::<Seq<WindowV>, ConvertErrorV>(
                crate::model::windows_view(x@),
            ),
            Err(e) => windows_of(ws@.map_values(|w: pb::WindowNode| w@)) == Err::<Seq<WindowV>, ConvertErrorV>(e@),
        },
{
    let ghost src = ws@.map_values(|w: pb::WindowNode| w@);
    let ghost rs = src.map_values(|w: PbWindowV| window_of(w));
    let mut out: Vec<WindowState> = Vec::new();
    let mut i: usize = 0;
    while i < ws.len()
        invariant
            i <= ws@.len(),
            src == ws@.map_values(|w: pb::WindowNode| w@),
            rs == src.map_values(|w: PbWindowV| window_of(w)),
            out@.len() == i,
            forall|j: int| 0 <= j < i ==> #[trigger] rs[j] == Ok::<WindowV, ConvertErrorV>(out@[j]@),
        decreases ws@.len() - i,
    {
        match decode_window(&ws[i]) {
            Ok(w) => {
                out.push(w);
            },
            Err(e) => {
                proof {
                    lemma_first_err_at(rs, i as int);
                    assert(rs.skip(i as int)[0] == rs[i as int]);
                }
                return Err(e);
            },
        }
        i = i + 1;
    }
    proof {
        lemma_first_err_at(rs, i as int);
        assert(ok_windows(rs) =~= crate::model::windows_view(out@));
    }
    Ok(out)
}

// ----- snapshots -----

/// View of a wire snapshot.
pub struct PbSnapshotV {
    pub session_id: Seq<char>,
    pub rev: u64,
    pub profile: Option<pb::SessionProfile>,
    pub captured_at_unix_ms: i64,
    pub windows: Seq<PbWindowV>,
}

impl View for pb::InitialSnapshot {
    type V = PbSnapshotV;

    open spec fn view(&self) -> PbSnapshotV {
        PbSnapshotV {
            session_id: self.session_id@,
            rev: self.rev,
            profile: self.profile,
            captured_at_unix_ms: self.captured_at_unix_ms,
            windows: self.windows@.map_values(|w: pb::WindowNode| w@),
        }
    }
}

/// A wire snapshot holds a snapshot.
pub open spec fn snapshot_encodes(p: PbSnapshotV, s: SnapshotV) -> bool {
    &&& p.session_id == s.session_id
    &&& p.rev == s.rev
    &&& p.profile matches Some(q) && profile_encodes(q, s.profile)
    &&& p.captured_at_unix_ms == s.captured_at_unix_ms
    &&& p.windows == s.windows.map_values(|w: WindowV| window_to_pb(w))
}

/// The snapshot a wire snapshot describes: the profile, the capture time
/// (an instant the clock library represents), then each window are read,
/// and the first that fails gives the error.
pub open spec fn snapshot_of(p: PbSnapshotV) -> Result<SnapshotV, ConvertErrorV> {
    match required_profile(p.profile) {
        Err(e) => Err(e),
        Ok(profile) => if !utc_millis_representable(p.captured_at_unix_ms) {
            Err(ConvertErrorV::InvalidTimestamp(p.captured_at_unix_ms))
        } else {
            match windows_of(p.windows) {
                Err(e) => Err(e),
                Ok(windows) => Ok(
                    SnapshotV {
                        session_id: p.session_id,
                        rev: p.rev,
                        profile,
                        captured_at_unix_ms: p.captured_at_unix_ms,
                        windows,
                    },
                ),
            }
        },
    }
}

/// The wire form of a snapshot.
pub fn encode_snapshot(s: &UiSnapshot) -> (r: pb::InitialSnapshot)
    ensures
        snapshot_encodes(r@, s@),
{
    let windows = encode_windows(&s.windows);
    let r = pb::InitialSnapshot {
        session_id: s.session_id.0.clone(),
        rev: s.rev,
        profile: Some(session_profile_to_pb(&s.profile)),
        captured_at_unix_ms: s.captured_at_unix_ms,
        windows,
    };
    assert(r@.windows =~= s@.windows.map_values(|w: WindowV| window_to_pb(w)));
    r
}

/// The snapshot a wire snapshot describes (see `snapshot_of`).
pub fn decode_snapshot(p: pb::InitialSnapshot) -> (r: Result<UiSnapshot, ConvertError>)
    ensures
        match r {
            Ok(x) => snapshot_of(p@) == Ok::<SnapshotV, ConvertErrorV>(x@),
            Err(e) => snapshot_of(p@) == Err::<SnapshotV, ConvertErrorV>(e@),
        },
{
    let ghost pv = p@;
    let profile = match decode_session_profile(p.profile) {
        Ok(x) => x,
        Err(e) => {
            return Err(e);
        },
    };
    let ms = p.captured_at_unix_ms;
    if !utc_millis_ok(ms) {
        return Err(ConvertError::InvalidTimestamp(ms));
    }
    let windows = match decode_windows(&p.windows) {
        Ok(x) => x,
        Err(e) => {
            return Err(e);
        },
    };
    let r = UiSnapshot { session_id: SessionId(p.session_id), rev: p.rev, profile, captured_at_unix_ms: ms, windows };
    proof {
        match snapshot_of(pv) {
            Ok(x) => {
                assert(r@ =~= x);
            },
            Err(_) => {},
        }
    }
    Ok(r)
}

// ----- diffs -----

/// View of a wire diff operation.
pub struct PbDiffOpV {
    pub op: Seq<char>,
    pub element_id: Seq<char>,
    pub parent_id: Seq<char>,
    pub field: Seq<char>,
    pub value: Option<PropertyValueV>,
    pub node: Option<PbNodeV>,
    pub window: Option<PbWindowV>,
    pub window_id: Seq<char>,
    pub reason: Seq<char>,
}

impl View for pb::DiffOp {
    type V = PbDiffOpV;

    open spec fn view(&self) -> PbDiffOpV {
        PbDiffOpV {
            op: self.op@,
            element_id: self.element_id@,
            parent_id: self.parent_id@,
            field: self.field@,
            value: opt_value_view(self.value),
            node: match self.node {
                Some(n) => Some(n@),
                None => None,
            },
            window: match self.window {
                Some(w) => Some(w@),
                None => None,
            },
            window_id: self.window_id@,
            reason: self.reason@,
        }
    }
}

/// A wire operation named `op` with every other field empty.
pub open spec fn bare_op(op: Seq<char>) -> PbDiffOpV {
    PbDiffOpV {
        op,
        element_id: Seq::empty(),
        parent_id: Seq::empty(),
        field: Seq::empty(),
        value: None,
        node: None,
        window: None,
        window_id: Seq::empty(),
        reason: Seq::empty(),
    }
}

/// A diff operation on the wire: its name and the fields it uses.
pub open spec fn diff_op_to_pb(o: DiffOpV) -> PbDiffOpV {
    match o {
        DiffOpV::WindowAdded { window } => PbDiffOpV { window: Some(window_to_pb(window)), ..bare_op("window_added"@) },
        DiffOpV::WindowRemoved { window_id } => PbDiffOpV { window_id, ..bare_op("window_removed"@) },
        DiffOpV::NodeAdded { parent_id, node } => PbDiffOpV {
            parent_id,
            node: Some(node_to_pb(node)),
            ..bare_op("node_added"@)
        },
        DiffOpV::NodeRemoved { element_id } => PbDiffOpV { element_id, ..bare_op("node_removed"@) },
        DiffOpV::NodeReplaced { element_id, node } => PbDiffOpV {
            element_id,
            node: Some(node_to_pb(node)),
            ..bare_op("node_replaced"@)
        },
        DiffOpV::PropertyChanged { element_id, field, value } => PbDiffOpV {
            element_id,
            field,
            value: Some(value),
            ..bare_op("property_changed"@)
        },
        DiffOpV::FocusChanged { window_id, element_id } => PbDiffOpV {
            window_id,
            element_id: or_empty(element_id),
            ..bare_op("focus_changed"@)
        },
        DiffOpV::SnapshotResync { reason } => PbDiffOpV { reason, ..bare_op("snapshot_resync"@) },
    }
}

/// The diff operation a wire operation describes, by its name; an
/// operation that needs a window, a subtree or a value it lacks fails, and
/// so does an unknown name.
pub open spec fn diff_op_of(p: PbDiffOpV) -> Result<DiffOpV, ConvertErrorV> {
    if p.op == "window_added"@ {
        match p.window {
            None => Err(ConvertErrorV::MissingField("diff.window"@)),
            Some(w) => match window_of(w) {
                Err(e) => Err(e),
                Ok(window) => Ok(DiffOpV::WindowAdded { window }),
            },
        }
    } else if p.op == "window_removed"@ {
        Ok(DiffOpV::WindowRemoved { window_id: p.window_id })
    } else if p.op == "node_added"@ {
        match p.node {
            None => Err(ConvertErrorV::MissingField("diff.node"@)),
            Some(n) => match node_of(n) {
                Err(e) => Err(e),
                Ok(node) => Ok(DiffOpV::NodeAdded { parent_id: p.parent_id, node }),
            },
        }
    } else if p.op == "node_removed"@ {
        Ok(DiffOpV::NodeRemoved { element_id: p.element_id })
    } else if p.op == "node_replaced"@ {
        match p.node {
            None => Err(ConvertErrorV::MissingField("diff.node"@)),
            Some(n) => match node_of(n) {
                Err(e) => Err(e),
                Ok(node) => Ok(DiffOpV::NodeReplaced { element_id: p.element_id, node }),
            },
        }
    } else if p.op == "property_changed"@ {
        match p.value {
            None => Err(ConvertErrorV::InvalidJson { field: "diff.value_json"@ }),
            Some(value) => Ok(DiffOpV::PropertyChanged { element_id: p.element_id, field: p.field, value }),
        }
    } else if p.op == "focus_changed"@ {
        Ok(DiffOpV::FocusChanged { window_id: p.window_id, element_id: none_if_empty_spec(p.element_id) })
    } else if p.op == "snapshot_resync"@ {
        Ok(DiffOpV::SnapshotResync { reason: p.reason })
    } else {
        Err(ConvertErrorV::UnsupportedDiffOp(p.op))
    }
}

/// A wire operation named `op` with every other field empty.
fn bare_op_exec(op: &str) -> (r: pb::DiffOp)
    ensures
        r@ == bare_op(op@),
{
    let r = pb::DiffOp {
        op: String::from_str(op),
        element_id: String::new(),
        parent_id: String::new(),
        field: String::new(),
        value: None,
        node: None,
        window: None,
        window_id: String::new(),
        reason: String::new(),
    };
    assert(r@ =~= bare_op(op@));
    r
}

/// The wire form of a diff operation.
pub fn encode_diff_op(o: &DiffOp) -> (r: pb::DiffOp)
    ensures
        r@ == diff_op_to_pb(o@),
{
    match o {
        DiffOp::WindowAdded { window } => {
            let mut r = bare_op_exec("window_added");
            r.window = Some(encode_window(window));
            assert(r@ =~= diff_op_to_pb(o@));
            r
        },
        DiffOp::WindowRemoved { window_id } => {
            let mut r = bare_op_exec("window_removed");
            r.window_id = window_id.0.clone();
            assert(r@ =~= diff_op_to_pb(o@));
            r
        },
        DiffOp::NodeAdded { parent_id, node } => {
            let mut r = bare_op_exec("node_added");
            r.parent_id = parent_id.0.clone();
            r.node = Some(encode_node(node));
            assert(r@ =~= diff_op_to_pb(o@));
            r
        },
        DiffOp::NodeRemoved { element_id } => {
            let mut r = bare_op_exec("node_removed");
            r.element_id = element_id.0.clone();
            assert(r@ =~= diff_op_to_pb(o@));
            r
        },
        DiffOp::NodeReplaced { element_id, node } => {
            let mut r = bare_op_exec("node_replaced");
            r.element_id = element_id.0.clone();
            r.node = Some(encode_node(node));
            assert(r@ =~= diff_op_to_pb(o@));
            r
        },
        DiffOp::PropertyChanged { element_id, field, value } => {
            let mut r = bare_op_exec("property_changed");
            r.element_id = element_id.0.clone();
            r.field = field.clone();
            r.value = Some(copy_property_value(value));
            assert(r@ =~= diff_op_to_pb(o@));
            r
        },
        DiffOp::FocusChanged { window_id, element_id } => {
            let mut r = bare_op_exec("focus_changed");
            r.window_id = window_id.0.clone();
            let e: Option<String> = match element_id {
                Some(x) => Some(x.0.clone()),
                None => None,
            };
            r.element_id = or_empty_string(&e);
            assert(r@ =~= diff_op_to_pb(o@));
            r
        },
        DiffOp::SnapshotResync { reason } => {
            let mut r = bare_op_exec("snapshot_resync");
            r.reason = reason.clone();
            assert(r@ =~= diff_op_to_pb(o@));
            r
        },
    }
}

/// The diff operation a wire operation describes (see `diff_op_of`).
pub fn decode_diff_op(p: &pb::DiffOp) -> (r: Result<DiffOp, ConvertError>)
    ensures
        match r {
            Ok(x) => diff_op_of(p@) == Ok::<DiffOpV, ConvertErrorV>(x@),
            Err(e) => diff_op_of(p@) == Err::<DiffOpV, ConvertErrorV>(e@),
        },
{
    let op = p.op.as_str();
    if str_equal(op, "window_added") {
        match &p.window {
            None => Err(ConvertError::MissingField(String::from_str("diff.window"))),
            Some(w) => match decode_window(w) {
                Err(e) => Err(e),
                Ok(window) => Ok(DiffOp::WindowAdded { window }),
            },
        }
    } else if str_equal(op, "window_removed") {
        Ok(DiffOp::WindowRemoved { window_id: WindowId(p.window_id.clone()) })
    } else if str_equal(op, "node_added") {
        match &p.node {
            None => Err(ConvertError::MissingField(String::from_str("diff.node"))),
            Some(n) => match decode_node(n) {
                Err(e) => Err(e),
                Ok(node) => Ok(DiffOp::NodeAdded { parent_id: ElementId(p.parent_id.clone()), node }),
            },
        }
    } else if str_equal(op, "node_removed") {
        Ok(DiffOp::NodeRemoved { element_id: ElementId(p.element_id.clone()) })
    } else if str_equal(op, "node_replaced") {
        match &p.node {
            None => Err(ConvertError::MissingField(String::from_str("diff.node"))),
            Some(n) => match decode_node(n) {
                Err(e) => Err(e),
                Ok(node) => Ok(DiffOp::NodeReplaced { element_id: ElementId(p.element_id.clone()), node }),
            },
        }
    } else if str_equal(op, "property_changed") {
        match &p.value {
            None => Err(ConvertError::InvalidJson { field: String::from_str("diff.value_json") }),
            Some(v) => Ok(
                DiffOp::PropertyChanged {
                    element_id: ElementId(p.element_id.clone()),
                    field: p.field.clone(),
                    value: copy_property_value(v),
                },
            ),
        }
    } else if str_equal(op, "focus_changed") {
        let e = match none_if_empty(p.element_id.clone()) {
            Some(x) => Some(ElementId(x)),
            None => None,
        };
        Ok(DiffOp::FocusChanged { window_id: WindowId(p.window_id.clone()), element_id: e })
    } else if str_equal(op, "snapshot_resync") {
        Ok(DiffOp::SnapshotResync { reason: p.reason.clone() })
    } else {
        Err(ConvertError::UnsupportedDiffOp(p.op.clone()))
    }
}

/// View of a wire diff batch.
pub struct PbDiffV {
    pub base_rev: u64,
    pub new_rev: u64,
    pub emitted_at_unix_ms: i64,
    pub ops: Seq<PbDiffOpV>,
}

impl View for pb::DiffBatch {
    type V = PbDiffV;

    open spec fn view(&self) -> PbDiffV {
        PbDiffV {
            base_rev: self.base_rev,
            new_rev: self.new_rev,
            emitted_at_unix_ms: self.emitted_at_unix_ms,
            ops: self.ops@.map_values(|o: pb::DiffOp| o@),
        }
    }
}

/// A diff batch on the wire.
pub open spec fn diff_to_pb(d: DiffV) -> PbDiffV {
    PbDiffV {
        base_rev: d.base_rev,
        new_rev: d.new_rev,
        emitted_at_unix_ms: d.emitted_at_unix_ms,
        ops: d.ops.map_values(|o: DiffOpV| diff_op_to_pb(o)),
    }
}

/// The operations of results that are all `Ok`.
pub open spec fn ok_ops(s: Seq<Result<DiffOpV, ConvertErrorV>>) -> Seq<DiffOpV> {
    s.map_values(
        |r: Result<DiffOpV, ConvertErrorV>|
            match r {
                Ok(x) => x,
                Err(_) => arbitrary(),
            },
    )
}

/// The diff batch a wire batch describes: the emission time (an instant
/// the clock library represents), then each operation in order; the first
/// that fails gives the error.
pub open spec fn diff_of(p: PbDiffV) -> Result<DiffV, ConvertErrorV> {
    if !utc_millis_representable(p.emitted_at_unix_ms) {
        Err(ConvertErrorV::InvalidTimestamp(p.emitted_at_unix_ms))
    } else {
        let rs = p.ops.map_values(|o: PbDiffOpV| diff_op_of(o));
        match first_err(rs) {
            Some(e) => Err(e),
            None => Ok(
                DiffV {
                    base_rev: p.base_rev,
                    new_rev: p.new_rev,
                    emitted_at_unix_ms: p.emitted_at_unix_ms,
                    ops: ok_ops(rs),
                },
            ),
        }
    }
}

/// The wire form of a diff batch.
pub fn encode_diff(d: &UiDiffBatch) -> (r: pb::DiffBatch)
    ensures
        r@ == diff_to_pb(d@),
{
    let mut ops: Vec<pb::DiffOp> = Vec::new();
    let mut i: usize = 0;
    while i < d.ops.len()
        invariant
            i <= d.ops@.len(),
            ops@.len() == i,
            forall|j: int| 0 <= j < i ==> #[trigger] ops@[j]@ == diff_op_to_pb(d.ops@[j]@),
        decreases d.ops@.len() - i,
    {
        ops.push(encode_diff_op(&d.ops[i]));
        i = i + 1;
    }
    let r = pb::DiffBatch { base_rev: d.base_rev, new_rev: d.new_rev, emitted_at_unix_ms: d.emitted_at_unix_ms, ops };
    assert(r@.ops =~= diff_to_pb(d@).ops);
    r
}

/// The diff batch a wire batch describes (see `diff_of`).
pub fn decode_diff(p: &pb::DiffBatch) -> (r: Result<UiDiffBatch, ConvertError>)
    ensures
        match r {
            Ok(x) => diff_of(p@) == Ok::<DiffV, ConvertErrorV>(x@),
            Err(e) => diff_of(p@) == Err::<DiffV, ConvertErrorV>(e@),
        },
{
    let ms = p.emitted_at_unix_ms;
    if !utc_millis_ok(ms) {
        return Err(ConvertError::InvalidTimestamp(ms));
    }
    let ghost rs = p@.ops.map_values(|o: PbDiffOpV| diff_op_of(o));
    let mut ops: Vec<DiffOp> = Vec::new();
    let mut i: usize = 0;
    while i < p.ops.len()
        invariant
            i <= p.ops@.len(),
            utc_millis_representable(p@.emitted_at_unix_ms),
            rs == p@.ops.map_values(|o: PbDiffOpV| diff_op_of(o)),
            ops@.len() == i,
            forall|j: int| 0 <= j < i ==> #[trigger] rs[j] == Ok::<DiffOpV, ConvertErrorV>(ops@[j]@),
        decreases p.ops@.len() - i,
    {
        match decode_diff_op(&p.ops[i]) {
            Ok(o) => {
                ops.push(o);
            },
            Err(e) => {
                proof {
                    lemma_first_err_at(rs, i as int);
                    assert(rs.skip(i as int)[0] == rs[i as int]);
                }
                return Err(e);
            },
        }
        i = i + 1;
    }
    proof {
        lemma_first_err_at(rs, i as int);
    }
    let r = UiDiffBatch { base_rev: p.base_rev, new_rev: p.new_rev, emitted_at_unix_ms: ms, ops };
    proof {
        assert(r@.ops =~= ok_ops(rs));
    }
    Ok(r)
}

// ----- the daemon's messages -----

/// A wire message holds a daemon message: the payload of the same kind, in its wire form.
pub open spec fn server_msg_encodes(p: pb::ServerMsg, m: ServerMessage) -> bool {
    match (p.payload, m) {
        (Some(pb::ServerPayload::HelloAck(a)), ServerMessage::HelloAck(h)) => ack_encodes(a, h),
        (Some(pb::ServerPayload::InitialSnapshot(a)), ServerMessage::InitialSnapshot(s)) => snapshot_encodes(a@, s@),
        (Some(pb::ServerPayload::DiffBatch(a)), ServerMessage::DiffBatch(d)) => a@ == diff_to_pb(d@),
        (Some(pb::ServerPayload::ActionResult(a)), ServerMessage::ActionResult(x)) => result_encodes(a, x),
        (Some(pb::ServerPayload::ArtifactReady(a)), ServerMessage::ArtifactReady(d)) => ready_matches(a, d),
        (Some(pb::ServerPayload::Warning(a)), ServerMessage::Warning(w)) => a.code@ == w.code@ && a.message@ == w.message@,
        (Some(pb::ServerPayload::Pong(_)), ServerMessage::Pong) => true,
        _ => false,
    }
}

/// The wire form of a daemon message.
pub fn encode_server_message(m: &ServerMessage) -> (r: pb::ServerMsg)
    ensures
        server_msg_encodes(r, *m),
{
    let payload = match m {
        ServerMessage::HelloAck(h) => pb::ServerPayload::HelloAck(encode_hello_ack(h)),
        ServerMessage::InitialSnapshot(s) => pb::ServerPayload::InitialSnapshot(encode_snapshot(s)),
        ServerMessage::DiffBatch(d) => pb::ServerPayload::DiffBatch(encode_diff(d)),
        ServerMessage::ActionResult(a) => pb::ServerPayload::ActionResult(encode_action_result(a)),
        ServerMessage::ArtifactReady(d) => pb::ServerPayload::ArtifactReady(encode_artifact_ready(d)),
        ServerMessage::Warning(w) => pb::ServerPayload::Warning(encode_warning(w)),
        ServerMessage::Pong => pb::ServerPayload::Pong(pb::Empty {}),
    };
    pb::ServerMsg { payload: Some(payload) }
}

/// The daemon message a wire message carries: its payload, converted.
pub fn decode_server_message(p: pb::ServerMsg) -> (r: Result<ServerMessage, ConvertError>)
    ensures
        p.payload is None ==> result_err(r) == Some(ConvertErrorV::MissingPayload),
        p.payload matches Some(pb::ServerPayload::HelloAck(a)) ==> match r {
            Ok(ServerMessage::HelloAck(h)) => h.session_id@ == a.session_id@ && h.server_version@ == a.server_version@
                && h.backend_id@ == a.backend_id@ && h.capabilities == a.capabilities
                && required_profile(a.negotiated_profile) == Ok::<ProfileV, ConvertErrorV>(h.negotiated_profile@),
            Ok(_) => false,
            Err(e) => required_profile(a.negotiated_profile) == Err::<ProfileV, ConvertErrorV>(e@),
        },
        p.payload matches Some(pb::ServerPayload::InitialSnapshot(a)) ==> match r {
            Ok(ServerMessage::InitialSnapshot(s)) => snapshot_of(a@) == Ok::<SnapshotV, ConvertErrorV>(s@),
            Ok(_) => false,
            Err(e) => snapshot_of(a@) == Err::<SnapshotV, ConvertErrorV>(e@),
        },
        p.payload matches Some(pb::ServerPayload::DiffBatch(a)) ==> match r {
            Ok(ServerMessage::DiffBatch(d)) => diff_of(a@) == Ok::<DiffV, ConvertErrorV>(d@),
            Ok(_) => false,
            Err(e) => diff_of(a@) == Err::<DiffV, ConvertErrorV>(e@),
        },
        p.payload matches Some(pb::ServerPayload::ActionResult(a)) ==> match r {
            Ok(ServerMessage::ActionResult(x)) => result_encodes(a, x),
            Ok(_) => false,
            Err(e) => a.status@ != "completed"@ && a.status@ != "failed"@ && a.status@ != "timed_out"@
                && a.status@ != "unsupported"@ && e@ == ConvertErrorV::UnsupportedActionStatus(a.status@),
        },
        p.payload matches Some(pb::ServerPayload::ArtifactReady(a)) ==> r matches Ok(ServerMessage::ArtifactReady(d))
            && ready_matches(a, d),
        p.payload matches Some(pb::ServerPayload::Warning(a)) ==> r matches Ok(ServerMessage::Warning(w))
            && w.code == a.code && w.message == a.message,
        p.payload matches Some(pb::ServerPayload::Pong(_)) ==> r matches Ok(ServerMessage::Pong),
{
    match p.payload {
        None => Err(ConvertError::MissingPayload),
        Some(pb::ServerPayload::HelloAck(a)) => match decode_hello_ack(a) {
            Ok(h) => Ok(ServerMessage::HelloAck(h)),
            Err(e) => Err(e),
        },
        Some(pb::ServerPayload::InitialSnapshot(a)) => match decode_snapshot(a) {
            Ok(s) => Ok(ServerMessage::InitialSnapshot(s)),
            Err(e) => Err(e),
        },
        Some(pb::ServerPayload::DiffBatch(a)) => match decode_diff(&a) {
            Ok(d) => Ok(ServerMessage::DiffBatch(d)),
            Err(e) => Err(e),
        },
        Some(pb::ServerPayload::ActionResult(a)) => match decode_action_result(a) {
            Ok(x) => Ok(ServerMessage::ActionResult(x)),
            Err(e) => Err(e),
        },
        Some(pb::ServerPayload::ArtifactReady(a)) => Ok(ServerMessage::ArtifactReady(decode_artifact_ready(a))),
        Some(pb::ServerPayload::Warning(a)) => Ok(ServerMessage::Warning(decode_warning(a))),
        Some(pb::ServerPayload::Pong(_)) => Ok(ServerMessage::Pong),
    }
}

// ----- what survives the wire -----

/// An optional text that survives travelling as a possibly empty string:
/// absent, or not empty.
pub open spec fn text_survives(o: Option<Seq<char>>) -> bool {
    match o {
        Some(t) => t.len() > 0,
        None => true,
    }
}

/// A confidence that the wire's single holds exactly.
pub open spec fn single_exact(b: u64) -> bool {
    double_of(single_of(b)) == b
}

/// A locator step that survives the wire: no empty optional text, no zero ordinal.
pub open spec fn segment_survives(g: SegmentV) -> bool {
    &&& text_survives(g.class_name)
    &&& text_survives(g.automation_id)
    &&& text_survives(g.name)
    &&& g.sibling_ordinal != Some(0u32)
}

/// Properties sorted strictly by key.
pub open spec fn props_sorted(ps: Seq<(Seq<char>, PropertyValueV)>) -> bool {
    forall|i: int, j: int| 0 <= i < j < ps.len() ==> seq_less(#[trigger] ps[i].0, #[trigger] ps[j].0)
}

/// A subtree that survives the wire: no empty optional text, no zero
/// handle or ordinal, properties sorted by key, confidences that singles
/// hold, and the same for every descendant.
pub open spec fn node_survives(n: NodeV) -> bool
    decreases n, 1int, 0int,
{
    &&& text_survives(n.parent_id)
    &&& text_survives(n.class_name)
    &&& text_survives(n.name)
    &&& text_survives(n.automation_id)
    &&& n.native_window_handle != Some(0u64)
    &&& forall|i: int| 0 <= i < n.locator.path.len() ==> #[trigger] segment_survives(n.locator.path[i])
    &&& props_sorted(n.properties)
    &&& single_exact(n.confidence_bits)
    &&& children_survive(n, 0)
}

/// The children of `n` from `i` on survive the wire.
pub open spec fn children_survive(n: NodeV, i: int) -> bool
    decreases n, 0int, n.children.len() - i,
{
    if 0 <= i < n.children.len() {
        node_survives(n.children[i]) && children_survive(n, i + 1)
    } else {
        true
    }
}

/// Each child of a surviving subtree survives.
pub proof fn lemma_children_survive(n: NodeV, i: int, j: int)
    requires
        children_survive(n, i),
        0 <= i <= j < n.children.len(),
    ensures
        node_survives(n.children[j]),
    decreases j - i,
{
    if i < j {
        lemma_children_survive(n, i + 1, j);
    }
}

/// Backend names read back.
pub proof fn lemma_backend_name(b: BackendKind)
    ensures
        backend_of(backend_name(b)) == Some(b),
{
    reveal_strlit("uia");
    reveal_strlit("msaa");
    reveal_strlit("ocr");
    reveal_strlit("mixed");
    assert("uia"@.len() == 3 && "msaa"@.len() == 4 && "ocr"@.len() == 3 && "mixed"@.len() == 5);
    assert("uia"@[0] == 'u' && "ocr"@[0] == 'o');
}

/// Setting a key greater than every key appends it.
pub proof fn lemma_put_prop_last(s: Seq<(Seq<char>, PropertyValueV)>, k: Seq<char>, v: PropertyValueV)
    requires
        forall|j: int| 0 <= j < s.len() ==> seq_less(#[trigger] s[j].0, k),
    ensures
        put_prop(s, k, v) == s.push((k, v)),
    decreases s.len(),
{
    if s.len() == 0 {
        assert(seq![(k, v)] =~= s.push((k, v)));
    } else {
        assert(seq_less(s[0].0, k));
        crate::text::lemma_seq_less_asymmetric(s[0].0, k);
        crate::text::lemma_seq_less_irreflexive(k);
        let t = s.drop_first();
        assert forall|j: int| 0 <= j < t.len() implies seq_less(#[trigger] t[j].0, k) by {
            assert(t[j] == s[j + 1]);
        }
        lemma_put_prop_last(t, k, v);
        assert(seq![s[0]] + t.push((k, v)) =~= s.push((k, v)));
    }
}

/// Sorted properties read back from their wire form.
pub proof fn lemma_props_roundtrip(ps: Seq<(Seq<char>, PropertyValueV)>)
    requires
        props_sorted(ps),
    ensures
        props_of(ps.map_values(|p: (Seq<char>, PropertyValueV)| (p.0, Some(p.1)))) == Some(ps),
    decreases ps.len(),
{
    let w = ps.map_values(|p: (Seq<char>, PropertyValueV)| (p.0, Some(p.1)));
    if ps.len() > 0 {
        let dl = ps.drop_last();
        assert(w.drop_last() =~= dl.map_values(|p: (Seq<char>, PropertyValueV)| (p.0, Some(p.1))));
        lemma_props_roundtrip(dl);
        assert forall|j: int| 0 <= j < dl.len() implies seq_less(#[trigger] dl[j].0, ps.last().0) by {
            assert(dl[j] == ps[j]);
        }
        lemma_put_prop_last(dl, ps.last().0, ps.last().1);
        assert(dl.push((ps.last().0, ps.last().1)) =~= ps);
    } else {
        assert(ps =~= Seq::<(Seq<char>, PropertyValueV)>::empty());
    }
}

/// A surviving subtree reads back from its wire form.
pub proof fn lemma_node_roundtrip(n: NodeV)
    requires
        node_survives(n),
    ensures
        node_of(node_to_pb(n)) == Ok::<NodeV, ConvertErrorV>(n),
    decreases n,
{
    let p = node_to_pb(n);
    lemma_backend_name(n.backend);
    lemma_props_roundtrip(n.properties);
    let path = n.locator.path;
    assert(locator_of(locator_to_pb(n.locator)).path =~= path) by {
        assert forall|i: int| 0 <= i < path.len() implies #[trigger] segment_of(segment_to_pb(path[i])) == path[i] by {
            assert(segment_survives(path[i]));
        }
    }
    let kids = kids_of(p);
    assert forall|j: int| 0 <= j < kids.len() implies #[trigger] kids[j] == Ok::<NodeV, ConvertErrorV>(n.children[j]) by {
        lemma_children_survive(n, 0, j);
        lemma_node_roundtrip(n.children[j]);
    }
    lemma_first_err_at(kids, kids.len() as int);
    assert(ok_nodes(kids) =~= n.children);
    match node_of(p) {
        Ok(x) => {
            assert(x =~= n);
        },
        Err(_) => {},
    }
}

/// A window that survives the wire: a process name that is absent or not
/// empty, a confidence a single holds, a surviving root.
pub open spec fn window_survives(w: WindowV) -> bool {
    &&& text_survives(w.process_name)
    &&& single_exact(w.confidence_bits)
    &&& node_survives(w.root)
}

/// A surviving window reads back from its wire form.
pub proof fn lemma_window_roundtrip(w: WindowV)
    requires
        window_survives(w),
    ensures
        window_of(window_to_pb(w)) == Ok::<WindowV, ConvertErrorV>(w),
{
    lemma_backend_name(w.backend);
    lemma_node_roundtrip(w.root);
    match window_of(window_to_pb(w)) {
        Ok(x) => {
            assert(x =~= w);
        },
        Err(_) => {},
    }
}

/// Surviving windows read back from their wire forms.
pub proof fn lemma_windows_roundtrip(ws: Seq<WindowV>)
    requires
        forall|i: int| 0 <= i < ws.len() ==> #[trigger] window_survives(ws[i]),
    ensures
        windows_of(ws.map_values(|w: WindowV| window_to_pb(w))) == Ok::<Seq<WindowV>, ConvertErrorV>(ws),
{
    let rs = ws.map_values(|w: WindowV| window_to_pb(w)).map_values(|w: PbWindowV| window_of(w));
    assert forall|j: int| 0 <= j < rs.len() implies #[trigger] rs[j] == Ok::<WindowV, ConvertErrorV>(ws[j]) by {
        lemma_window_roundtrip(ws[j]);
    }
    lemma_first_err_at(rs, rs.len() as int);
    assert(ok_windows(rs) =~= ws);
}

/// Decoding a snapshot's wire form gives the snapshot back when its
/// profile and windows survive the wire, provided the clock library
/// represents its capture time; otherwise the capture time is the error.
pub proof fn lemma_snapshot_roundtrip(p: PbSnapshotV, s: SnapshotV)
    requires
        snapshot_encodes(p, s),
        profile_survives(s.profile),
        forall|i: int| 0 <= i < s.windows.len() ==> #[trigger] window_survives(s.windows[i]),
    ensures
        snapshot_of(p) == (if utc_millis_representable(s.captured_at_unix_ms) {
            Ok::<SnapshotV, ConvertErrorV>(s)
        } else {
            Err(ConvertErrorV::InvalidTimestamp(s.captured_at_unix_ms))
        }),
{
    lemma_profile_roundtrip(p.profile->0, s.profile);
    lemma_windows_roundtrip(s.windows);
    match snapshot_of(p) {
        Ok(x) => {
            assert(x =~= s);
        },
        Err(_) => {},
    }
}

/// A diff operation that survives the wire: what it carries survives, and
/// a focus change names its element by a non-empty id or not at all.
pub open spec fn diff_op_survives(o: DiffOpV) -> bool {
    match o {
        DiffOpV::WindowAdded { window } => window_survives(window),
        DiffOpV::NodeAdded { node, .. } => node_survives(node),
        DiffOpV::NodeReplaced { node, .. } => node_survives(node),
        DiffOpV::FocusChanged { element_id, .. } => text_survives(element_id),
        _ => true,
    }
}

/// The lengths and telling characters of the operations' wire names.
pub proof fn lemma_op_names()
    ensures
        "window_added"@.len() == 12 && "window_added"@[0] == 'w',
        "window_removed"@.len() == 14,
        "node_added"@.len() == 10,
        "node_removed"@.len() == 12 && "node_removed"@[0] == 'n',
        "node_replaced"@.len() == 13 && "node_replaced"@[0] == 'n',
        "property_changed"@.len() == 16,
        "focus_changed"@.len() == 13 && "focus_changed"@[0] == 'f',
        "snapshot_resync"@.len() == 15,
{
    reveal_strlit("window_added");
    reveal_strlit("window_removed");
    reveal_strlit("node_added");
    reveal_strlit("node_removed");
    reveal_strlit("node_replaced");
    reveal_strlit("property_changed");
    reveal_strlit("focus_changed");
    reveal_strlit("snapshot_resync");
}

/// A surviving diff operation reads back from its wire form.
pub proof fn lemma_diff_op_roundtrip(o: DiffOpV)
    requires
        diff_op_survives(o),
    ensures
        diff_op_of(diff_op_to_pb(o)) == Ok::<DiffOpV, ConvertErrorV>(o),
{
    lemma_op_names();
    match o {
        DiffOpV::WindowAdded { window } => {
            lemma_window_roundtrip(window);
        },
        DiffOpV::NodeAdded { node, .. } => {
            lemma_node_roundtrip(node);
        },
        DiffOpV::NodeReplaced { node, .. } => {
            lemma_node_roundtrip(node);
        },
        _ => {},
    }
}

/// Decoding a diff batch's wire form gives the batch back when its
/// operations survive the wire, provided the clock library represents its
/// emission time; otherwise the emission time is the error.
pub proof fn lemma_diff_roundtrip(d: DiffV)
    requires
        forall|i: int| 0 <= i < d.ops.len() ==> #[trigger] diff_op_survives(d.ops[i]),
    ensures
        diff_of(diff_to_pb(d)) == (if utc_millis_representable(d.emitted_at_unix_ms) {
            Ok::<DiffV, ConvertErrorV>(d)
        } else {
            Err(ConvertErrorV::InvalidTimestamp(d.emitted_at_unix_ms))
        }),
{
    let rs = diff_to_pb(d).ops.map_values(|o: PbDiffOpV| diff_op_of(o));
    assert forall|j: int| 0 <= j < rs.len() implies #[trigger] rs[j] == Ok::<DiffOpV, ConvertErrorV>(d.ops[j]) by {
        lemma_diff_op_roundtrip(d.ops[j]);
    }
    lemma_first_err_at(rs, rs.len() as int);
    assert(ok_ops(rs) =~= d.ops);
    match diff_of(diff_to_pb(d)) {
        Ok(x) => {
            assert(x =~= d);
        },
        Err(_) => {},
    }
}

} // verus!
