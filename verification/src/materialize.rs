//! How the Windows backend turns what it reads into domain elements: the
//! raw observed tree gets semantic locators (a sibling ordinal only where
//! siblings would otherwise look alike), stable ids derived from the
//! locators, and windows get fingerprints. Also the names of UI Automation
//! control types.
use vstd::prelude::*;

use crate::compare::{hex_digits, hex_text};
use crate::decimal::{decimal, u64_to_decimal};
use crate::model::{properties_view, LocatorV, NodeV, PropertyValueV, SegmentV};
use crate::agent::opt_element_id_view;
use crate::model::WindowV;
use crate::observe::{
    element_id_for, element_id_from_locator, key_text, normalize_for_key, normalize_optional_for_key,
    opt_key_text, window_id_for, window_id_from_fingerprint,
};
use crate::payload::{int_text, int_to_text};
use crate::protocol::{
    BackendKind, ElementId, ElementNode, ElementStates, Locator, LocatorSegment, PropertyValue, Rect, WindowState,
};
use crate::copy::{copy_properties, copy_segment, copy_segments};
use crate::text::{copy_opt_string, opt_view, string_equal, trim_owned, trimmed};

verus! {

/// A node as the backend reads it, before it has an id or a locator.
/// Properties are sorted by key with no key twice; the confidence is the
/// bits of a double.
#[derive(Debug, PartialEq)]
pub struct RawObservedNode {
    pub backend: BackendKind,
    pub control_type: String,
    pub class_name: Option<String>,
    pub name: Option<String>,
    pub automation_id: Option<String>,
    pub native_window_handle: Option<u64>,
    pub bounds: Rect,
    pub properties: Vec<(String, PropertyValue)>,
    pub states: ElementStates,
    pub children: Vec<RawObservedNode>,
    pub confidence_bits: u64,
}

/// View of a raw node.
pub struct RawV {
    pub backend: BackendKind,
    pub control_type: Seq<char>,
    pub class_name: Option<Seq<char>>,
    pub name: Option<Seq<char>>,
    pub automation_id: Option<Seq<char>>,
    pub native_window_handle: Option<u64>,
    pub bounds: Rect,
    pub properties: Seq<(Seq<char>, PropertyValueV)>,
    pub states: ElementStates,
    pub children: Seq<RawV>,
    pub confidence_bits: u64,
}

/// The placeholder used outside a sequence's bounds.
pub open spec fn empty_raw() -> RawV {
    RawV {
        backend: BackendKind::Uia,
        control_type: Seq::empty(),
        class_name: None,
        name: None,
        automation_id: None,
        native_window_handle: None,
        bounds: Rect { left: 0, top: 0, width: 0, height: 0 },
        properties: Seq::empty(),
        states: ElementStates {
            enabled: false,
            visible: false,
            focused: false,
            selected: false,
            expanded: false,
            toggled: false,
        },
        children: Seq::empty(),
        confidence_bits: 0,
    }
}

/// View of a raw node.
pub open spec fn raw_view(n: RawObservedNode) -> RawV
    decreases n,
{
    RawV {
        backend: n.backend,
        control_type: n.control_type@,
        class_name: opt_view(n.class_name),
        name: opt_view(n.name),
        automation_id: opt_view(n.automation_id),
        native_window_handle: n.native_window_handle,
        bounds: n.bounds,
        properties: properties_view(n.properties@),
        states: n.states,
        children: Seq::new(
            n.children@.len(),
            |i: int|
                if 0 <= i < n.children@.len() {
                    raw_view(n.children@[i])
                } else {
                    empty_raw()
                },
        ),
        confidence_bits: n.confidence_bits,
    }
}

impl View for RawObservedNode {
    type V = RawV;

    open spec fn view(&self) -> RawV {
        raw_view(*self)
    }
}

/// The children of a raw node's view are the views of its children.
pub proof fn lemma_raw_children_view(n: RawObservedNode)
    ensures
        n@.children == n.children@.map_values(|c: RawObservedNode| c@),
{
    assert(n@.children =~= n.children@.map_values(|c: RawObservedNode| c@));
}

// ----- locators -----

/// What tells siblings apart: the normalized control type, class, automation id and name.
pub open spec fn raw_signature(n: RawV) -> Seq<char> {
    "type="@ + key_text(n.control_type) + "|class="@ + opt_key_text(n.class_name) + "|auto="@ + opt_key_text(
        n.automation_id,
    ) + "|name="@ + opt_key_text(n.name)
}

/// How many of the first `end` texts equal `s`.
pub open spec fn count_before(sigs: Seq<Seq<char>>, s: Seq<char>, end: int) -> nat
    decreases end,
{
    if end <= 0 || sigs.len() < end {
        0
    } else {
        count_before(sigs, s, end - 1) + (if sigs[end - 1] == s {
            1nat
        } else {
            0nat
        })
    }
}

/// The signatures of siblings.
pub open spec fn signatures(children: Seq<RawV>) -> Seq<Seq<char>> {
    children.map_values(|c: RawV| raw_signature(c))
}

/// The locator step of child `i` among `children`: its own fields, and,
/// when a sibling has the same signature, its position among those
/// siblings.
pub open spec fn child_segment(children: Seq<RawV>, i: int) -> SegmentV {
    let sigs = signatures(children);
    let c = children[i];
    SegmentV {
        control_type: c.control_type,
        class_name: c.class_name,
        automation_id: c.automation_id,
        name: c.name,
        sibling_ordinal: if count_before(sigs, sigs[i], sigs.len() as int) > 1 {
            Some(count_before(sigs, sigs[i], i) as u32)
        } else {
            None
        },
    }
}

/// The signature of a raw node.
pub fn locator_signature_for_raw(node: &RawObservedNode) -> (r: String)
    ensures
        r@ == raw_signature(node@),
{
    let mut s = String::from_str("type=");
    s.append(normalize_for_key(node.control_type.as_str()).as_str());
    s.append("|class=");
    let class_name = match &node.class_name {
        Some(t) => Some(t.as_str()),
        None => None,
    };
    s.append(normalize_optional_for_key(class_name).as_str());
    s.append("|auto=");
    let automation_id = match &node.automation_id {
        Some(t) => Some(t.as_str()),
        None => None,
    };
    s.append(normalize_optional_for_key(automation_id).as_str());
    s.append("|name=");
    let name = match &node.name {
        Some(t) => Some(t.as_str()),
        None => None,
    };
    s.append(normalize_optional_for_key(name).as_str());
    s
}

/// How many of the first `end` texts equal `s`.
fn count_equal(sigs: &Vec<String>, s: &String, end: usize) -> (r: usize)
    requires
        end <= sigs@.len(),
    ensures
        r == count_before(sigs@.map_values(|t: String| t@), s@, end as int),
        r <= end,
{
    let ghost sv = sigs@.map_values(|t: String| t@);
    let mut n: usize = 0;
    let mut i: usize = 0;
    while i < end
        invariant
            i <= end <= sigs@.len(),
            sv == sigs@.map_values(|t: String| t@),
            n == count_before(sv, s@, i as int),
            n <= i,
        decreases end - i,
    {
        if string_equal(&sigs[i], s) {
            n = n + 1;
        }
        i = i + 1;
    }
    n
}

/// The locator steps of siblings (see `child_segment`).
pub fn build_child_locator_segments(children: &Vec<RawObservedNode>) -> (r: Vec<LocatorSegment>)
    ensures
        r@.len() == children@.len(),
        forall|i: int|
            0 <= i < children@.len() ==> #[trigger] r@[i]@ == child_segment(
                children@.map_values(|c: RawObservedNode| c@),
                i,
            ),
{
    let ghost cv = children@.map_values(|c: RawObservedNode| c@);
    let mut sigs: Vec<String> = Vec::new();
    let mut i: usize = 0;
    while i < children.len()
        invariant
            i <= children@.len(),
            cv == children@.map_values(|c: RawObservedNode| c@),
            sigs@.len() == i,
            forall|j: int| 0 <= j < i ==> #[trigger] sigs@[j]@ == raw_signature(cv[j]),
        decreases children@.len() - i,
    {
        sigs.push(locator_signature_for_raw(&children[i]));
        i = i + 1;
    }
    let ghost sv = sigs@.map_values(|t: String| t@);
    assert(sv =~= signatures(cv));
    let mut out: Vec<LocatorSegment> = Vec::new();
    let mut i: usize = 0;
    while i < children.len()
        invariant
            i <= children@.len(),
            sigs@.len() == children@.len(),
            cv == children@.map_values(|c: RawObservedNode| c@),
            sv == sigs@.map_values(|t: String| t@),
            sv == signatures(cv),
            out@.len() == i,
            forall|j: int| 0 <= j < i ==> #[trigger] out@[j]@ == child_segment(cv, j),
        decreases children@.len() - i,
    {
        let c = &children[i];
        let total = count_equal(&sigs, &sigs[i], sigs.len());
        let ordinal = if total > 1 {
            Some(count_equal(&sigs, &sigs[i], i) as u32)
        } else {
            None
        };
        let seg = LocatorSegment {
            control_type: c.control_type.clone(),
            class_name: copy_opt_string(&c.class_name),
            automation_id: copy_opt_string(&c.automation_id),
            name: copy_opt_string(&c.name),
            sibling_ordinal: ordinal,
        };
        assert(seg@ == child_segment(cv, i as int));
        out.push(seg);
        i = i + 1;
    }
    out
}

// ----- materialization -----

/// The element a raw subtree becomes in window `fp` at locator path `path`
/// under parent `parent`: its id comes from the locator, and each child
/// gets the path extended by its locator step.
pub open spec fn materialized(raw: RawV, fp: Seq<char>, parent: Option<Seq<char>>, path: Seq<SegmentV>) -> NodeV
    decreases raw,
{
    let id = element_id_for(fp, path);
    NodeV {
        element_id: id,
        parent_id: parent,
        backend: raw.backend,
        control_type: raw.control_type,
        class_name: raw.class_name,
        name: raw.name,
        automation_id: raw.automation_id,
        native_window_handle: raw.native_window_handle,
        bounds: raw.bounds,
        locator: LocatorV { window_fingerprint: fp, path },
        properties: raw.properties,
        states: raw.states,
        children: Seq::new(
            raw.children.len(),
            |i: int|
                if 0 <= i < raw.children.len() {
                    materialized(raw.children[i], fp, Some(id), path.push(child_segment(raw.children, i)))
                } else {
                    crate::model::empty_node_v()
                },
        ),
        confidence_bits: raw.confidence_bits,
    }
}

/// The element a raw subtree becomes (see `materialized`).
pub fn materialize_node(
    raw: &RawObservedNode,
    window_fingerprint: &str,
    parent_id: Option<ElementId>,
    path: Vec<LocatorSegment>,
) -> (r: ElementNode)
    ensures
        r@ == materialized(raw@, window_fingerprint@, opt_element_id_view(parent_id), path@.map_values(|s: LocatorSegment| s@)),
    decreases raw,
{
    proof {
        lemma_raw_children_view(*raw);
    }
    let ghost rv = raw@;
    let ghost pv = path@.map_values(|s: LocatorSegment| s@);
    let ghost parent_v = opt_element_id_view(parent_id);
    let element_id = element_id_from_locator(window_fingerprint, &path);
    let segments = build_child_locator_segments(&raw.children);
    let mut children: Vec<ElementNode> = Vec::new();
    let mut i: usize = 0;
    while i < raw.children.len()
        invariant
            i <= raw.children@.len(),
            segments@.len() == raw.children@.len(),
            rv == raw@,
            rv.children.len() == raw.children@.len(),
            forall|j: int| 0 <= j < raw.children@.len() ==> #[trigger] rv.children[j] == raw.children@[j]@,
            forall|j: int| 0 <= j < raw.children@.len() ==> #[trigger] segments@[j]@ == child_segment(rv.children, j),
            pv == path@.map_values(|s: LocatorSegment| s@),
            element_id@ == element_id_for(window_fingerprint@, pv),
            children@.len() == i,
            forall|j: int|
                0 <= j < i ==> #[trigger] children@[j]@ == materialized(
                    rv.children[j],
                    window_fingerprint@,
                    Some(element_id@),
                    pv.push(child_segment(rv.children, j)),
                ),
        decreases raw.children@.len() - i,
    {
        let mut child_path = copy_segments(&path);
        child_path.push(copy_segment(&segments[i]));
        proof {
            assert(child_path@.map_values(|s: LocatorSegment| s@) =~= pv.push(child_segment(rv.children, i as int)));
            assert(decreases_to!(raw => raw.children));
            assert(decreases_to!(raw.children => raw.children@));
            assert(decreases_to!(raw.children@ => raw.children@[i as int]));
        }
        children.push(materialize_node(&raw.children[i], window_fingerprint, Some(ElementId(element_id.0.clone())), child_path));
        i = i + 1;
    }
    let r = ElementNode {
        element_id,
        parent_id,
        backend: raw.backend,
        control_type: raw.control_type.clone(),
        class_name: copy_opt_string(&raw.class_name),
        name: copy_opt_string(&raw.name),
        automation_id: copy_opt_string(&raw.automation_id),
        native_window_handle: raw.native_window_handle,
        bounds: raw.bounds,
        locator: Locator { window_fingerprint: String::from_str(window_fingerprint), path },
        properties: copy_properties(&raw.properties),
        states: raw.states,
        children,
        confidence_bits: raw.confidence_bits,
    };
    proof {
        crate::model::lemma_children_view(r);
        let m = materialized(rv, window_fingerprint@, parent_v, pv);
        assert(crate::model::nodes_view(r.children@) =~= m.children);
        assert(r@.locator =~= m.locator);
        assert(r@ =~= m);
    }
    r
}

/// The root element of a window read as `raw`.
pub fn materialize_root(raw: RawObservedNode, window_fingerprint: &str) -> (r: ElementNode)
    ensures
        r@ == materialized(raw@, window_fingerprint@, None, Seq::empty()),
{
    let path: Vec<LocatorSegment> = Vec::new();
    assert(path@.map_values(|s: LocatorSegment| s@) =~= Seq::<SegmentV>::empty());
    materialize_node(&raw, window_fingerprint, None, path)
}

// ----- windows -----

/// What the backend reads of a top-level window.
#[derive(Clone, Debug, PartialEq, Eq)]
pub struct WindowMetadata {
    pub hwnd: usize,
    pub pid: u32,
    pub process_name: Option<String>,
    pub title: String,
    pub class_name: Option<String>,
    pub bounds: Rect,
}

/// The bits of the double of the confidence a UI Automation read gets (1.0).
pub const UIA_CONFIDENCE_BITS: u64 = 0x3ff0_0000_0000_0000;

/// The bits of the double of the confidence an MSAA fallback read gets
/// (the single 0.45, widened).
pub const MSAA_CONFIDENCE_BITS: u64 = 0x3fdc_cccc_c000_0000;

/// The title a window is shown under: the first of its own title, its
/// semantic name and a fallback label that is not blank once trimmed
/// (trimmed), else `Window ` and its handle in sixteen hex digits.
pub open spec fn preferred_title(explicit: Seq<char>, semantic: Option<Seq<char>>, fallback: Option<Seq<char>>, hwnd: usize) -> Seq<char> {
    if trimmed(explicit).len() > 0 {
        trimmed(explicit)
    } else if semantic is Some && trimmed(semantic->0).len() > 0 {
        trimmed(semantic->0)
    } else if fallback is Some && trimmed(fallback->0).len() > 0 {
        trimmed(fallback->0)
    } else {
        "Window "@ + hex_digits(hwnd as nat, 16)
    }
}

/// The fingerprint of a window read through UI Automation.
pub open spec fn uia_fingerprint(pid: u32, hwnd: usize, root_class: Option<Seq<char>>, title: Seq<char>, root_name: Option<Seq<char>>) -> Seq<char> {
    "pid="@ + decimal(pid as nat) + ":hwnd="@ + hex_digits(hwnd as nat, 16) + ":class="@ + opt_key_text(root_class)
        + ":title="@ + key_text(title) + ":root_name="@ + opt_key_text(root_name)
}

/// The fingerprint of a window read through MSAA.
pub open spec fn msaa_fingerprint(pid: u32, hwnd: usize, role_name: Seq<char>, title: Seq<char>) -> Seq<char> {
    "pid="@ + decimal(pid as nat) + ":hwnd="@ + hex_digits(hwnd as nat, 16) + ":msaa_role="@ + key_text(role_name)
        + ":title="@ + key_text(title)
}

/// An optional text as a slice.
fn opt_str(o: &Option<String>) -> (r: Option<&str>)
    ensures
        match r {
            Some(t) => o matches Some(s) && t@ == s@,
            None => o is None,
        },
{
    match o {
        Some(t) => Some(t.as_str()),
        None => None,
    }
}

/// The characters of an optional slice.
pub open spec fn opt_str_view(o: Option<&str>) -> Option<Seq<char>> {
    match o {
        Some(t) => Some(t@),
        None => None,
    }
}

/// The title a window is shown under (see `preferred_title`).
pub fn preferred_window_title(explicit_title: &str, semantic_name: Option<&str>, fallback_label: Option<&str>, hwnd: usize) -> (r: String)
    ensures
        r@ == preferred_title(explicit_title@, opt_str_view(semantic_name), opt_str_view(fallback_label), hwnd),
{
    let t = trim_owned(explicit_title);
    if t.unicode_len() > 0 {
        return t;
    }
    if let Some(s) = semantic_name {
        let t = trim_owned(s);
        if t.unicode_len() > 0 {
            return t;
        }
    }
    if let Some(f) = fallback_label {
        let t = trim_owned(f);
        if t.unicode_len() > 0 {
            return t;
        }
    }
    let mut r = String::from_str("Window ");
    r.append(hex_text(hwnd as u64, 16).as_str());
    r
}

/// `pid=<pid>:hwnd=<handle>` with the handle in sixteen hex digits.
fn pid_hwnd_text(pid: u32, hwnd: usize) -> (r: String)
    ensures
        r@ == "pid="@ + decimal(pid as nat) + ":hwnd="@ + hex_digits(hwnd as nat, 16),
{
    let mut s = String::from_str("pid=");
    s.append(u64_to_decimal(pid as u64).as_str());
    s.append(":hwnd=");
    s.append(hex_text(hwnd as u64, 16).as_str());
    s
}

/// The fingerprint of a window read through UI Automation (see `uia_fingerprint`).
pub fn build_window_fingerprint(metadata: &WindowMetadata, root: &RawObservedNode, title: &str) -> (r: String)
    ensures
        r@ == uia_fingerprint(metadata.pid, metadata.hwnd, root@.class_name, title@, root@.name),
{
    let mut s = pid_hwnd_text(metadata.pid, metadata.hwnd);
    s.append(":class=");
    s.append(normalize_optional_for_key(opt_str(&root.class_name)).as_str());
    s.append(":title=");
    s.append(normalize_for_key(title).as_str());
    s.append(":root_name=");
    s.append(normalize_optional_for_key(opt_str(&root.name)).as_str());
    s
}

/// The fingerprint of a window read through MSAA (see `msaa_fingerprint`).
pub fn build_msaa_window_fingerprint(metadata: &WindowMetadata, role_name: &str, title: &str) -> (r: String)
    ensures
        r@ == msaa_fingerprint(metadata.pid, metadata.hwnd, role_name@, title@),
{
    let mut s = pid_hwnd_text(metadata.pid, metadata.hwnd);
    s.append(":msaa_role=");
    s.append(normalize_for_key(role_name).as_str());
    s.append(":title=");
    s.append(normalize_for_key(title).as_str());
    s
}

/// The window a UI Automation read of `metadata`'s window gives, its tree read as `raw_root`.
pub open spec fn uia_window_of(m: WindowMetadata, raw_root: RawV) -> WindowV {
    let title = preferred_title(m.title@, raw_root.name, raw_root.class_name, m.hwnd);
    let fp = uia_fingerprint(m.pid, m.hwnd, raw_root.class_name, title, raw_root.name);
    WindowV {
        window_id: window_id_for(fp),
        pid: m.pid,
        process_name: opt_view(m.process_name),
        title,
        bounds: m.bounds,
        backend: BackendKind::Uia,
        confidence_bits: UIA_CONFIDENCE_BITS,
        root: materialized(raw_root, fp, None, Seq::empty()),
    }
}

/// The window a UI Automation read gives (see `uia_window_of`).
pub fn uia_window(metadata: &WindowMetadata, raw_root: RawObservedNode) -> (r: WindowState)
    ensures
        r@ == uia_window_of(*metadata, raw_root@),
{
    let name_s = opt_str(&raw_root.name);
    let class_s = opt_str(&raw_root.class_name);
    let title = preferred_window_title(metadata.title.as_str(), name_s, class_s, metadata.hwnd);
    let fp = build_window_fingerprint(metadata, &raw_root, title.as_str());
    let root = materialize_root(raw_root, fp.as_str());
    let r = WindowState {
        window_id: window_id_from_fingerprint(fp.as_str()),
        pid: metadata.pid,
        process_name: copy_opt_string(&metadata.process_name),
        title,
        bounds: metadata.bounds,
        backend: BackendKind::Uia,
        confidence_bits: UIA_CONFIDENCE_BITS,
        root,
    };
    r
}

/// The role name of an MSAA role number: `msaa_role_<n>`, or
/// `MsaaAccessible` when the role is unknown.
pub open spec fn msaa_role_name(role: Option<i32>) -> Seq<char> {
    match role {
        Some(v) => "msaa_role_"@ + int_text(v as int),
        None => "MsaaAccessible"@,
    }
}

/// The window an MSAA fallback read gives: the accessible object's name,
/// role and state numbers make a childless root with the role and state
/// as properties.
pub open spec fn msaa_window_of(m: WindowMetadata, name: Option<Seq<char>>, role: Option<i32>, state: Option<i32>) -> WindowV {
    let role_name = msaa_role_name(role);
    let title = preferred_title(m.title@, name, Some(role_name), m.hwnd);
    let fp = msaa_fingerprint(m.pid, m.hwnd, role_name, title);
    WindowV {
        window_id: window_id_for(fp),
        pid: m.pid,
        process_name: opt_view(m.process_name),
        title,
        bounds: m.bounds,
        backend: BackendKind::Msaa,
        confidence_bits: MSAA_CONFIDENCE_BITS,
        root: NodeV {
            element_id: element_id_for(fp, Seq::empty()),
            parent_id: None,
            backend: BackendKind::Msaa,
            control_type: role_name,
            class_name: opt_view(m.class_name),
            name,
            automation_id: None,
            native_window_handle: Some(m.hwnd as u64),
            bounds: m.bounds,
            locator: LocatorV { window_fingerprint: fp, path: Seq::empty() },
            properties: seq![
                ("msaa_role"@, PropertyValueV::Str(role_name)),
                ("msaa_state"@, PropertyValueV::I64(match state {
                    Some(s) => s as i64,
                    None => 0,
                })),
            ],
            states: ElementStates {
                enabled: true,
                visible: true,
                focused: false,
                selected: false,
                expanded: false,
                toggled: false,
            },
            children: Seq::empty(),
            confidence_bits: MSAA_CONFIDENCE_BITS,
        },
    }
}

/// The window an MSAA fallback read gives (see `msaa_window_of`).
pub fn msaa_window(metadata: &WindowMetadata, name: Option<String>, role: Option<i32>, state: Option<i32>) -> (r: WindowState)
    ensures
        r@ == msaa_window_of(*metadata, opt_view(name), role, state),
{
    let role_name = match role {
        Some(v) => {
            let mut t = String::from_str("msaa_role_");
            t.append(int_to_text(v as i64).as_str());
            t
        },
        None => String::from_str("MsaaAccessible"),
    };
    let name_s = opt_str(&name);
    let title = preferred_window_title(metadata.title.as_str(), name_s, Some(role_name.as_str()), metadata.hwnd);
    let fp = build_msaa_window_fingerprint(metadata, role_name.as_str(), title.as_str());
    let path: Vec<LocatorSegment> = Vec::new();
    assert(path@.map_values(|s: LocatorSegment| s@) =~= Seq::<SegmentV>::empty());
    let element_id = element_id_from_locator(fp.as_str(), &path);
    let mut properties: Vec<(String, PropertyValue)> = Vec::new();
    properties.push((String::from_str("msaa_role"), PropertyValue::String(role_name.clone())));
    properties.push((String::from_str("msaa_state"), PropertyValue::I64(match state {
        Some(s) => s as i64,
        None => 0,
    })));
    let root = ElementNode {
        element_id,
        parent_id: None,
        backend: BackendKind::Msaa,
        control_type: role_name,
        class_name: copy_opt_string(&metadata.class_name),
        name,
        automation_id: None,
        native_window_handle: Some(metadata.hwnd as u64),
        bounds: metadata.bounds,
        locator: Locator { window_fingerprint: fp.clone(), path },
        properties,
        states: ElementStates {
            enabled: true,
            visible: true,
            focused: false,
            selected: false,
            expanded: false,
            toggled: false,
        },
        children: Vec::new(),
        confidence_bits: MSAA_CONFIDENCE_BITS,
    };
    let r = WindowState {
        window_id: window_id_from_fingerprint(fp.as_str()),
        pid: metadata.pid,
        process_name: copy_opt_string(&metadata.process_name),
        title,
        bounds: metadata.bounds,
        backend: BackendKind::Msaa,
        confidence_bits: MSAA_CONFIDENCE_BITS,
        root,
    };
    proof {
        crate::model::lemma_children_view(r.root);
        let e = msaa_window_of(*metadata, opt_view(name), role, state);
        assert(r@.root.properties =~= e.root.properties);
        assert(r@.root.children =~= e.root.children);
        assert(r@.root.locator =~= e.root.locator);
        assert(r@.root =~= e.root);
        assert(r@ =~= e);
    }
    r
}

// ----- control types -----

/// The name of a UI Automation control type id; unknown ids are named by number.
pub open spec fn control_type_text(id: i32) -> Seq<char> {
    if id == 50032 {
        "Window"@
    } else if id == 50033 {
        "Pane"@
    } else if id == 50000 {
        "Button"@
    } else if id == 50004 {
        "Edit"@
    } else if id == 50020 {
        "Text"@
    } else if id == 50008 {
        "List"@
    } else if id == 50023 {
        "Tree"@
    } else if id == 50009 {
        "Menu"@
    } else if id == 50018 {
        "Tab"@
    } else if id == 50025 {
        "Custom"@
    } else {
        "ControlType("@ + int_text(id as int) + ")"@
    }
}

/// The name of a UI Automation control type id (see `control_type_text`).
pub fn control_type_name(control_type: i32) -> (r: String)
    ensures
        r@ == control_type_text(control_type),
{
    if control_type == 50032 {
        String::from_str("Window")
    } else if control_type == 50033 {
        String::from_str("Pane")
    } else if control_type == 50000 {
        String::from_str("Button")
    } else if control_type == 50004 {
        String::from_str("Edit")
    } else if control_type == 50020 {
        String::from_str("Text")
    } else if control_type == 50008 {
        String::from_str("List")
    } else if control_type == 50023 {
        String::from_str("Tree")
    } else if control_type == 50009 {
        String::from_str("Menu")
    } else if control_type == 50018 {
        String::from_str("Tab")
    } else if control_type == 50025 {
        String::from_str("Custom")
    } else {
        let mut t = String::from_str("ControlType(");
        t.append(int_to_text(control_type as i64).as_str());
        t.append(")");
        t
    }
}

/// Counting along a longer prefix never counts fewer, and passing an
/// occurrence counts it.
pub proof fn lemma_count_before_grows(sigs: Seq<Seq<char>>, x: Seq<char>, a: int, b: int)
    requires
        0 <= a <= b <= sigs.len(),
    ensures
        count_before(sigs, x, a) <= count_before(sigs, x, b),
        a < b && sigs[a] == x ==> count_before(sigs, x, a) + 1 <= count_before(sigs, x, b),
        count_before(sigs, x, b) <= b,
    decreases b,
{
    if b > 0 {
        if a < b {
            lemma_count_before_grows(sigs, x, a, b - 1);
            if a == b - 1 {
                assert(count_before(sigs, x, b) == count_before(sigs, x, a) + (if sigs[a] == x {
                    1nat
                } else {
                    0nat
                }));
            }
        } else {
            lemma_count_before_grows(sigs, x, a - 1, b - 1);
        }
    }
}

/// Siblings get different locator steps: siblings that look alike are
/// told apart by their ordinals (for fewer than 2^32 siblings).
pub proof fn lemma_sibling_segments_distinct(children: Seq<RawV>, i: int, j: int)
    requires
        0 <= i < j < children.len(),
        children.len() <= 0x1_0000_0000,
    ensures
        child_segment(children, i) != child_segment(children, j),
{
    let sigs = signatures(children);
    let n = children.len() as int;
    if sigs[i] == sigs[j] {
        let x = sigs[i];
        lemma_count_before_grows(sigs, x, i, j);
        lemma_count_before_grows(sigs, x, j, n);
        lemma_count_before_grows(sigs, x, 0, i);
        assert(count_before(sigs, x, n) > 1);
        assert(count_before(sigs, x, i) < count_before(sigs, x, j));
        assert(count_before(sigs, x, j) < 0x1_0000_0000);
    } else {
        assert(sigs[i] == raw_signature(children[i]));
        assert(sigs[j] == raw_signature(children[j]));
    }
}

} // verus!
