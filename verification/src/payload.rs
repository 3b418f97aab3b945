//! The JSON forms of action targets and action payloads carried by the
//! wire's `target_json` and `payload_json` fields: objects with the fields in
//! declaration order, `null` for an absent optional, snake_case strings for
//! plain enums, and the target's variant named by a `kind` member. Decoding
//! takes members in any order, ignores unknown ones, and refuses a member
//! given twice.
use vstd::prelude::*;

use crate::decimal::{decimal, digit_char, u64_to_decimal};
use crate::json::{
    all_digits, chars_of, digits_value, elems_fit, field_of, fits, get_field, int_in, int_of_text, is_digit,
    is_int_text, json_int_in, key_count, last_value, members_fit, members_view, FieldV, JsonV, JsonValue,
};
use crate::model::{LocatorV, SegmentV, WindowLocatorV};
use crate::protocol::{
    ActionKind, ActionTarget, CaptureFormat, CaptureOptions, ClickOptions, DiagnosticBundleOptions,
    DiagnosticStepVerdict, ElementLocator, MouseButton, OcrOptions, PanelProbeOptions, Rect,
    RegionTarget, RuntimeStatusRequest, SendKeysOptions, SetValueOptions, TreeRequest,
    WaitCondition, WaitForOptions, WindowLocator, WriteArtifactOptions,
};

verus! {

/// Text of an integer.
pub open spec fn int_text(n: int) -> Seq<char> {
    if n < 0 {
        seq!['-'] + decimal((-n) as nat)
    } else {
        decimal(n as nat)
    }
}

/// A number value.
pub open spec fn jnum(n: int) -> JsonV {
    JsonV::Num(int_text(n))
}

/// An optional string: the string, or null.
pub open spec fn jopt_str(o: Option<Seq<char>>) -> JsonV {
    match o {
        Some(s) => JsonV::Str(s),
        None => JsonV::Null,
    }
}

/// An optional number: the number, or null.
pub open spec fn jopt_num(o: Option<int>) -> JsonV {
    match o {
        Some(n) => jnum(n),
        None => JsonV::Null,
    }
}

/// The string a value holds.
pub open spec fn dec_str(j: JsonV) -> Option<Seq<char>> {
    match j {
        JsonV::Str(s) => Some(s),
        _ => None,
    }
}

/// A required string member.
pub open spec fn req_str(f: FieldV) -> Option<Seq<char>> {
    match f {
        FieldV::Present(v) => dec_str(v),
        _ => None,
    }
}

/// An optional string member: absent or null is none.
pub open spec fn opt_str(f: FieldV) -> Option<Option<Seq<char>>> {
    match f {
        FieldV::Absent => Some(None),
        FieldV::Duplicate => None,
        FieldV::Present(JsonV::Null) => Some(None),
        FieldV::Present(v) => match dec_str(v) {
            Some(s) => Some(Some(s)),
            None => None,
        },
    }
}

/// A required boolean member.
pub open spec fn req_bool(f: FieldV) -> Option<bool> {
    match f {
        FieldV::Present(JsonV::Bool(b)) => Some(b),
        _ => None,
    }
}

/// A required integer member in `lo..=hi`.
pub open spec fn req_int(f: FieldV, lo: int, hi: int) -> Option<int> {
    match f {
        FieldV::Present(v) => int_in(v, lo, hi),
        _ => None,
    }
}

/// An optional integer member in `lo..=hi`: absent or null is none.
pub open spec fn opt_int(f: FieldV, lo: int, hi: int) -> Option<Option<int>> {
    match f {
        FieldV::Absent => Some(None),
        FieldV::Duplicate => None,
        FieldV::Present(JsonV::Null) => Some(None),
        FieldV::Present(v) => match int_in(v, lo, hi) {
            Some(n) => Some(Some(n)),
            None => None,
        },
    }
}

/// The members of an object value.
pub open spec fn members(j: JsonV) -> Option<Seq<(Seq<char>, JsonV)>> {
    match j {
        JsonV::Obj(ms) => Some(ms),
        _ => None,
    }
}

/// The decimal text of an integer.
pub fn int_to_text(n: i64) -> (r: String)
    ensures
        r@ == int_text(n as int),
{
    if n < 0 {
        let m: u64 = if n == i64::MIN {
            0x8000_0000_0000_0000
        } else {
            (-n) as u64
        };
        let mut t = String::new();
        t.push('-');
        let d = u64_to_decimal(m);
        t.append(d.as_str());
        assert(t@ =~= seq!['-'] + decimal((-(n as int)) as nat));
        t
    } else {
        u64_to_decimal(n as u64)
    }
}

/// A number value for an integer.
pub fn num_value(n: i64) -> (r: JsonValue)
    ensures
        r@ == jnum(n as int),
{
    JsonValue::Num(int_to_text(n))
}

/// A string value.
pub fn str_value(s: &str) -> (r: JsonValue)
    ensures
        r@ == JsonV::Str(s@),
{
    JsonValue::Str(String::from_str(s))
}

/// An optional string value.
pub fn opt_str_value(o: &Option<String>) -> (r: JsonValue)
    ensures
        r@ == jopt_str(crate::text::opt_view(*o)),
{
    match o {
        Some(s) => JsonValue::Str(s.clone()),
        None => JsonValue::Null,
    }
}

/// An optional number value.
pub fn opt_num_value(o: Option<i64>) -> (r: JsonValue)
    ensures
        r@ == jopt_num(match o {
            Some(n) => Some(n as int),
            None => None,
        }),
{
    match o {
        Some(n) => num_value(n),
        None => JsonValue::Null,
    }
}

/// A required string member.
pub fn field_str(ms: &Vec<(String, JsonValue)>, key: &str) -> (r: Result<String, ()>)
    ensures
        match r {
            Ok(s) => req_str(field_of(members_view(ms@), key@)) == Some(s@),
            Err(_) => req_str(field_of(members_view(ms@), key@)) is None,
        },
{
    match get_field(ms, key) {
        Ok(Some(JsonValue::Str(s))) => Ok(s.clone()),
        _ => Err(()),
    }
}

/// An optional string member.
pub fn field_opt_str(ms: &Vec<(String, JsonValue)>, key: &str) -> (r: Result<Option<String>, ()>)
    ensures
        match r {
            Ok(o) => opt_str(field_of(members_view(ms@), key@)) == Some(crate::text::opt_view(o)),
            Err(_) => opt_str(field_of(members_view(ms@), key@)) is None,
        },
{
    match get_field(ms, key) {
        Ok(None) => Ok(None),
        Ok(Some(JsonValue::Null)) => Ok(None),
        Ok(Some(JsonValue::Str(s))) => Ok(Some(s.clone())),
        _ => Err(()),
    }
}

/// A required boolean member.
pub fn field_bool(ms: &Vec<(String, JsonValue)>, key: &str) -> (r: Result<bool, ()>)
    ensures
        match r {
            Ok(b) => req_bool(field_of(members_view(ms@), key@)) == Some(b),
            Err(_) => req_bool(field_of(members_view(ms@), key@)) is None,
        },
{
    match get_field(ms, key) {
        Ok(Some(JsonValue::Bool(b))) => Ok(*b),
        _ => Err(()),
    }
}

/// A required integer member in `lo..=hi`.
pub fn field_int(ms: &Vec<(String, JsonValue)>, key: &str, lo: i128, hi: i128) -> (r: Result<i128, ()>)
    requires
        -0x1_0000_0000_0000_0000 < lo <= 0 <= hi < 0x1_0000_0000_0000_0000,
    ensures
        match r {
            Ok(n) => req_int(field_of(members_view(ms@), key@), lo as int, hi as int) == Some(n as int) && lo <= n <= hi,
            Err(_) => req_int(field_of(members_view(ms@), key@), lo as int, hi as int) is None,
        },
{
    match get_field(ms, key) {
        Ok(Some(v)) => match json_int_in(v, lo, hi) {
            Some(n) => Ok(n),
            None => Err(()),
        },
        _ => Err(()),
    }
}

/// An optional integer member in `lo..=hi`.
pub fn field_opt_int(ms: &Vec<(String, JsonValue)>, key: &str, lo: i128, hi: i128) -> (r: Result<Option<i128>, ()>)
    requires
        -0x1_0000_0000_0000_0000 < lo <= 0 <= hi < 0x1_0000_0000_0000_0000,
    ensures
        match r {
            Ok(o) => opt_int(field_of(members_view(ms@), key@), lo as int, hi as int) == Some(
                match o {
                    Some(n) => Some(n as int),
                    None => None,
                },
            ) && (o matches Some(n) ==> lo <= n <= hi),
            Err(_) => opt_int(field_of(members_view(ms@), key@), lo as int, hi as int) is None,
        },
{
    match get_field(ms, key) {
        Ok(None) => Ok(None),
        Ok(Some(JsonValue::Null)) => Ok(None),
        Ok(Some(v)) => match json_int_in(v, lo, hi) {
            Some(n) => Ok(Some(n)),
            None => Err(()),
        },
        Err(_) => Err(()),
    }
}

// ----- rectangles, locators -----

/// The JSON form of a rectangle.
pub open spec fn rect_json(r: Rect) -> JsonV {
    JsonV::Obj(
        seq![
            ("left"@, jnum(r.left as int)),
            ("top"@, jnum(r.top as int)),
            ("width"@, jnum(r.width as int)),
            ("height"@, jnum(r.height as int)),
        ],
    )
}

/// A rectangle from its JSON form.
pub open spec fn rect_of(j: JsonV) -> Option<Rect> {
    match members(j) {
        None => None,
        Some(ms) => match (
            req_int(field_of(ms, "left"@), -0x8000_0000, 0x7fff_ffff),
            req_int(field_of(ms, "top"@), -0x8000_0000, 0x7fff_ffff),
            req_int(field_of(ms, "width"@), -0x8000_0000, 0x7fff_ffff),
            req_int(field_of(ms, "height"@), -0x8000_0000, 0x7fff_ffff),
        ) {
            (Some(l), Some(t), Some(w), Some(h)) => Some(Rect { left: l as i32, top: t as i32, width: w as i32, height: h as i32 }),
            _ => None,
        },
    }
}

/// The JSON form of a rectangle.
pub fn rect_to_json(r: &Rect) -> (j: JsonValue)
    ensures
        j@ == rect_json(*r),
{
    let mut ms: Vec<(String, JsonValue)> = Vec::new();
    ms.push((String::from_str("left"), num_value(r.left as i64)));
    ms.push((String::from_str("top"), num_value(r.top as i64)));
    ms.push((String::from_str("width"), num_value(r.width as i64)));
    ms.push((String::from_str("height"), num_value(r.height as i64)));
    proof {
        crate::json::lemma_obj_view(ms);
        assert(members_view(ms@) =~= rect_json(*r)->Obj_0);
    }
    JsonValue::Obj(ms)
}

/// A rectangle from its JSON form.
pub fn rect_from_json(j: &JsonValue) -> (r: Result<Rect, ()>)
    ensures
        match r {
            Ok(x) => rect_of(j@) == Some(x),
            Err(_) => rect_of(j@) is None,
        },
{
    match j {
        JsonValue::Obj(ms) => {
            proof {
                crate::json::lemma_obj_view(*ms);
            }
            let l = field_int(ms, "left", -0x8000_0000, 0x7fff_ffff);
            let t = field_int(ms, "top", -0x8000_0000, 0x7fff_ffff);
            let w = field_int(ms, "width", -0x8000_0000, 0x7fff_ffff);
            let h = field_int(ms, "height", -0x8000_0000, 0x7fff_ffff);
            match (l, t, w, h) {
                (Ok(l), Ok(t), Ok(w), Ok(h)) => Ok(Rect { left: l as i32, top: t as i32, width: w as i32, height: h as i32 }),
                _ => Err(()),
            }
        },
        _ => Err(()),
    }
}

/// The JSON form of a locator segment.
pub open spec fn segment_json(g: SegmentV) -> JsonV {
    JsonV::Obj(
        seq![
            ("control_type"@, JsonV::Str(g.control_type)),
            ("class_name"@, jopt_str(g.class_name)),
            ("automation_id"@, jopt_str(g.automation_id)),
            ("name"@, jopt_str(g.name)),
            ("sibling_ordinal"@, jopt_num(match g.sibling_ordinal {
                Some(n) => Some(n as int),
                None => None,
            })),
        ],
    )
}

/// A locator segment from its JSON form.
pub open spec fn segment_of(j: JsonV) -> Option<SegmentV> {
    match members(j) {
        None => None,
        Some(ms) => match (
            req_str(field_of(ms, "control_type"@)),
            opt_str(field_of(ms, "class_name"@)),
            opt_str(field_of(ms, "automation_id"@)),
            opt_str(field_of(ms, "name"@)),
            opt_int(field_of(ms, "sibling_ordinal"@), 0, 0xffff_ffff),
        ) {
            (Some(c), Some(k), Some(a), Some(n), Some(o)) => Some(
                SegmentV {
                    control_type: c,
                    class_name: k,
                    automation_id: a,
                    name: n,
                    sibling_ordinal: match o {
                        Some(x) => Some(x as u32),
                        None => None,
                    },
                },
            ),
            _ => None,
        },
    }
}

/// The JSON form of a locator.
pub open spec fn locator_json(l: LocatorV) -> JsonV {
    JsonV::Obj(
        seq![
            ("window_fingerprint"@, JsonV::Str(l.window_fingerprint)),
            ("path"@, JsonV::Arr(l.path.map_values(|g: SegmentV| segment_json(g)))),
        ],
    )
}

/// Segments from the elements of an array.
pub open spec fn segments_of(v: Seq<JsonV>) -> Option<Seq<SegmentV>>
    decreases v.len(),
{
    if v.len() == 0 {
        Some(Seq::empty())
    } else {
        match (segments_of(v.drop_last()), segment_of(v.last())) {
            (Some(s), Some(g)) => Some(s.push(g)),
            _ => None,
        }
    }
}

/// A locator from its JSON form.
pub open spec fn locator_of(j: JsonV) -> Option<LocatorV> {
    match members(j) {
        None => None,
        Some(ms) => match (req_str(field_of(ms, "window_fingerprint"@)), field_of(ms, "path"@)) {
            (Some(w), FieldV::Present(JsonV::Arr(v))) => match segments_of(v) {
                Some(p) => Some(LocatorV { window_fingerprint: w, path: p }),
                None => None,
            },
            _ => None,
        },
    }
}

/// The JSON form of a locator segment.
pub fn segment_to_json(g: &crate::protocol::LocatorSegment) -> (j: JsonValue)
    ensures
        j@ == segment_json(g@),
{
    let mut ms: Vec<(String, JsonValue)> = Vec::new();
    ms.push((String::from_str("control_type"), JsonValue::Str(g.control_type.clone())));
    ms.push((String::from_str("class_name"), opt_str_value(&g.class_name)));
    ms.push((String::from_str("automation_id"), opt_str_value(&g.automation_id)));
    ms.push((String::from_str("name"), opt_str_value(&g.name)));
    ms.push((String::from_str("sibling_ordinal"), opt_num_value(match g.sibling_ordinal {
        Some(n) => Some(n as i64),
        None => None,
    })));
    proof {
        crate::json::lemma_obj_view(ms);
        assert(members_view(ms@) =~= segment_json(g@)->Obj_0);
    }
    JsonValue::Obj(ms)
}

/// A locator segment from its JSON form.
pub fn segment_from_json(j: &JsonValue) -> (r: Result<crate::protocol::LocatorSegment, ()>)
    ensures
        match r {
            Ok(x) => segment_of(j@) == Some(x@),
            Err(_) => segment_of(j@) is None,
        },
{
    match j {
        JsonValue::Obj(ms) => {
            proof {
                crate::json::lemma_obj_view(*ms);
            }
            let c = field_str(ms, "control_type");
            let k = field_opt_str(ms, "class_name");
            let a = field_opt_str(ms, "automation_id");
            let n = field_opt_str(ms, "name");
            let o = field_opt_int(ms, "sibling_ordinal", 0, 0xffff_ffff);
            match (c, k, a, n, o) {
                (Ok(c), Ok(k), Ok(a), Ok(n), Ok(o)) => Ok(
                    crate::protocol::LocatorSegment {
                        control_type: c,
                        class_name: k,
                        automation_id: a,
                        name: n,
                        sibling_ordinal: match o {
                            Some(x) => Some(x as u32),
                            None => None,
                        },
                    },
                ),
                _ => Err(()),
            }
        },
        _ => Err(()),
    }
}

/// The JSON form of a locator.
pub fn locator_to_json(l: &crate::protocol::Locator) -> (j: JsonValue)
    ensures
        j@ == locator_json(l@),
{
    let mut path: Vec<JsonValue> = Vec::new();
    let mut i: usize = 0;
    while i < l.path.len()
        invariant
            i <= l.path@.len(),
            path@.len() == i,
            forall|k: int| 0 <= k < i ==> #[trigger] path@[k]@ == segment_json(l.path@[k]@),
        decreases l.path@.len() - i,
    {
        path.push(segment_to_json(&l.path[i]));
        i = i + 1;
    }
    proof {
        crate::json::lemma_arr_view(path);
        assert(path@.map_values(|x: JsonValue| x@) =~= l@.path.map_values(|g: SegmentV| segment_json(g)));
    }
    let mut ms: Vec<(String, JsonValue)> = Vec::new();
    ms.push((String::from_str("window_fingerprint"), JsonValue::Str(l.window_fingerprint.clone())));
    ms.push((String::from_str("path"), JsonValue::Arr(path)));
    proof {
        crate::json::lemma_obj_view(ms);
        assert(members_view(ms@) =~= locator_json(l@)->Obj_0);
    }
    JsonValue::Obj(ms)
}

/// A locator from its JSON form.
pub fn locator_from_json(j: &JsonValue) -> (r: Result<crate::protocol::Locator, ()>)
    ensures
        match r {
            Ok(x) => locator_of(j@) == Some(x@),
            Err(_) => locator_of(j@) is None,
        },
{
    match j {
        JsonValue::Obj(ms) => {
            proof {
                crate::json::lemma_obj_view(*ms);
            }
            let w = match field_str(ms, "window_fingerprint") {
                Ok(w) => w,
                Err(_) => {
                    return Err(());
                },
            };
            match get_field(ms, "path") {
                Ok(Some(JsonValue::Arr(v))) => {
                    proof {
                        crate::json::lemma_arr_view(*v);
                    }
                    let ghost vv = v@.map_values(|x: JsonValue| x@);
                    let mut path: Vec<crate::protocol::LocatorSegment> = Vec::new();
                    let mut i: usize = 0;
                    assert(vv.take(0) =~= Seq::<JsonV>::empty());
                    assert(field_of(members_view(ms@), "path"@) == FieldV::Present(JsonV::Arr(vv)));
                    while i < v.len()
                        invariant
                            i <= v@.len(),
                            vv == v@.map_values(|x: JsonValue| x@),
                            members(j@) == Some(members_view(ms@)),
                            field_of(members_view(ms@), "path"@) == FieldV::Present(JsonV::Arr(vv)),
                            segments_of(vv.take(i as int)) == Some(path@.map_values(|g: crate::protocol::LocatorSegment| g@)),
                        decreases v@.len() - i,
                    {
                        assert(vv.take(i + 1).drop_last() =~= vv.take(i as int));
                        match segment_from_json(&v[i]) {
                            Ok(g) => {
                                let ghost before = path@.map_values(|g: crate::protocol::LocatorSegment| g@);
                                path.push(g);
                                assert(path@.map_values(|g: crate::protocol::LocatorSegment| g@) =~= before.push(g@));
                            },
                            Err(_) => {
                                proof {
                                    lemma_segments_prefix_none(vv, i + 1);
                                }
                                return Err(());
                            },
                        }
                        i = i + 1;
                    }
                    assert(vv.take(i as int) =~= vv);
                    let r = crate::protocol::Locator { window_fingerprint: w, path };
                    assert(r@.path =~= path@.map_values(|g: crate::protocol::LocatorSegment| g@));
                    Ok(r)
                },
                _ => Err(()),
            }
        },
        _ => Err(()),
    }
}

/// A failing prefix makes the whole fail.
proof fn lemma_segments_prefix_none(v: Seq<JsonV>, n: int)
    requires
        0 <= n <= v.len(),
        segments_of(v.take(n)) is None,
    ensures
        segments_of(v) is None,
    decreases v.len() - n,
{
    if n < v.len() {
        assert(v.take(n + 1).drop_last() =~= v.take(n));
        lemma_segments_prefix_none(v, n + 1);
    } else {
        assert(v.take(n) =~= v);
    }
}

/// View of an action target.
pub enum TargetV {
    Desktop,
    Window(WindowLocatorV),
    Element { element_id: Option<Seq<char>>, locator: Option<LocatorV> },
    Region { window_id: Option<Seq<char>>, bounds: Rect },
}

impl View for ActionTarget {
    type V = TargetV;

    open spec fn view(&self) -> TargetV {
        match self {
            ActionTarget::Desktop => TargetV::Desktop,
            ActionTarget::Window(w) => TargetV::Window(w@),
            ActionTarget::Element(e) => TargetV::Element {
                element_id: match e.element_id {
                    Some(x) => Some(x@),
                    None => None,
                },
                locator: match e.locator {
                    Some(l) => Some(l@),
                    None => None,
                },
            },
            ActionTarget::Region(r) => TargetV::Region {
                window_id: match r.window_id {
                    Some(x) => Some(x@),
                    None => None,
                },
                bounds: r.bounds,
            },
        }
    }
}

/// The members of a window locator.
pub open spec fn window_locator_members(w: WindowLocatorV) -> Seq<(Seq<char>, JsonV)> {
    seq![
        ("window_id"@, jopt_str(w.window_id)),
        ("title"@, jopt_str(w.title)),
        ("pid"@, jopt_num(match w.pid {
            Some(n) => Some(n as int),
            None => None,
        })),
        ("process_name"@, jopt_str(w.process_name)),
        ("class_name"@, jopt_str(w.class_name)),
    ]
}

/// A window locator from object members.
pub open spec fn window_locator_of(ms: Seq<(Seq<char>, JsonV)>) -> Option<WindowLocatorV> {
    match (
        opt_str(field_of(ms, "window_id"@)),
        opt_str(field_of(ms, "title"@)),
        opt_int(field_of(ms, "pid"@), 0, 0xffff_ffff),
        opt_str(field_of(ms, "process_name"@)),
        opt_str(field_of(ms, "class_name"@)),
    ) {
        (Some(w), Some(t), Some(p), Some(n), Some(c)) => Some(
            WindowLocatorV {
                window_id: w,
                title: t,
                pid: match p {
                    Some(x) => Some(x as u32),
                    None => None,
                },
                process_name: n,
                class_name: c,
            },
        ),
        _ => None,
    }
}

/// The JSON form of an action target: its variant under `kind`, then its fields.
pub open spec fn target_json(t: TargetV) -> JsonV {
    match t {
        TargetV::Desktop => JsonV::Obj(seq![("kind"@, JsonV::Str("desktop"@))]),
        TargetV::Window(w) => JsonV::Obj(seq![("kind"@, JsonV::Str("window"@))] + window_locator_members(w)),
        TargetV::Element { element_id, locator } => JsonV::Obj(
            seq![
                ("kind"@, JsonV::Str("element"@)),
                ("element_id"@, jopt_str(element_id)),
                ("locator"@, match locator {
                    Some(l) => locator_json(l),
                    None => JsonV::Null,
                }),
            ],
        ),
        TargetV::Region { window_id, bounds } => JsonV::Obj(
            seq![
                ("kind"@, JsonV::Str("region"@)),
                ("window_id"@, jopt_str(window_id)),
                ("bounds"@, rect_json(bounds)),
            ],
        ),
    }
}

/// An optional locator member.
pub open spec fn opt_locator(f: FieldV) -> Option<Option<LocatorV>> {
    match f {
        FieldV::Absent => Some(None),
        FieldV::Duplicate => None,
        FieldV::Present(JsonV::Null) => Some(None),
        FieldV::Present(v) => match locator_of(v) {
            Some(l) => Some(Some(l)),
            None => None,
        },
    }
}

/// An action target from its JSON form.
pub open spec fn target_of(j: JsonV) -> Option<TargetV> {
    match members(j) {
        None => None,
        Some(ms) => match req_str(field_of(ms, "kind"@)) {
            None => None,
            Some(k) => if k == "desktop"@ {
                Some(TargetV::Desktop)
            } else if k == "window"@ {
                match window_locator_of(ms) {
                    Some(w) => Some(TargetV::Window(w)),
                    None => None,
                }
            } else if k == "element"@ {
                match (opt_str(field_of(ms, "element_id"@)), opt_locator(field_of(ms, "locator"@))) {
                    (Some(e), Some(l)) => Some(TargetV::Element { element_id: e, locator: l }),
                    _ => None,
                }
            } else if k == "region"@ {
                match (opt_str(field_of(ms, "window_id"@)), field_of(ms, "bounds"@)) {
                    (Some(w), FieldV::Present(b)) => match rect_of(b) {
                        Some(r) => Some(TargetV::Region { window_id: w, bounds: r }),
                        None => None,
                    },
                    _ => None,
                }
            } else {
                None
            },
        },
    }
}

/// An optional id as a string value.
fn opt_id_value(o: &Option<String>) -> (r: JsonValue)
    ensures
        r@ == jopt_str(crate::text::opt_view(*o)),
{
    opt_str_value(o)
}

/// The JSON form of an action target.
pub fn target_to_json(t: &ActionTarget) -> (j: JsonValue)
    ensures
        j@ == target_json(t@),
{
    let mut ms: Vec<(String, JsonValue)> = Vec::new();
    match t {
        ActionTarget::Desktop => {
            ms.push((String::from_str("kind"), str_value("desktop")));
        },
        ActionTarget::Window(w) => {
            ms.push((String::from_str("kind"), str_value("window")));
            let wid: Option<String> = match &w.window_id {
                Some(x) => Some(x.0.clone()),
                None => None,
            };
            ms.push((String::from_str("window_id"), opt_id_value(&wid)));
            ms.push((String::from_str("title"), opt_str_value(&w.title)));
            ms.push((String::from_str("pid"), opt_num_value(match w.pid {
                Some(n) => Some(n as i64),
                None => None,
            })));
            ms.push((String::from_str("process_name"), opt_str_value(&w.process_name)));
            ms.push((String::from_str("class_name"), opt_str_value(&w.class_name)));
        },
        ActionTarget::Element(e) => {
            ms.push((String::from_str("kind"), str_value("element")));
            let eid: Option<String> = match &e.element_id {
                Some(x) => Some(x.0.clone()),
                None => None,
            };
            ms.push((String::from_str("element_id"), opt_id_value(&eid)));
            let l = match &e.locator {
                Some(l) => locator_to_json(l),
                None => JsonValue::Null,
            };
            ms.push((String::from_str("locator"), l));
        },
        ActionTarget::Region(r) => {
            ms.push((String::from_str("kind"), str_value("region")));
            let wid: Option<String> = match &r.window_id {
                Some(x) => Some(x.0.clone()),
                None => None,
            };
            ms.push((String::from_str("window_id"), opt_id_value(&wid)));
            ms.push((String::from_str("bounds"), rect_to_json(&r.bounds)));
        },
    }
    proof {
        crate::json::lemma_obj_view(ms);
        assert(members_view(ms@) =~= target_json(t@)->Obj_0);
    }
    JsonValue::Obj(ms)
}

/// An action target from its JSON form.
pub fn target_from_json(j: &JsonValue) -> (r: Result<ActionTarget, ()>)
    ensures
        match r {
            Ok(x) => target_of(j@) == Some(x@),
            Err(_) => target_of(j@) is None,
        },
{
    let ms = match j {
        JsonValue::Obj(ms) => ms,
        _ => {
            return Err(());
        },
    };
    proof {
        crate::json::lemma_obj_view(*ms);
    }
    let k = match field_str(ms, "kind") {
        Ok(k) => k,
        Err(_) => {
            return Err(());
        },
    };
    if crate::text::str_equal(k.as_str(), "desktop") {
        Ok(ActionTarget::Desktop)
    } else if crate::text::str_equal(k.as_str(), "window") {
        let w = field_opt_str(ms, "window_id");
        let t = field_opt_str(ms, "title");
        let p = field_opt_int(ms, "pid", 0, 0xffff_ffff);
        let n = field_opt_str(ms, "process_name");
        let c = field_opt_str(ms, "class_name");
        match (w, t, p, n, c) {
            (Ok(w), Ok(t), Ok(p), Ok(n), Ok(c)) => Ok(
                ActionTarget::Window(
                    WindowLocator {
                        window_id: match w {
                            Some(x) => Some(crate::protocol::WindowId(x)),
                            None => None,
                        },
                        title: t,
                        pid: match p {
                            Some(x) => Some(x as u32),
                            None => None,
                        },
                        process_name: n,
                        class_name: c,
                    },
                ),
            ),
            _ => Err(()),
        }
    } else if crate::text::str_equal(k.as_str(), "element") {
        let e = field_opt_str(ms, "element_id");
        let l: Result<Option<crate::protocol::Locator>, ()> = match get_field(ms, "locator") {
            Ok(None) => Ok(None),
            Ok(Some(JsonValue::Null)) => Ok(None),
            Ok(Some(v)) => match locator_from_json(v) {
                Ok(l) => Ok(Some(l)),
                Err(_) => Err(()),
            },
            Err(_) => Err(()),
        };
        match (e, l) {
            (Ok(e), Ok(l)) => Ok(
                ActionTarget::Element(
                    ElementLocator {
                        element_id: match e {
                            Some(x) => Some(crate::protocol::ElementId(x)),
                            None => None,
                        },
                        locator: l,
                    },
                ),
            ),
            _ => Err(()),
        }
    } else if crate::text::str_equal(k.as_str(), "region") {
        let w = field_opt_str(ms, "window_id");
        let b: Result<Rect, ()> = match get_field(ms, "bounds") {
            Ok(Some(v)) => rect_from_json(v),
            _ => Err(()),
        };
        match (w, b) {
            (Ok(w), Ok(b)) => Ok(
                ActionTarget::Region(
                    RegionTarget {
                        window_id: match w {
                            Some(x) => Some(crate::protocol::WindowId(x)),
                            None => None,
                        },
                        bounds: b,
                    },
                ),
            ),
            _ => Err(()),
        }
    } else {
        Err(())
    }
}

/// View of an action kind.
pub enum KindV {
    ListWindows,
    GetTree(TreeRequest),
    GetRuntimeStatus,
    FocusWindow,
    ClickElement(ClickOptions),
    SetValue { value: Seq<char>, clear_first: bool },
    Invoke,
    SendKeys { keys: Seq<char> },
    WaitFor(WaitForOptions),
    CaptureRegion(CaptureOptions),
    OcrRegion { language_hint: Option<Seq<char>> },
    WriteArtifact { kind: Seq<char>, note: Option<Seq<char>> },
    CollectDiagnosticBundle {
        step_id: Option<Seq<char>>,
        step_label: Seq<char>,
        test_verdict: DiagnosticStepVerdict,
        note: Option<Seq<char>>,
        baseline_artifact_id: Option<Seq<char>>,
        max_tree_depth: Option<u32>,
    },
    PanelProbe(PanelProbeOptions),
}

impl View for ActionKind {
    type V = KindV;

    open spec fn view(&self) -> KindV {
        match self {
            ActionKind::ListWindows => KindV::ListWindows,
            ActionKind::GetTree(t) => KindV::GetTree(*t),
            ActionKind::GetRuntimeStatus(_) => KindV::GetRuntimeStatus,
            ActionKind::FocusWindow => KindV::FocusWindow,
            ActionKind::ClickElement(c) => KindV::ClickElement(*c),
            ActionKind::SetValue(o) => KindV::SetValue { value: o.value@, clear_first: o.clear_first },
            ActionKind::Invoke => KindV::Invoke,
            ActionKind::SendKeys(o) => KindV::SendKeys { keys: o.keys@ },
            ActionKind::WaitFor(w) => KindV::WaitFor(*w),
            ActionKind::CaptureRegion(c) => KindV::CaptureRegion(*c),
            ActionKind::OcrRegion(o) => KindV::OcrRegion { language_hint: crate::text::opt_view(o.language_hint) },
            ActionKind::WriteArtifact(o) => KindV::WriteArtifact { kind: o.kind@, note: crate::text::opt_view(o.note) },
            ActionKind::CollectDiagnosticBundle(o) => KindV::CollectDiagnosticBundle {
                step_id: crate::text::opt_view(o.step_id),
                step_label: o.step_label@,
                test_verdict: o.test_verdict,
                note: crate::text::opt_view(o.note),
                baseline_artifact_id: match o.baseline_artifact_id {
                    Some(a) => Some(a@),
                    None => None,
                },
                max_tree_depth: o.max_tree_depth,
            },
            ActionKind::PanelProbe(p) => KindV::PanelProbe(*p),
        }
    }
}

/// The wire name of an action kind.
pub open spec fn kind_name(k: KindV) -> Seq<char> {
    match k {
        KindV::ListWindows => "list_windows"@,
        KindV::GetTree(_) => "get_tree"@,
        KindV::GetRuntimeStatus => "get_runtime_status"@,
        KindV::FocusWindow => "focus_window"@,
        KindV::ClickElement(_) => "click_element"@,
        KindV::SetValue { .. } => "set_value"@,
        KindV::Invoke => "invoke"@,
        KindV::SendKeys { .. } => "send_keys"@,
        KindV::WaitFor(_) => "wait_for"@,
        KindV::CaptureRegion(_) => "capture_region"@,
        KindV::OcrRegion { .. } => "ocr_region"@,
        KindV::WriteArtifact { .. } => "write_artifact"@,
        KindV::CollectDiagnosticBundle { .. } => "collect_diagnostic_bundle"@,
        KindV::PanelProbe(_) => "panel_probe"@,
    }
}

/// The wire name of a mouse button.
pub open spec fn button_name(b: MouseButton) -> Seq<char> {
    match b {
        MouseButton::Left => "left"@,
        MouseButton::Right => "right"@,
        MouseButton::Middle => "middle"@,
    }
}

/// The wire name of a wait condition.
pub open spec fn condition_name(c: WaitCondition) -> Seq<char> {
    match c {
        WaitCondition::Exists => "exists"@,
        WaitCondition::Visible => "visible"@,
        WaitCondition::Enabled => "enabled"@,
        WaitCondition::Focused => "focused"@,
        WaitCondition::Gone => "gone"@,
    }
}

/// The wire name of a capture format.
pub open spec fn format_name(f: CaptureFormat) -> Seq<char> {
    match f {
        CaptureFormat::Png => "png"@,
        CaptureFormat::Jpeg => "jpeg"@,
    }
}

/// The wire name of a step verdict.
pub open spec fn verdict_name(v: DiagnosticStepVerdict) -> Seq<char> {
    match v {
        DiagnosticStepVerdict::Failed => "failed"@,
        DiagnosticStepVerdict::TimedOut => "timed_out"@,
        DiagnosticStepVerdict::Blocked => "blocked"@,
        DiagnosticStepVerdict::Passed => "passed"@,
    }
}

/// A mouse button from its wire name.
pub open spec fn button_of(s: Seq<char>) -> Option<MouseButton> {
    if s == "left"@ {
        Some(MouseButton::Left)
    } else if s == "right"@ {
        Some(MouseButton::Right)
    } else if s == "middle"@ {
        Some(MouseButton::Middle)
    } else {
        None
    }
}

/// A wait condition from its wire name.
pub open spec fn condition_of(s: Seq<char>) -> Option<WaitCondition> {
    if s == "exists"@ {
        Some(WaitCondition::Exists)
    } else if s == "visible"@ {
        Some(WaitCondition::Visible)
    } else if s == "enabled"@ {
        Some(WaitCondition::Enabled)
    } else if s == "focused"@ {
        Some(WaitCondition::Focused)
    } else if s == "gone"@ {
        Some(WaitCondition::Gone)
    } else {
        None
    }
}

/// A capture format from its wire name.
pub open spec fn format_of(s: Seq<char>) -> Option<CaptureFormat> {
    if s == "png"@ {
        Some(CaptureFormat::Png)
    } else if s == "jpeg"@ {
        Some(CaptureFormat::Jpeg)
    } else {
        None
    }
}

/// A step verdict from its wire name.
pub open spec fn verdict_of(s: Seq<char>) -> Option<DiagnosticStepVerdict> {
    if s == "failed"@ {
        Some(DiagnosticStepVerdict::Failed)
    } else if s == "timed_out"@ {
        Some(DiagnosticStepVerdict::TimedOut)
    } else if s == "blocked"@ {
        Some(DiagnosticStepVerdict::Blocked)
    } else if s == "passed"@ {
        Some(DiagnosticStepVerdict::Passed)
    } else {
        None
    }
}

/// An optional `u32` as a value.
pub open spec fn jopt_u32(o: Option<u32>) -> JsonV {
    jopt_num(match o {
        Some(n) => Some(n as int),
        None => None,
    })
}

/// The payload of an action kind; kinds without options have none.
pub open spec fn kind_payload(k: KindV) -> Option<JsonV> {
    match k {
        KindV::GetTree(t) => Some(JsonV::Obj(seq![("raw"@, JsonV::Bool(t.raw)), ("max_depth"@, jopt_u32(t.max_depth))])),
        KindV::GetRuntimeStatus => Some(JsonV::Obj(Seq::empty())),
        KindV::ClickElement(c) => Some(JsonV::Obj(seq![("button"@, JsonV::Str(button_name(c.button))), ("clicks"@, jnum(c.clicks as int))])),
        KindV::SetValue { value, clear_first } => Some(JsonV::Obj(seq![("value"@, JsonV::Str(value)), ("clear_first"@, JsonV::Bool(clear_first))])),
        KindV::SendKeys { keys } => Some(JsonV::Obj(seq![("keys"@, JsonV::Str(keys))])),
        KindV::WaitFor(w) => Some(JsonV::Obj(seq![("condition"@, JsonV::Str(condition_name(w.condition))), ("stable_for_ms"@, jnum(w.stable_for_ms as int))])),
        KindV::CaptureRegion(c) => Some(JsonV::Obj(seq![("format"@, JsonV::Str(format_name(c.format)))])),
        KindV::OcrRegion { language_hint } => Some(JsonV::Obj(seq![("language_hint"@, jopt_str(language_hint))])),
        KindV::WriteArtifact { kind, note } => Some(JsonV::Obj(seq![("kind"@, JsonV::Str(kind)), ("note"@, jopt_str(note))])),
        KindV::CollectDiagnosticBundle { step_id, step_label, test_verdict, note, baseline_artifact_id, max_tree_depth } => Some(
            JsonV::Obj(
                seq![
                    ("step_id"@, jopt_str(step_id)),
                    ("step_label"@, JsonV::Str(step_label)),
                    ("test_verdict"@, JsonV::Str(verdict_name(test_verdict))),
                    ("note"@, jopt_str(note)),
                    ("baseline_artifact_id"@, jopt_str(baseline_artifact_id)),
                    ("max_tree_depth"@, jopt_u32(max_tree_depth)),
                ],
            ),
        ),
        KindV::PanelProbe(p) => Some(
            JsonV::Obj(
                seq![
                    ("uia_max_depth"@, jopt_u32(p.uia_max_depth)),
                    ("msaa_max_depth"@, jopt_u32(p.msaa_max_depth)),
                    ("capture_format"@, JsonV::Str(format_name(p.capture_format))),
                ],
            ),
        ),
        _ => None,
    }
}

/// A required member naming a plain enum variant.
pub open spec fn req_name<T>(f: FieldV, of: spec_fn(Seq<char>) -> Option<T>) -> Option<T> {
    match req_str(f) {
        Some(s) => of(s),
        None => None,
    }
}

/// An optional `u32` member.
pub open spec fn opt_u32(f: FieldV) -> Option<Option<u32>> {
    match opt_int(f, 0, 0xffff_ffff) {
        Some(Some(n)) => Some(Some(n as u32)),
        Some(None) => Some(None),
        None => None,
    }
}

/// The options of the kind named `name` from its payload value.
pub open spec fn kind_from(name: Seq<char>, j: JsonV) -> Option<KindV> {
    match members(j) {
        None => None,
        Some(ms) => if name == "get_tree"@ {
            match (req_bool(field_of(ms, "raw"@)), opt_u32(field_of(ms, "max_depth"@))) {
                (Some(r), Some(d)) => Some(KindV::GetTree(TreeRequest { raw: r, max_depth: d })),
                _ => None,
            }
        } else if name == "get_runtime_status"@ {
            Some(KindV::GetRuntimeStatus)
        } else if name == "click_element"@ {
            match (req_name(field_of(ms, "button"@), |s: Seq<char>| button_of(s)), req_int(field_of(ms, "clicks"@), 0, 255)) {
                (Some(b), Some(c)) => Some(KindV::ClickElement(ClickOptions { button: b, clicks: c as u8 })),
                _ => None,
            }
        } else if name == "set_value"@ {
            match (req_str(field_of(ms, "value"@)), req_bool(field_of(ms, "clear_first"@))) {
                (Some(v), Some(c)) => Some(KindV::SetValue { value: v, clear_first: c }),
                _ => None,
            }
        } else if name == "send_keys"@ {
            match req_str(field_of(ms, "keys"@)) {
                Some(k) => Some(KindV::SendKeys { keys: k }),
                None => None,
            }
        } else if name == "wait_for"@ {
            match (
                req_name(field_of(ms, "condition"@), |s: Seq<char>| condition_of(s)),
                req_int(field_of(ms, "stable_for_ms"@), 0, 0xffff_ffff_ffff_ffff),
            ) {
                (Some(c), Some(t)) => Some(KindV::WaitFor(WaitForOptions { condition: c, stable_for_ms: t as u64 })),
                _ => None,
            }
        } else if name == "capture_region"@ {
            match req_name(field_of(ms, "format"@), |s: Seq<char>| format_of(s)) {
                Some(f) => Some(KindV::CaptureRegion(CaptureOptions { format: f })),
                None => None,
            }
        } else if name == "ocr_region"@ {
            match opt_str(field_of(ms, "language_hint"@)) {
                Some(h) => Some(KindV::OcrRegion { language_hint: h }),
                None => None,
            }
        } else if name == "write_artifact"@ {
            match (req_str(field_of(ms, "kind"@)), opt_str(field_of(ms, "note"@))) {
                (Some(k), Some(n)) => Some(KindV::WriteArtifact { kind: k, note: n }),
                _ => None,
            }
        } else if name == "collect_diagnostic_bundle"@ {
            match (
                opt_str(field_of(ms, "step_id"@)),
                req_str(field_of(ms, "step_label"@)),
                req_name(field_of(ms, "test_verdict"@), |s: Seq<char>| verdict_of(s)),
                opt_str(field_of(ms, "note"@)),
                opt_str(field_of(ms, "baseline_artifact_id"@)),
                opt_u32(field_of(ms, "max_tree_depth"@)),
            ) {
                (Some(a), Some(b), Some(c), Some(d), Some(e), Some(f)) => Some(
                    KindV::CollectDiagnosticBundle {
                        step_id: a,
                        step_label: b,
                        test_verdict: c,
                        note: d,
                        baseline_artifact_id: e,
                        max_tree_depth: f,
                    },
                ),
                _ => None,
            }
        } else if name == "panel_probe"@ {
            match (
                opt_u32(field_of(ms, "uia_max_depth"@)),
                opt_u32(field_of(ms, "msaa_max_depth"@)),
                req_name(field_of(ms, "capture_format"@), |s: Seq<char>| format_of(s)),
            ) {
                (Some(u), Some(m), Some(f)) => Some(KindV::PanelProbe(PanelProbeOptions { uia_max_depth: u, msaa_max_depth: m, capture_format: f })),
                _ => None,
            }
        } else {
            None
        },
    }
}

/// Whether `name` names a kind without options.
pub open spec fn is_unit_kind(name: Seq<char>) -> bool {
    name == "list_windows"@ || name == "focus_window"@ || name == "invoke"@
}

/// Whether `name` names a kind with options.
pub open spec fn is_payload_kind(name: Seq<char>) -> bool {
    name == "get_tree"@ || name == "get_runtime_status"@ || name == "click_element"@ || name == "set_value"@
        || name == "send_keys"@ || name == "wait_for"@ || name == "capture_region"@ || name == "ocr_region"@
        || name == "write_artifact"@ || name == "collect_diagnostic_bundle"@ || name == "panel_probe"@
}

/// The unit kind named `name`.
pub open spec fn unit_kind(name: Seq<char>) -> KindV {
    if name == "list_windows"@ {
        KindV::ListWindows
    } else if name == "focus_window"@ {
        KindV::FocusWindow
    } else {
        KindV::Invoke
    }
}

/// The wire name of an action kind.
pub fn action_kind_name(k: &ActionKind) -> (r: &'static str)
    ensures
        r@ == kind_name(k@),
{
    match k {
        ActionKind::ListWindows => "list_windows",
        ActionKind::GetTree(_) => "get_tree",
        ActionKind::GetRuntimeStatus(_) => "get_runtime_status",
        ActionKind::FocusWindow => "focus_window",
        ActionKind::ClickElement(_) => "click_element",
        ActionKind::SetValue(_) => "set_value",
        ActionKind::Invoke => "invoke",
        ActionKind::SendKeys(_) => "send_keys",
        ActionKind::WaitFor(_) => "wait_for",
        ActionKind::CaptureRegion(_) => "capture_region",
        ActionKind::OcrRegion(_) => "ocr_region",
        ActionKind::WriteArtifact(_) => "write_artifact",
        ActionKind::CollectDiagnosticBundle(_) => "collect_diagnostic_bundle",
        ActionKind::PanelProbe(_) => "panel_probe",
    }
}

fn button_str(b: MouseButton) -> (r: &'static str)
    ensures
        r@ == button_name(b),
{
    match b {
        MouseButton::Left => "left",
        MouseButton::Right => "right",
        MouseButton::Middle => "middle",
    }
}

fn condition_str(c: WaitCondition) -> (r: &'static str)
    ensures
        r@ == condition_name(c),
{
    match c {
        WaitCondition::Exists => "exists",
        WaitCondition::Visible => "visible",
        WaitCondition::Enabled => "enabled",
        WaitCondition::Focused => "focused",
        WaitCondition::Gone => "gone",
    }
}

fn format_str(f: CaptureFormat) -> (r: &'static str)
    ensures
        r@ == format_name(f),
{
    match f {
        CaptureFormat::Png => "png",
        CaptureFormat::Jpeg => "jpeg",
    }
}

fn verdict_str(v: DiagnosticStepVerdict) -> (r: &'static str)
    ensures
        r@ == verdict_name(v),
{
    match v {
        DiagnosticStepVerdict::Failed => "failed",
        DiagnosticStepVerdict::TimedOut => "timed_out",
        DiagnosticStepVerdict::Blocked => "blocked",
        DiagnosticStepVerdict::Passed => "passed",
    }
}

fn opt_u32_value(o: Option<u32>) -> (r: JsonValue)
    ensures
        r@ == jopt_u32(o),
{
    opt_num_value(match o {
        Some(n) => Some(n as i64),
        None => None,
    })
}

/// An object value from members.
fn object(ms: Vec<(String, JsonValue)>) -> (r: JsonValue)
    ensures
        r@ == JsonV::Obj(members_view(ms@)),
{
    proof {
        crate::json::lemma_obj_view(ms);
    }
    JsonValue::Obj(ms)
}

/// A one-member list.
fn member(key: &str, v: JsonValue) -> (r: (String, JsonValue))
    ensures
        r.0@ == key@,
        r.1 == v,
{
    (String::from_str(key), v)
}

/// The payload of an action kind (see `kind_payload`).
pub fn action_kind_payload(k: &ActionKind) -> (r: Option<JsonValue>)
    ensures
        match r {
            Some(j) => kind_payload(k@) == Some(j@),
            None => kind_payload(k@) is None,
        },
{
    let mut ms: Vec<(String, JsonValue)> = Vec::new();
    match k {
        ActionKind::ListWindows | ActionKind::FocusWindow | ActionKind::Invoke => {
            return None;
        },
        ActionKind::GetTree(t) => {
            ms.push(member("raw", JsonValue::Bool(t.raw)));
            ms.push(member("max_depth", opt_u32_value(t.max_depth)));
        },
        ActionKind::GetRuntimeStatus(_) => {},
        ActionKind::ClickElement(c) => {
            ms.push(member("button", str_value(button_str(c.button))));
            ms.push(member("clicks", num_value(c.clicks as i64)));
        },
        ActionKind::SetValue(o) => {
            ms.push(member("value", JsonValue::Str(o.value.clone())));
            ms.push(member("clear_first", JsonValue::Bool(o.clear_first)));
        },
        ActionKind::SendKeys(o) => {
            ms.push(member("keys", JsonValue::Str(o.keys.clone())));
        },
        ActionKind::WaitFor(w) => {
            ms.push(member("condition", str_value(condition_str(w.condition))));
            let t = u64_to_decimal(w.stable_for_ms);
            ms.push(member("stable_for_ms", JsonValue::Num(t)));
        },
        ActionKind::CaptureRegion(c) => {
            ms.push(member("format", str_value(format_str(c.format))));
        },
        ActionKind::OcrRegion(o) => {
            ms.push(member("language_hint", opt_str_value(&o.language_hint)));
        },
        ActionKind::WriteArtifact(o) => {
            ms.push(member("kind", JsonValue::Str(o.kind.clone())));
            ms.push(member("note", opt_str_value(&o.note)));
        },
        ActionKind::CollectDiagnosticBundle(o) => {
            ms.push(member("step_id", opt_str_value(&o.step_id)));
            ms.push(member("step_label", JsonValue::Str(o.step_label.clone())));
            ms.push(member("test_verdict", str_value(verdict_str(o.test_verdict))));
            ms.push(member("note", opt_str_value(&o.note)));
            let b: Option<String> = match &o.baseline_artifact_id {
                Some(a) => Some(a.0.clone()),
                None => None,
            };
            ms.push(member("baseline_artifact_id", opt_str_value(&b)));
            ms.push(member("max_tree_depth", opt_u32_value(o.max_tree_depth)));
        },
        ActionKind::PanelProbe(p) => {
            ms.push(member("uia_max_depth", opt_u32_value(p.uia_max_depth)));
            ms.push(member("msaa_max_depth", opt_u32_value(p.msaa_max_depth)));
            ms.push(member("capture_format", str_value(format_str(p.capture_format))));
        },
    }
    let ghost mv = members_view(ms@);
    let r = object(ms);
    proof {
        assert(mv =~= kind_payload(k@)->0->Obj_0);
    }
    Some(r)
}

fn button_from(s: &str) -> (r: Option<MouseButton>)
    ensures
        r == button_of(s@),
{
    if crate::text::str_equal(s, "left") {
        Some(MouseButton::Left)
    } else if crate::text::str_equal(s, "right") {
        Some(MouseButton::Right)
    } else if crate::text::str_equal(s, "middle") {
        Some(MouseButton::Middle)
    } else {
        None
    }
}

fn condition_from(s: &str) -> (r: Option<WaitCondition>)
    ensures
        r == condition_of(s@),
{
    if crate::text::str_equal(s, "exists") {
        Some(WaitCondition::Exists)
    } else if crate::text::str_equal(s, "visible") {
        Some(WaitCondition::Visible)
    } else if crate::text::str_equal(s, "enabled") {
        Some(WaitCondition::Enabled)
    } else if crate::text::str_equal(s, "focused") {
        Some(WaitCondition::Focused)
    } else if crate::text::str_equal(s, "gone") {
        Some(WaitCondition::Gone)
    } else {
        None
    }
}

fn format_from(s: &str) -> (r: Option<CaptureFormat>)
    ensures
        r == format_of(s@),
{
    if crate::text::str_equal(s, "png") {
        Some(CaptureFormat::Png)
    } else if crate::text::str_equal(s, "jpeg") {
        Some(CaptureFormat::Jpeg)
    } else {
        None
    }
}

fn verdict_from(s: &str) -> (r: Option<DiagnosticStepVerdict>)
    ensures
        r == verdict_of(s@),
{
    if crate::text::str_equal(s, "failed") {
        Some(DiagnosticStepVerdict::Failed)
    } else if crate::text::str_equal(s, "timed_out") {
        Some(DiagnosticStepVerdict::TimedOut)
    } else if crate::text::str_equal(s, "blocked") {
        Some(DiagnosticStepVerdict::Blocked)
    } else if crate::text::str_equal(s, "passed") {
        Some(DiagnosticStepVerdict::Passed)
    } else {
        None
    }
}

fn field_opt_u32(ms: &Vec<(String, JsonValue)>, key: &str) -> (r: Result<Option<u32>, ()>)
    ensures
        match r {
            Ok(o) => opt_u32(field_of(members_view(ms@), key@)) == Some(o),
            Err(_) => opt_u32(field_of(members_view(ms@), key@)) is None,
        },
{
    match field_opt_int(ms, key, 0, 0xffff_ffff) {
        Ok(Some(n)) => Ok(Some(n as u32)),
        Ok(None) => Ok(None),
        Err(_) => Err(()),
    }
}

/// A required member naming a plain enum variant, read with `of`.
fn field_name(ms: &Vec<(String, JsonValue)>, key: &str) -> (r: Result<String, ()>)
    ensures
        match r {
            Ok(s) => req_str(field_of(members_view(ms@), key@)) == Some(s@),
            Err(_) => req_str(field_of(members_view(ms@), key@)) is None,
        },
{
    field_str(ms, key)
}

/// The options of the kind named `name` from its payload value (see `kind_from`).
pub fn action_kind_from(name: &str, j: &JsonValue) -> (r: Result<ActionKind, ()>)
    ensures
        match r {
            Ok(k) => kind_from(name@, j@) == Some(k@),
            Err(_) => kind_from(name@, j@) is None,
        },
{
    let ms = match j {
        JsonValue::Obj(ms) => ms,
        _ => {
            return Err(());
        },
    };
    proof {
        crate::json::lemma_obj_view(*ms);
    }
    let eq = |a: &str, b: &str| -> (r: bool)
        ensures
            r == (a@ == b@),
        { crate::text::str_equal(a, b) };
    if eq(name, "get_tree") {
        match (field_bool(ms, "raw"), field_opt_u32(ms, "max_depth")) {
            (Ok(r), Ok(d)) => Ok(ActionKind::GetTree(TreeRequest { raw: r, max_depth: d })),
            _ => Err(()),
        }
    } else if eq(name, "get_runtime_status") {
        Ok(ActionKind::GetRuntimeStatus(RuntimeStatusRequest {}))
    } else if eq(name, "click_element") {
        let b = match field_name(ms, "button") {
            Ok(s) => button_from(s.as_str()),
            Err(_) => None,
        };
        match (b, field_int(ms, "clicks", 0, 255)) {
            (Some(b), Ok(c)) => Ok(ActionKind::ClickElement(ClickOptions { button: b, clicks: c as u8 })),
            _ => Err(()),
        }
    } else if eq(name, "set_value") {
        match (field_str(ms, "value"), field_bool(ms, "clear_first")) {
            (Ok(v), Ok(c)) => Ok(ActionKind::SetValue(SetValueOptions { value: v, clear_first: c })),
            _ => Err(()),
        }
    } else if eq(name, "send_keys") {
        match field_str(ms, "keys") {
            Ok(k) => Ok(ActionKind::SendKeys(SendKeysOptions { keys: k })),
            Err(_) => Err(()),
        }
    } else if eq(name, "wait_for") {
        let c = match field_name(ms, "condition") {
            Ok(s) => condition_from(s.as_str()),
            Err(_) => None,
        };
        match (c, field_int(ms, "stable_for_ms", 0, 0xffff_ffff_ffff_ffff)) {
            (Some(c), Ok(t)) => Ok(ActionKind::WaitFor(WaitForOptions { condition: c, stable_for_ms: t as u64 })),
            _ => Err(()),
        }
    } else if eq(name, "capture_region") {
        let f = match field_name(ms, "format") {
            Ok(s) => format_from(s.as_str()),
            Err(_) => None,
        };
        match f {
            Some(f) => Ok(ActionKind::CaptureRegion(CaptureOptions { format: f })),
            None => Err(()),
        }
    } else if eq(name, "ocr_region") {
        match field_opt_str(ms, "language_hint") {
            Ok(h) => Ok(ActionKind::OcrRegion(OcrOptions { language_hint: h })),
            Err(_) => Err(()),
        }
    } else if eq(name, "write_artifact") {
        match (field_str(ms, "kind"), field_opt_str(ms, "note")) {
            (Ok(k), Ok(n)) => Ok(ActionKind::WriteArtifact(WriteArtifactOptions { kind: k, note: n })),
            _ => Err(()),
        }
    } else if eq(name, "collect_diagnostic_bundle") {
        let v = match field_name(ms, "test_verdict") {
            Ok(s) => verdict_from(s.as_str()),
            Err(_) => None,
        };
        match (
            field_opt_str(ms, "step_id"),
            field_str(ms, "step_label"),
            v,
            field_opt_str(ms, "note"),
            field_opt_str(ms, "baseline_artifact_id"),
            field_opt_u32(ms, "max_tree_depth"),
        ) {
            (Ok(a), Ok(b), Some(c), Ok(d), Ok(e), Ok(f)) => Ok(
                ActionKind::CollectDiagnosticBundle(
                    DiagnosticBundleOptions {
                        step_id: a,
                        step_label: b,
                        test_verdict: c,
                        note: d,
                        baseline_artifact_id: match e {
                            Some(x) => Some(crate::protocol::ArtifactId(x)),
                            None => None,
                        },
                        max_tree_depth: f,
                    },
                ),
            ),
            _ => Err(()),
        }
    } else if eq(name, "panel_probe") {
        let f = match field_name(ms, "capture_format") {
            Ok(s) => format_from(s.as_str()),
            Err(_) => None,
        };
        match (field_opt_u32(ms, "uia_max_depth"), field_opt_u32(ms, "msaa_max_depth"), f) {
            (Ok(u), Ok(m), Some(f)) => Ok(ActionKind::PanelProbe(PanelProbeOptions { uia_max_depth: u, msaa_max_depth: m, capture_format: f })),
            _ => Err(()),
        }
    } else {
        Err(())
    }
}

// ----- reading back what was written -----

/// Decimal digits read back as their value; only zero starts with `0`.
pub proof fn lemma_decimal_digits(m: nat)
    ensures
        decimal(m).len() > 0,
        all_digits(decimal(m)),
        decimal(m)[0] == '0' ==> m == 0 && decimal(m).len() == 1,
        digits_value(decimal(m)) == m,
    decreases m,
{
    if m < 10 {
        assert(decimal(m).drop_last() =~= Seq::<char>::empty());
        assert(digits_value(Seq::<char>::empty()) == 0);
        assert(digit_char(m) as nat == m + 48);
        assert(decimal(m).last() == digit_char(m));
    } else {
        lemma_decimal_digits(m / 10);
        let d = decimal(m);
        assert(d.drop_last() =~= decimal(m / 10));
        assert(d.last() == digit_char(m % 10));
        assert(digit_char(m % 10) as nat == m % 10 + 48);
        assert(digits_value(d) == (m / 10) * 10 + m % 10);
        assert forall|i: int| 0 <= i < d.len() implies is_digit(#[trigger] d[i]) by {
            if i < d.len() - 1 {
                assert(d[i] == decimal(m / 10)[i]);
            }
        }
        assert(d[0] == decimal(m / 10)[0]);
    }
}

/// An integer's text is an integer text that reads back as the integer.
pub proof fn lemma_int_text(n: int)
    ensures
        is_int_text(int_text(n)),
        int_of_text(int_text(n)) == Some(n),
{
    if n < 0 {
        let m = (-n) as nat;
        lemma_decimal_digits(m);
        let t = int_text(n);
        assert(t.drop_first() =~= decimal(m));
    } else {
        lemma_decimal_digits(n as nat);
        let t = decimal(n as nat);
        if t[0] == '-' {
            assert(is_digit(t[0]));
        }
    }
}

/// A number value fits any nesting budget and reads back in any range
/// that holds it.
pub proof fn lemma_jnum(n: int, lo: int, hi: int, d: nat)
    requires
        lo <= n <= hi,
    ensures
        fits(jnum(n), d),
        int_in(jnum(n), lo, hi) == Some(n),
{
    lemma_int_text(n);
}

/// The members hold key `k` once, at `i`.
pub proof fn lemma_key_once(ms: Seq<(Seq<char>, JsonV)>, k: Seq<char>, i: int)
    requires
        0 <= i < ms.len(),
        ms[i].0 == k,
        forall|j: int| 0 <= j < ms.len() && j != i ==> #[trigger] ms[j].0 != k,
    ensures
        field_of(ms, k) == FieldV::Present(ms[i].1),
{
    lemma_key_count_once(ms, k, i);
}

/// Counting a key held once, at `i`.
proof fn lemma_key_count_once(ms: Seq<(Seq<char>, JsonV)>, k: Seq<char>, i: int)
    requires
        0 <= i < ms.len(),
        ms[i].0 == k,
        forall|j: int| 0 <= j < ms.len() && j != i ==> #[trigger] ms[j].0 != k,
    ensures
        key_count(ms, k) == 1,
        last_value(ms, k) == ms[i].1,
    decreases ms.len(),
{
    let dl = ms.drop_last();
    if i == ms.len() - 1 {
        assert forall|j: int| 0 <= j < dl.len() implies #[trigger] dl[j].0 != k by {
            assert(dl[j] == ms[j]);
        }
        lemma_key_count_none(dl, k);
    } else {
        assert forall|j: int| 0 <= j < dl.len() && j != i implies #[trigger] dl[j].0 != k by {
            assert(dl[j] == ms[j]);
        }
        lemma_key_count_once(dl, k, i);
    }
}

/// A key no member holds.
pub proof fn lemma_key_count_none(ms: Seq<(Seq<char>, JsonV)>, k: Seq<char>)
    requires
        forall|j: int| 0 <= j < ms.len() ==> #[trigger] ms[j].0 != k,
    ensures
        key_count(ms, k) == 0,
        field_of(ms, k) == FieldV::Absent,
    decreases ms.len(),
{
    if ms.len() > 0 {
        let dl = ms.drop_last();
        assert forall|j: int| 0 <= j < dl.len() implies #[trigger] dl[j].0 != k by {
            assert(dl[j] == ms[j]);
        }
        lemma_key_count_none(dl, k);
    }
}

/// Member values that each fit `d` fit together.
pub proof fn lemma_members_fit_all(ms: Seq<(Seq<char>, JsonV)>, d: nat, i: int)
    requires
        0 <= i,
        forall|j: int| i <= j < ms.len() ==> fits(#[trigger] ms[j].1, d),
    ensures
        members_fit(ms, d, i),
    decreases ms.len() - i,
{
    if i < ms.len() {
        lemma_members_fit_all(ms, d, i + 1);
    }
}

/// Elements that each fit `d` fit together.
pub proof fn lemma_elems_fit_all(vs: Seq<JsonV>, d: nat, i: int)
    requires
        0 <= i,
        forall|j: int| i <= j < vs.len() ==> fits(#[trigger] vs[j], d),
    ensures
        elems_fit(vs, d, i),
    decreases vs.len() - i,
{
    if i < vs.len() {
        lemma_elems_fit_all(vs, d, i + 1);
    }
}

/// An optional string reads back.
pub proof fn lemma_jopt_str(o: Option<Seq<char>>, d: nat)
    ensures
        fits(jopt_str(o), d),
        opt_str(FieldV::Present(jopt_str(o))) == Some(o),
{
}

/// An optional `u32` reads back.
pub proof fn lemma_jopt_u32(o: Option<u32>, d: nat)
    ensures
        fits(jopt_u32(o), d),
        opt_u32(FieldV::Present(jopt_u32(o))) == Some(o),
        opt_int(FieldV::Present(jopt_u32(o)), 0, 0xffff_ffff) == Some(
            match o {
                Some(n) => Some(n as int),
                None => None::<int>,
            },
        ),
{
    if let Some(n) = o {
        lemma_jnum(n as int, 0, 0xffff_ffff, d);
    }
}

/// A rectangle's JSON form reads back.
pub proof fn lemma_rect_json(r: Rect, d: nat)
    requires
        d > 0,
    ensures
        fits(rect_json(r), d),
        rect_of(rect_json(r)) == Some(r),
{
    reveal_strlit("left");
    reveal_strlit("top");
    reveal_strlit("width");
    reveal_strlit("height");
    assert("left"@.len() == 4 && "top"@.len() == 3 && "width"@.len() == 5 && "height"@.len() == 6);
    let ms = rect_json(r)->Obj_0;
    lemma_jnum(r.left as int, -0x8000_0000, 0x7fff_ffff, (d - 1) as nat);
    lemma_jnum(r.top as int, -0x8000_0000, 0x7fff_ffff, (d - 1) as nat);
    lemma_jnum(r.width as int, -0x8000_0000, 0x7fff_ffff, (d - 1) as nat);
    lemma_jnum(r.height as int, -0x8000_0000, 0x7fff_ffff, (d - 1) as nat);
    lemma_members_fit_all(ms, (d - 1) as nat, 0);
    lemma_key_once(ms, "left"@, 0);
    lemma_key_once(ms, "top"@, 1);
    lemma_key_once(ms, "width"@, 2);
    lemma_key_once(ms, "height"@, 3);
}

/// A locator segment's JSON form reads back.
pub proof fn lemma_segment_json(g: SegmentV, d: nat)
    requires
        d > 0,
    ensures
        fits(segment_json(g), d),
        segment_of(segment_json(g)) == Some(g),
{
    reveal_strlit("control_type");
    reveal_strlit("class_name");
    reveal_strlit("automation_id");
    reveal_strlit("name");
    reveal_strlit("sibling_ordinal");
    assert("control_type"@.len() == 12 && "class_name"@.len() == 10 && "automation_id"@.len() == 13 && "name"@.len()
        == 4 && "sibling_ordinal"@.len() == 15);
    let e = (d - 1) as nat;
    let ms = segment_json(g)->Obj_0;
    lemma_jopt_str(g.class_name, e);
    lemma_jopt_str(g.automation_id, e);
    lemma_jopt_str(g.name, e);
    lemma_jopt_u32(g.sibling_ordinal, e);
    lemma_members_fit_all(ms, e, 0);
    lemma_key_once(ms, "control_type"@, 0);
    lemma_key_once(ms, "class_name"@, 1);
    lemma_key_once(ms, "automation_id"@, 2);
    lemma_key_once(ms, "name"@, 3);
    lemma_key_once(ms, "sibling_ordinal"@, 4);
}

/// Segments' JSON forms read back, in order.
pub proof fn lemma_segments_json(path: Seq<SegmentV>, d: nat)
    requires
        d > 0,
    ensures
        segments_of(path.map_values(|g: SegmentV| segment_json(g))) == Some(path),
        forall|j: int| 0 <= j < path.len() ==> #[trigger] fits(segment_json(path[j]), d),
    decreases path.len(),
{
    let v = path.map_values(|g: SegmentV| segment_json(g));
    if path.len() > 0 {
        lemma_segments_json(path.drop_last(), d);
        assert(v.drop_last() =~= path.drop_last().map_values(|g: SegmentV| segment_json(g)));
        lemma_segment_json(path.last(), d);
        assert(path.drop_last().push(path.last()) =~= path);
        assert forall|j: int| 0 <= j < path.len() implies #[trigger] fits(segment_json(path[j]), d) by {
            lemma_segment_json(path[j], d);
        }
    } else {
        assert(v.len() == 0);
        assert(path =~= Seq::<SegmentV>::empty());
    }
}

/// A locator's JSON form reads back.
pub proof fn lemma_locator_json(l: LocatorV, d: nat)
    requires
        d >= 3,
    ensures
        fits(locator_json(l), d),
        locator_of(locator_json(l)) == Some(l),
{
    reveal_strlit("window_fingerprint");
    reveal_strlit("path");
    assert("window_fingerprint"@.len() == 18 && "path"@.len() == 4);
    let ms = locator_json(l)->Obj_0;
    let v = l.path.map_values(|g: SegmentV| segment_json(g));
    lemma_segments_json(l.path, (d - 2) as nat);
    assert forall|j: int| 0 <= j < v.len() implies fits(#[trigger] v[j], (d - 2) as nat) by {
        assert(v[j] == segment_json(l.path[j]));
    }
    lemma_elems_fit_all(v, (d - 2) as nat, 0);
    lemma_members_fit_all(ms, (d - 1) as nat, 0);
    lemma_key_once(ms, "window_fingerprint"@, 0);
    lemma_key_once(ms, "path"@, 1);
}

/// The members of a window target read back as its locator.
pub proof fn lemma_window_locator_members(w: WindowLocatorV, d: nat)
    ensures
        window_locator_of(seq![("kind"@, JsonV::Str("window"@))] + window_locator_members(w)) == Some(w),
        members_fit(seq![("kind"@, JsonV::Str("window"@))] + window_locator_members(w), d, 0),
{
    reveal_strlit("kind");
    reveal_strlit("window_id");
    reveal_strlit("title");
    reveal_strlit("pid");
    reveal_strlit("process_name");
    reveal_strlit("class_name");
    assert("kind"@.len() == 4 && "window_id"@.len() == 9 && "title"@.len() == 5 && "pid"@.len() == 3
        && "process_name"@.len() == 12 && "class_name"@.len() == 10);
    let ms = seq![("kind"@, JsonV::Str("window"@))] + window_locator_members(w);
    lemma_jopt_str(w.window_id, d);
    lemma_jopt_str(w.title, d);
    lemma_jopt_u32(w.pid, d);
    lemma_jopt_str(w.process_name, d);
    lemma_jopt_str(w.class_name, d);
    assert(ms[3].1 == jopt_u32(w.pid));
    lemma_members_fit_all(ms, d, 0);
    lemma_key_once(ms, "window_id"@, 1);
    lemma_key_once(ms, "title"@, 2);
    lemma_key_once(ms, "pid"@, 3);
    lemma_key_once(ms, "process_name"@, 4);
    lemma_key_once(ms, "class_name"@, 5);
}

/// The names of target variants differ.
pub proof fn lemma_target_names()
    ensures
        "desktop"@ != "window"@,
        "desktop"@ != "element"@,
        "desktop"@ != "region"@,
        "window"@ != "element"@,
        "window"@ != "region"@,
        "element"@ != "region"@,
{
    reveal_strlit("desktop");
    reveal_strlit("window");
    reveal_strlit("element");
    reveal_strlit("region");
    assert("desktop"@.len() == 7 && "window"@.len() == 6 && "element"@.len() == 7 && "region"@.len() == 6);
    assert("desktop"@[0] == 'd' && "element"@[0] == 'e');
    assert("window"@[0] == 'w' && "region"@[0] == 'r');
}

/// An action target's JSON form reads back.
pub proof fn lemma_target_json(t: TargetV, d: nat)
    requires
        d >= 4,
    ensures
        fits(target_json(t), d),
        target_of(target_json(t)) == Some(t),
{
    lemma_target_names();
    reveal_strlit("kind");
    let e = (d - 1) as nat;
    let ms = target_json(t)->Obj_0;
    match t {
        TargetV::Desktop => {
            lemma_members_fit_all(ms, e, 0);
            lemma_key_once(ms, "kind"@, 0);
        },
        TargetV::Window(w) => {
            lemma_window_locator_members(w, e);
            reveal_strlit("window_id");
            reveal_strlit("title");
            reveal_strlit("pid");
            reveal_strlit("process_name");
            reveal_strlit("class_name");
            assert("kind"@.len() == 4 && "window_id"@.len() == 9 && "title"@.len() == 5 && "pid"@.len() == 3
                && "process_name"@.len() == 12 && "class_name"@.len() == 10);
            lemma_key_once(ms, "kind"@, 0);
        },
        TargetV::Element { element_id, locator } => {
            reveal_strlit("element_id");
            reveal_strlit("locator");
            assert("kind"@.len() == 4 && "element_id"@.len() == 10 && "locator"@.len() == 7);
            lemma_jopt_str(element_id, e);
            if let Some(l) = locator {
                lemma_locator_json(l, e);
            }
            lemma_members_fit_all(ms, e, 0);
            lemma_key_once(ms, "kind"@, 0);
            lemma_key_once(ms, "element_id"@, 1);
            lemma_key_once(ms, "locator"@, 2);
        },
        TargetV::Region { window_id, bounds } => {
            reveal_strlit("window_id");
            reveal_strlit("bounds");
            assert("kind"@.len() == 4 && "window_id"@.len() == 9 && "bounds"@.len() == 6);
            lemma_jopt_str(window_id, e);
            lemma_rect_json(bounds, e);
            lemma_members_fit_all(ms, e, 0);
            lemma_key_once(ms, "kind"@, 0);
            lemma_key_once(ms, "window_id"@, 1);
            lemma_key_once(ms, "bounds"@, 2);
        },
    }
}

/// A mouse button's name reads back.
pub proof fn lemma_button_name(b: MouseButton)
    ensures
        button_of(button_name(b)) == Some(b),
{
    reveal_strlit("left");
    reveal_strlit("right");
    reveal_strlit("middle");
    assert("left"@.len() == 4 && "right"@.len() == 5 && "middle"@.len() == 6);
}

/// A wait condition's name reads back.
pub proof fn lemma_condition_name(c: WaitCondition)
    ensures
        condition_of(condition_name(c)) == Some(c),
{
    reveal_strlit("exists");
    reveal_strlit("visible");
    reveal_strlit("enabled");
    reveal_strlit("focused");
    reveal_strlit("gone");
    assert("exists"@.len() == 6 && "visible"@.len() == 7 && "enabled"@.len() == 7 && "focused"@.len() == 7
        && "gone"@.len() == 4);
    assert("visible"@[0] == 'v' && "enabled"@[0] == 'e' && "focused"@[0] == 'f');
}

/// A capture format's name reads back.
pub proof fn lemma_format_name(f: CaptureFormat)
    ensures
        format_of(format_name(f)) == Some(f),
{
    reveal_strlit("png");
    reveal_strlit("jpeg");
    assert("png"@.len() == 3 && "jpeg"@.len() == 4);
}

/// A step verdict's name reads back.
pub proof fn lemma_verdict_name(v: DiagnosticStepVerdict)
    ensures
        verdict_of(verdict_name(v)) == Some(v),
{
    reveal_strlit("failed");
    reveal_strlit("timed_out");
    reveal_strlit("blocked");
    reveal_strlit("passed");
    assert("failed"@.len() == 6 && "timed_out"@.len() == 9 && "blocked"@.len() == 7 && "passed"@.len() == 6);
    assert("failed"@[0] == 'f' && "passed"@[0] == 'p');
}

/// The lengths and telling characters of the kinds' wire names, from which
/// any two of them differ.
pub proof fn lemma_kind_names()
    ensures
        "list_windows"@.len() == 12 && "list_windows"@[0] == 'l',
        "get_tree"@.len() == 8 && "get_tree"@[0] == 'g',
        "get_runtime_status"@.len() == 18,
        "focus_window"@.len() == 12 && "focus_window"@[0] == 'f',
        "click_element"@.len() == 13,
        "set_value"@.len() == 9 && "set_value"@[2] == 't',
        "invoke"@.len() == 6,
        "send_keys"@.len() == 9 && "send_keys"@[2] == 'n',
        "wait_for"@.len() == 8 && "wait_for"@[0] == 'w',
        "capture_region"@.len() == 14 && "capture_region"@[0] == 'c',
        "ocr_region"@.len() == 10,
        "write_artifact"@.len() == 14 && "write_artifact"@[0] == 'w',
        "collect_diagnostic_bundle"@.len() == 25,
        "panel_probe"@.len() == 11,
{
    reveal_strlit("list_windows");
    reveal_strlit("get_tree");
    reveal_strlit("get_runtime_status");
    reveal_strlit("focus_window");
    reveal_strlit("click_element");
    reveal_strlit("set_value");
    reveal_strlit("invoke");
    reveal_strlit("send_keys");
    reveal_strlit("wait_for");
    reveal_strlit("capture_region");
    reveal_strlit("ocr_region");
    reveal_strlit("write_artifact");
    reveal_strlit("collect_diagnostic_bundle");
    reveal_strlit("panel_probe");
}

/// A kind with options: its payload fits and reads back under its name.
pub proof fn lemma_kind_payload(k: KindV, d: nat)
    requires
        d >= 1,
        kind_payload(k) is Some,
    ensures
        fits(kind_payload(k)->0, d),
        kind_from(kind_name(k), kind_payload(k)->0) == Some(k),
{
    match k {
        KindV::GetTree(..) => lemma_payload_tree(k, d),
        KindV::GetRuntimeStatus => lemma_payload_runtime_status(k, d),
        KindV::ClickElement(..) => lemma_payload_click(k, d),
        KindV::SetValue { .. } => lemma_payload_set_value(k, d),
        KindV::SendKeys { .. } => lemma_payload_send_keys(k, d),
        KindV::WaitFor(..) => lemma_payload_wait_for(k, d),
        KindV::CaptureRegion(..) => lemma_payload_capture(k, d),
        KindV::OcrRegion { .. } => lemma_payload_ocr(k, d),
        KindV::WriteArtifact { .. } => lemma_payload_write_artifact(k, d),
        KindV::CollectDiagnosticBundle { .. } => lemma_payload_diagnostic_bundle(k, d),
        KindV::PanelProbe(..) => lemma_payload_panel_probe(k, d),
        _ => {},
    }
}

/// The payload of this kind reads back (see `lemma_kind_payload`).
proof fn lemma_payload_tree(k: KindV, d: nat)
    requires
        d >= 1,
        k is GetTree,
    ensures
        fits(kind_payload(k)->0, d),
        kind_from(kind_name(k), kind_payload(k)->0) == Some(k),
{
    lemma_kind_names();
    let e = (d - 1) as nat;
    let ms = kind_payload(k)->0->Obj_0;
    match k {
        KindV::GetTree(t) => {
            reveal_strlit("raw");
            reveal_strlit("max_depth");
            assert("raw"@.len() == 3 && "max_depth"@.len() == 9);
            lemma_jopt_u32(t.max_depth, e);
            lemma_members_fit_all(ms, e, 0);
            lemma_key_once(ms, "raw"@, 0);
            lemma_key_once(ms, "max_depth"@, 1);
        },
        _ => {},
    }
}

/// The payload of this kind reads back (see `lemma_kind_payload`).
proof fn lemma_payload_runtime_status(k: KindV, d: nat)
    requires
        d >= 1,
        k is GetRuntimeStatus,
    ensures
        fits(kind_payload(k)->0, d),
        kind_from(kind_name(k), kind_payload(k)->0) == Some(k),
{
    lemma_kind_names();
    let e = (d - 1) as nat;
    let ms = kind_payload(k)->0->Obj_0;
    match k {
        KindV::GetRuntimeStatus => {
            lemma_members_fit_all(ms, e, 0);
        },
        _ => {},
    }
}

/// The payload of this kind reads back (see `lemma_kind_payload`).
proof fn lemma_payload_click(k: KindV, d: nat)
    requires
        d >= 1,
        k is ClickElement,
    ensures
        fits(kind_payload(k)->0, d),
        kind_from(kind_name(k), kind_payload(k)->0) == Some(k),
{
    lemma_kind_names();
    let e = (d - 1) as nat;
    let ms = kind_payload(k)->0->Obj_0;
    match k {
        KindV::ClickElement(c) => {
            reveal_strlit("button");
            reveal_strlit("clicks");
            assert("button"@.len() == 6 && "clicks"@.len() == 6 && "button"@[5] == 'n' && "clicks"@[5] == 's');
            lemma_button_name(c.button);
            lemma_jnum(c.clicks as int, 0, 255, e);
            lemma_members_fit_all(ms, e, 0);
            lemma_key_once(ms, "button"@, 0);
            lemma_key_once(ms, "clicks"@, 1);
        },
        _ => {},
    }
}

/// The payload of this kind reads back (see `lemma_kind_payload`).
proof fn lemma_payload_set_value(k: KindV, d: nat)
    requires
        d >= 1,
        k is SetValue,
    ensures
        fits(kind_payload(k)->0, d),
        kind_from(kind_name(k), kind_payload(k)->0) == Some(k),
{
    lemma_kind_names();
    let e = (d - 1) as nat;
    let ms = kind_payload(k)->0->Obj_0;
    match k {
        KindV::SetValue { value, clear_first } => {
            reveal_strlit("value");
            reveal_strlit("clear_first");
            assert("value"@.len() == 5 && "clear_first"@.len() == 11);
            lemma_members_fit_all(ms, e, 0);
            lemma_key_once(ms, "value"@, 0);
            lemma_key_once(ms, "clear_first"@, 1);
        },
        _ => {},
    }
}

/// The payload of this kind reads back (see `lemma_kind_payload`).
proof fn lemma_payload_send_keys(k: KindV, d: nat)
    requires
        d >= 1,
        k is SendKeys,
    ensures
        fits(kind_payload(k)->0, d),
        kind_from(kind_name(k), kind_payload(k)->0) == Some(k),
{
    lemma_kind_names();
    let e = (d - 1) as nat;
    let ms = kind_payload(k)->0->Obj_0;
    match k {
        KindV::SendKeys { keys } => {
            lemma_members_fit_all(ms, e, 0);
            lemma_key_once(ms, "keys"@, 0);
        },
        _ => {},
    }
}

/// The payload of this kind reads back (see `lemma_kind_payload`).
proof fn lemma_payload_wait_for(k: KindV, d: nat)
    requires
        d >= 1,
        k is WaitFor,
    ensures
        fits(kind_payload(k)->0, d),
        kind_from(kind_name(k), kind_payload(k)->0) == Some(k),
{
    lemma_kind_names();
    let e = (d - 1) as nat;
    let ms = kind_payload(k)->0->Obj_0;
    match k {
        KindV::WaitFor(w) => {
            reveal_strlit("condition");
            reveal_strlit("stable_for_ms");
            assert("condition"@.len() == 9 && "stable_for_ms"@.len() == 13);
            lemma_condition_name(w.condition);
            lemma_jnum(w.stable_for_ms as int, 0, 0xffff_ffff_ffff_ffff, e);
            lemma_members_fit_all(ms, e, 0);
            lemma_key_once(ms, "condition"@, 0);
            lemma_key_once(ms, "stable_for_ms"@, 1);
        },
        _ => {},
    }
}

/// The payload of this kind reads back (see `lemma_kind_payload`).
proof fn lemma_payload_capture(k: KindV, d: nat)
    requires
        d >= 1,
        k is CaptureRegion,
    ensures
        fits(kind_payload(k)->0, d),
        kind_from(kind_name(k), kind_payload(k)->0) == Some(k),
{
    lemma_kind_names();
    let e = (d - 1) as nat;
    let ms = kind_payload(k)->0->Obj_0;
    match k {
        KindV::CaptureRegion(c) => {
            lemma_format_name(c.format);
            lemma_members_fit_all(ms, e, 0);
            lemma_key_once(ms, "format"@, 0);
        },
        _ => {},
    }
}

/// The payload of this kind reads back (see `lemma_kind_payload`).
proof fn lemma_payload_ocr(k: KindV, d: nat)
    requires
        d >= 1,
        k is OcrRegion,
    ensures
        fits(kind_payload(k)->0, d),
        kind_from(kind_name(k), kind_payload(k)->0) == Some(k),
{
    lemma_kind_names();
    let e = (d - 1) as nat;
    let ms = kind_payload(k)->0->Obj_0;
    match k {
        KindV::OcrRegion { language_hint } => {
            lemma_jopt_str(language_hint, e);
            lemma_members_fit_all(ms, e, 0);
            lemma_key_once(ms, "language_hint"@, 0);
        },
        _ => {},
    }
}

/// The payload of this kind reads back (see `lemma_kind_payload`).
proof fn lemma_payload_write_artifact(k: KindV, d: nat)
    requires
        d >= 1,
        k is WriteArtifact,
    ensures
        fits(kind_payload(k)->0, d),
        kind_from(kind_name(k), kind_payload(k)->0) == Some(k),
{
    lemma_kind_names();
    let e = (d - 1) as nat;
    let ms = kind_payload(k)->0->Obj_0;
    match k {
        KindV::WriteArtifact { kind, note } => {
            reveal_strlit("kind");
            reveal_strlit("note");
            assert("kind"@.len() == 4 && "note"@.len() == 4 && "kind"@[0] == 'k' && "note"@[0] == 'n');
            lemma_jopt_str(note, e);
            lemma_members_fit_all(ms, e, 0);
            lemma_key_once(ms, "kind"@, 0);
            lemma_key_once(ms, "note"@, 1);
        },
        _ => {},
    }
}

/// The payload of this kind reads back (see `lemma_kind_payload`).
proof fn lemma_payload_diagnostic_bundle(k: KindV, d: nat)
    requires
        d >= 1,
        k is CollectDiagnosticBundle,
    ensures
        fits(kind_payload(k)->0, d),
        kind_from(kind_name(k), kind_payload(k)->0) == Some(k),
{
    lemma_kind_names();
    let e = (d - 1) as nat;
    let ms = kind_payload(k)->0->Obj_0;
    match k {
        KindV::CollectDiagnosticBundle {
            step_id,
            step_label,
            test_verdict,
            note,
            baseline_artifact_id,
            max_tree_depth,
        } => {
            reveal_strlit("step_id");
            reveal_strlit("step_label");
            reveal_strlit("test_verdict");
            reveal_strlit("note");
            reveal_strlit("baseline_artifact_id");
            reveal_strlit("max_tree_depth");
            assert("step_id"@.len() == 7 && "step_label"@.len() == 10 && "test_verdict"@.len() == 12 && "note"@.len()
            == 4 && "baseline_artifact_id"@.len() == 20 && "max_tree_depth"@.len() == 14);
            lemma_jopt_str(step_id, e);
            lemma_verdict_name(test_verdict);
            lemma_jopt_str(note, e);
            lemma_jopt_str(baseline_artifact_id, e);
            lemma_jopt_u32(max_tree_depth, e);
            lemma_members_fit_all(ms, e, 0);
            lemma_key_once(ms, "step_id"@, 0);
            lemma_key_once(ms, "step_label"@, 1);
            lemma_key_once(ms, "test_verdict"@, 2);
            lemma_key_once(ms, "note"@, 3);
            lemma_key_once(ms, "baseline_artifact_id"@, 4);
            lemma_key_once(ms, "max_tree_depth"@, 5);
        },
        _ => {},
    }
}

/// The payload of this kind reads back (see `lemma_kind_payload`).
proof fn lemma_payload_panel_probe(k: KindV, d: nat)
    requires
        d >= 1,
        k is PanelProbe,
    ensures
        fits(kind_payload(k)->0, d),
        kind_from(kind_name(k), kind_payload(k)->0) == Some(k),
{
    lemma_kind_names();
    let e = (d - 1) as nat;
    let ms = kind_payload(k)->0->Obj_0;
    match k {
        KindV::PanelProbe(p) => {
            reveal_strlit("uia_max_depth");
            reveal_strlit("msaa_max_depth");
            reveal_strlit("capture_format");
            assert("uia_max_depth"@.len() == 13 && "msaa_max_depth"@.len() == 14 && "capture_format"@.len() == 14
            && "msaa_max_depth"@[0] == 'm' && "capture_format"@[0] == 'c');
            lemma_jopt_u32(p.uia_max_depth, e);
            lemma_jopt_u32(p.msaa_max_depth, e);
            lemma_format_name(p.capture_format);
            lemma_members_fit_all(ms, e, 0);
            lemma_key_once(ms, "uia_max_depth"@, 0);
            lemma_key_once(ms, "msaa_max_depth"@, 1);
            lemma_key_once(ms, "capture_format"@, 2);
        },
        _ => {},
    }
}

} // verus!
