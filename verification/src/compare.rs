//! Semantic comparison of windows across snapshots: text normalized for
//! matching, a per-window summary, the score by which windows of two
//! snapshots are paired, and the fields in which paired windows differ.
use vstd::prelude::*;

use crate::decimal::{decimal, u64_to_decimal};
use crate::diffspec::prop_index;
use crate::floatbits::{narrow_f64, narrow_f64_bits};
use crate::model::{lemma_children_view, nodes_view, properties_view, strings_view, NodeV, PropertyValueV, SnapshotV, WindowV};
use crate::protocol::{BackendKind, ElementNode, ElementStates, PropertyValue, SessionProfile, UiSnapshot, WindowLocator, WindowState};
use crate::text::opt_string_equal;
use vstd::utf8::encode_utf8;
use crate::text::{is_white_space, opt_view, seq_less, str_equal, str_less, string_equal, char_is_white_space};

verus! {

/// The lowercase form of a text, as `str::to_lowercase` gives it.
pub uninterp spec fn lowercase(s: Seq<char>) -> Seq<char>;

/// Calls `str::to_lowercase`; Unicode's case mapping is named, not restated.
/// As std documents, every character maps to one or more characters, so a
/// non-empty text stays non-empty.
#[verifier::external_body]
pub(crate) fn to_lowercase(s: &str) -> (r: String)
    ensures
        r@ == lowercase(s@),
        s@.len() > 0 ==> r@.len() > 0,
{
    s.to_lowercase()
}

/// The words of `s` joined by single spaces. `started` tells whether a word
/// was already emitted, `pending` whether white space followed it.
pub open spec fn collapse(s: Seq<char>, started: bool, pending: bool) -> Seq<char>
    decreases s.len(),
{
    if s.len() == 0 {
        Seq::empty()
    } else if is_white_space(s[0]) {
        collapse(s.drop_first(), started, started)
    } else {
        (if pending { seq![' '] } else { Seq::<char>::empty() }) + seq![s[0]] + collapse(s.drop_first(), true, false)
    }
}

/// Text as it is compared: words separated by single spaces, lowercase.
pub open spec fn normalized(s: Seq<char>) -> Seq<char> {
    lowercase(collapse(s, false, false))
}

/// The words of `s` joined by single spaces.
fn collapse_white_space(s: &str) -> (r: String)
    ensures
        r@ == collapse(s@, false, false),
{
    let n = s.unicode_len();
    let mut out = String::new();
    let mut started = false;
    let mut pending = false;
    let mut i: usize = 0;
    assert(s@.skip(0) =~= s@);
    while i < n
        invariant
            n == s@.len(),
            i <= n,
            out@ + collapse(s@.skip(i as int), started, pending) == collapse(s@, false, false),
        decreases n - i,
    {
        let c = s.get_char(i);
        let ghost rest = s@.skip(i as int);
        assert(rest.drop_first() =~= s@.skip(i + 1));
        assert(rest[0] == c);
        if char_is_white_space(c) {
            pending = started;
        } else {
            let ghost before = out@;
            if pending {
                out.push(' ');
            }
            out.push(c);
            assert(out@ == before + ((if pending { seq![' '] } else { Seq::<char>::empty() }) + seq![c]));
            assert(out@ + collapse(s@.skip(i + 1), true, false) =~= before + collapse(rest, started, pending));
            started = true;
            pending = false;
        }
        i = i + 1;
    }
    assert(s@.skip(n as int) =~= Seq::<char>::empty());
    assert(out@ + Seq::<char>::empty() =~= out@);
    out
}

/// Text as it is compared: words separated by single spaces, lowercase.
pub fn normalize_text(value: &str) -> (r: String)
    ensures
        r@ == normalized(value@),
{
    let collapsed = collapse_white_space(value);
    to_lowercase(collapsed.as_str())
}

/// Normalized text, or nothing for an absent one.
pub open spec fn normalized_opt(v: Option<Seq<char>>) -> Seq<char> {
    match v {
        Some(t) => normalized(t),
        None => Seq::empty(),
    }
}

/// Normalized text of an optional value, empty when absent.
pub fn normalize_optional_text(value: Option<&str>) -> (r: String)
    ensures
        r@ == normalized_opt(match value {
            Some(t) => Some(t@),
            None => None,
        }),
{
    match value {
        Some(t) => normalize_text(t),
        None => String::new(),
    }
}

/// Both present, and equal and not empty once normalized.
pub open spec fn same_normalized(a: Option<Seq<char>>, b: Option<Seq<char>>) -> bool {
    match (a, b) {
        (Some(x), Some(y)) => normalized(x).len() > 0 && normalized(x) == normalized(y),
        _ => false,
    }
}

/// Whether two optional texts are present and the same once normalized.
pub fn normalized_optional_eq(left: Option<&str>, right: Option<&str>) -> (r: bool)
    ensures
        r == same_normalized(
            match left {
                Some(t) => Some(t@),
                None => None,
            },
            match right {
                Some(t) => Some(t@),
                None => None,
            },
        ),
{
    match (left, right) {
        (Some(l), Some(r)) => {
            let a = normalize_text(l);
            let b = normalize_text(r);
            a.unicode_len() > 0 && string_equal(&a, &b)
        },
        _ => false,
    }
}

/// The text of an optional string, as a slice.
fn opt_str(v: &Option<String>) -> (r: Option<&str>)
    ensures
        match r {
            Some(t) => opt_view(*v) == Some(t@),
            None => v is None,
        },
{
    match v {
        Some(s) => Some(s.as_str()),
        None => None,
    }
}

/// What two windows are compared by.
#[derive(Clone, Debug, PartialEq, Eq)]
pub struct DiagnosticWindowSummary {
    pub title: String,
    pub process_name: Option<String>,
    pub backend: BackendKind,
    /// `f32::to_bits` of the window's confidence.
    pub confidence_bits: u32,
    pub width: i32,
    pub height: i32,
    pub onec_window_profile: Option<String>,
    pub onec_fallback_reason: Option<String>,
    pub root_control_type: String,
    pub root_class_name: Option<String>,
    pub root_name: Option<String>,
    pub root_automation_id: Option<String>,
    pub tree_signature: String,
    pub tree_digest: String,
    pub node_count: usize,
    pub fallback_surface_count: usize,
}

/// View of a window summary.
pub struct SummaryV {
    pub title: Seq<char>,
    pub process_name: Option<Seq<char>>,
    pub backend: BackendKind,
    pub confidence_bits: u32,
    pub width: i32,
    pub height: i32,
    pub onec_window_profile: Option<Seq<char>>,
    pub onec_fallback_reason: Option<Seq<char>>,
    pub root_control_type: Seq<char>,
    pub root_class_name: Option<Seq<char>>,
    pub root_name: Option<Seq<char>>,
    pub root_automation_id: Option<Seq<char>>,
    pub tree_signature: Seq<char>,
    pub tree_digest: Seq<char>,
    pub node_count: usize,
    pub fallback_surface_count: usize,
}

impl View for DiagnosticWindowSummary {
    type V = SummaryV;

    open spec fn view(&self) -> SummaryV {
        SummaryV {
            title: self.title@,
            process_name: opt_view(self.process_name),
            backend: self.backend,
            confidence_bits: self.confidence_bits,
            width: self.width,
            height: self.height,
            onec_window_profile: opt_view(self.onec_window_profile),
            onec_fallback_reason: opt_view(self.onec_fallback_reason),
            root_control_type: self.root_control_type@,
            root_class_name: opt_view(self.root_class_name),
            root_name: opt_view(self.root_name),
            root_automation_id: opt_view(self.root_automation_id),
            tree_signature: self.tree_signature@,
            tree_digest: self.tree_digest@,
            node_count: self.node_count,
            fallback_surface_count: self.fallback_surface_count,
        }
    }
}

/// `name` when `differs`, else nothing.
#[verifier::opaque]
pub open spec fn field_if(differs: bool, name: Seq<char>) -> Seq<Seq<char>> {
    if differs { seq![name] } else { Seq::empty() }
}

/// The names of the fields in which two summaries differ, in a fixed order.
pub open spec fn changed_field_names(a: SummaryV, b: SummaryV) -> Seq<Seq<char>> {
    field_if(a.title != b.title, "title"@)
        + field_if(a.process_name != b.process_name, "process_name"@)
        + field_if(a.backend != b.backend, "backend"@)
        + field_if(a.confidence_bits != b.confidence_bits, "confidence"@)
        + field_if(a.width != b.width || a.height != b.height, "window_size"@)
        + field_if(a.onec_window_profile != b.onec_window_profile, "onec_window_profile"@)
        + field_if(a.onec_fallback_reason != b.onec_fallback_reason, "onec_fallback_reason"@)
        + field_if(a.root_control_type != b.root_control_type, "root_control_type"@)
        + field_if(a.root_class_name != b.root_class_name, "root_class_name"@)
        + field_if(a.root_name != b.root_name, "root_name"@)
        + field_if(a.root_automation_id != b.root_automation_id, "root_automation_id"@)
        + field_if(a.tree_signature != b.tree_signature, "tree_state"@)
}

/// One more optional name appended to a list whose membership is known.
proof fn lemma_field_step(c: Seq<Seq<char>>, differs: bool, name: Seq<char>, x: Seq<char>, before: bool)
    requires
        c.contains(x) == before,
    ensures
        (c + field_if(differs, name)).contains(x) == (before || (differs && x === name)),
{
    reveal(field_if);
    crate::text::lemma_optional_contains(differs, name, x);
    crate::text::lemma_concat_contains(c, field_if(differs, name), x);
}

/// Which names the changed-field list holds, name by name.
proof fn lemma_changed_names_contain(a: SummaryV, b: SummaryV, x: Seq<char>)
    ensures
        changed_field_names(a, b).contains(x) == (
            ((a.title != b.title) && x === "title"@)
            || ((a.process_name != b.process_name) && x === "process_name"@)
            || ((a.backend != b.backend) && x === "backend"@)
            || ((a.confidence_bits != b.confidence_bits) && x === "confidence"@)
            || ((a.width != b.width || a.height != b.height) && x === "window_size"@)
            || ((a.onec_window_profile != b.onec_window_profile) && x === "onec_window_profile"@)
            || ((a.onec_fallback_reason != b.onec_fallback_reason) && x === "onec_fallback_reason"@)
            || ((a.root_control_type != b.root_control_type) && x === "root_control_type"@)
            || ((a.root_class_name != b.root_class_name) && x === "root_class_name"@)
            || ((a.root_name != b.root_name) && x === "root_name"@)
            || ((a.root_automation_id != b.root_automation_id) && x === "root_automation_id"@)
            || ((a.tree_signature != b.tree_signature) && x === "tree_state"@)
        ),
{
    assert(field_if(a.title != b.title, "title"@).contains(x) == ((a.title != b.title) && x === "title"@)) by {
        reveal(field_if);
        crate::text::lemma_optional_contains(a.title != b.title, "title"@, x);
    }
    let ghost k0: bool = (a.title != b.title) && x === "title"@;
    lemma_field_step(field_if(a.title != b.title, "title"@), a.process_name != b.process_name, "process_name"@, x, k0);
    let ghost k1: bool = k0 || ((a.process_name != b.process_name) && x === "process_name"@);
    lemma_field_step(field_if(a.title != b.title, "title"@) + field_if(a.process_name != b.process_name, "process_name"@), a.backend != b.backend, "backend"@, x, k1);
    let ghost k2: bool = k1 || ((a.backend != b.backend) && x === "backend"@);
    lemma_field_step(field_if(a.title != b.title, "title"@) + field_if(a.process_name != b.process_name, "process_name"@) + field_if(a.backend != b.backend, "backend"@), a.confidence_bits != b.confidence_bits, "confidence"@, x, k2);
    let ghost k3: bool = k2 || ((a.confidence_bits != b.confidence_bits) && x === "confidence"@);
    lemma_field_step(field_if(a.title != b.title, "title"@) + field_if(a.process_name != b.process_name, "process_name"@) + field_if(a.backend != b.backend, "backend"@) + field_if(a.confidence_bits != b.confidence_bits, "confidence"@), a.width != b.width || a.height != b.height, "window_size"@, x, k3);
    let ghost k4: bool = k3 || ((a.width != b.width || a.height != b.height) && x === "window_size"@);
    lemma_field_step(field_if(a.title != b.title, "title"@) + field_if(a.process_name != b.process_name, "process_name"@) + field_if(a.backend != b.backend, "backend"@) + field_if(a.confidence_bits != b.confidence_bits, "confidence"@) + field_if(a.width != b.width || a.height != b.height, "window_size"@), a.onec_window_profile != b.onec_window_profile, "onec_window_profile"@, x, k4);
    let ghost k5: bool = k4 || ((a.onec_window_profile != b.onec_window_profile) && x === "onec_window_profile"@);
    lemma_field_step(field_if(a.title != b.title, "title"@) + field_if(a.process_name != b.process_name, "process_name"@) + field_if(a.backend != b.backend, "backend"@) + field_if(a.confidence_bits != b.confidence_bits, "confidence"@) + field_if(a.width != b.width || a.height != b.height, "window_size"@) + field_if(a.onec_window_profile != b.onec_window_profile, "onec_window_profile"@), a.onec_fallback_reason != b.onec_fallback_reason, "onec_fallback_reason"@, x, k5);
    let ghost k6: bool = k5 || ((a.onec_fallback_reason != b.onec_fallback_reason) && x === "onec_fallback_reason"@);
    lemma_field_step(field_if(a.title != b.title, "title"@) + field_if(a.process_name != b.process_name, "process_name"@) + field_if(a.backend != b.backend, "backend"@) + field_if(a.confidence_bits != b.confidence_bits, "confidence"@) + field_if(a.width != b.width || a.height != b.height, "window_size"@) + field_if(a.onec_window_profile != b.onec_window_profile, "onec_window_profile"@) + field_if(a.onec_fallback_reason != b.onec_fallback_reason, "onec_fallback_reason"@), a.root_control_type != b.root_control_type, "root_control_type"@, x, k6);
    let ghost k7: bool = k6 || ((a.root_control_type != b.root_control_type) && x === "root_control_type"@);
    lemma_field_step(field_if(a.title != b.title, "title"@) + field_if(a.process_name != b.process_name, "process_name"@) + field_if(a.backend != b.backend, "backend"@) + field_if(a.confidence_bits != b.confidence_bits, "confidence"@) + field_if(a.width != b.width || a.height != b.height, "window_size"@) + field_if(a.onec_window_profile != b.onec_window_profile, "onec_window_profile"@) + field_if(a.onec_fallback_reason != b.onec_fallback_reason, "onec_fallback_reason"@) + field_if(a.root_control_type != b.root_control_type, "root_control_type"@), a.root_class_name != b.root_class_name, "root_class_name"@, x, k7);
    let ghost k8: bool = k7 || ((a.root_class_name != b.root_class_name) && x === "root_class_name"@);
    lemma_field_step(field_if(a.title != b.title, "title"@) + field_if(a.process_name != b.process_name, "process_name"@) + field_if(a.backend != b.backend, "backend"@) + field_if(a.confidence_bits != b.confidence_bits, "confidence"@) + field_if(a.width != b.width || a.height != b.height, "window_size"@) + field_if(a.onec_window_profile != b.onec_window_profile, "onec_window_profile"@) + field_if(a.onec_fallback_reason != b.onec_fallback_reason, "onec_fallback_reason"@) + field_if(a.root_control_type != b.root_control_type, "root_control_type"@) + field_if(a.root_class_name != b.root_class_name, "root_class_name"@), a.root_name != b.root_name, "root_name"@, x, k8);
    let ghost k9: bool = k8 || ((a.root_name != b.root_name) && x === "root_name"@);
    lemma_field_step(field_if(a.title != b.title, "title"@) + field_if(a.process_name != b.process_name, "process_name"@) + field_if(a.backend != b.backend, "backend"@) + field_if(a.confidence_bits != b.confidence_bits, "confidence"@) + field_if(a.width != b.width || a.height != b.height, "window_size"@) + field_if(a.onec_window_profile != b.onec_window_profile, "onec_window_profile"@) + field_if(a.onec_fallback_reason != b.onec_fallback_reason, "onec_fallback_reason"@) + field_if(a.root_control_type != b.root_control_type, "root_control_type"@) + field_if(a.root_class_name != b.root_class_name, "root_class_name"@) + field_if(a.root_name != b.root_name, "root_name"@), a.root_automation_id != b.root_automation_id, "root_automation_id"@, x, k9);
    let ghost k10: bool = k9 || ((a.root_automation_id != b.root_automation_id) && x === "root_automation_id"@);
    lemma_field_step(field_if(a.title != b.title, "title"@) + field_if(a.process_name != b.process_name, "process_name"@) + field_if(a.backend != b.backend, "backend"@) + field_if(a.confidence_bits != b.confidence_bits, "confidence"@) + field_if(a.width != b.width || a.height != b.height, "window_size"@) + field_if(a.onec_window_profile != b.onec_window_profile, "onec_window_profile"@) + field_if(a.onec_fallback_reason != b.onec_fallback_reason, "onec_fallback_reason"@) + field_if(a.root_control_type != b.root_control_type, "root_control_type"@) + field_if(a.root_class_name != b.root_class_name, "root_class_name"@) + field_if(a.root_name != b.root_name, "root_name"@) + field_if(a.root_automation_id != b.root_automation_id, "root_automation_id"@), a.tree_signature != b.tree_signature, "tree_state"@, x, k10);
    let ghost k11: bool = k10 || ((a.tree_signature != b.tree_signature) && x === "tree_state"@);
}

/// A field's name is listed exactly when the two summaries differ in that
/// field (the window size standing for width and height together).
pub proof fn lemma_changed_fields_exact(a: SummaryV, b: SummaryV)
    ensures
        changed_field_names(a, b).contains("title"@) <==> (a.title != b.title),
        changed_field_names(a, b).contains("process_name"@) <==> (a.process_name != b.process_name),
        changed_field_names(a, b).contains("backend"@) <==> (a.backend != b.backend),
        changed_field_names(a, b).contains("confidence"@) <==> (a.confidence_bits != b.confidence_bits),
        changed_field_names(a, b).contains("window_size"@) <==> (a.width != b.width || a.height != b.height),
        changed_field_names(a, b).contains("onec_window_profile"@) <==> (a.onec_window_profile != b.onec_window_profile),
        changed_field_names(a, b).contains("onec_fallback_reason"@) <==> (a.onec_fallback_reason != b.onec_fallback_reason),
        changed_field_names(a, b).contains("root_control_type"@) <==> (a.root_control_type != b.root_control_type),
        changed_field_names(a, b).contains("root_class_name"@) <==> (a.root_class_name != b.root_class_name),
        changed_field_names(a, b).contains("root_name"@) <==> (a.root_name != b.root_name),
        changed_field_names(a, b).contains("root_automation_id"@) <==> (a.root_automation_id != b.root_automation_id),
        changed_field_names(a, b).contains("tree_state"@) <==> (a.tree_signature != b.tree_signature),
{
    lemma_changed_name(a, b, "title"@);
    lemma_changed_name(a, b, "process_name"@);
    lemma_changed_name(a, b, "backend"@);
    lemma_changed_name(a, b, "confidence"@);
    lemma_changed_name(a, b, "window_size"@);
    lemma_changed_name(a, b, "onec_window_profile"@);
    lemma_changed_name(a, b, "onec_fallback_reason"@);
    lemma_changed_name(a, b, "root_control_type"@);
    lemma_changed_name(a, b, "root_class_name"@);
    lemma_changed_name(a, b, "root_name"@);
    lemma_changed_name(a, b, "root_automation_id"@);
    lemma_changed_name(a, b, "tree_state"@);
}

/// The twelve field names are distinct texts.
proof fn lemma_changed_name(a: SummaryV, b: SummaryV, x: Seq<char>)
    requires
        x === "title"@ || x === "process_name"@ || x === "backend"@ || x === "confidence"@ || x === "window_size"@ || x === "onec_window_profile"@ || x === "onec_fallback_reason"@ || x === "root_control_type"@ || x === "root_class_name"@ || x === "root_name"@ || x === "root_automation_id"@ || x === "tree_state"@,
    ensures
        x === "title"@ ==> (changed_field_names(a, b).contains(x) <==> (a.title != b.title)),
        x === "process_name"@ ==> (changed_field_names(a, b).contains(x) <==> (a.process_name != b.process_name)),
        x === "backend"@ ==> (changed_field_names(a, b).contains(x) <==> (a.backend != b.backend)),
        x === "confidence"@ ==> (changed_field_names(a, b).contains(x) <==> (a.confidence_bits != b.confidence_bits)),
        x === "window_size"@ ==> (changed_field_names(a, b).contains(x) <==> (a.width != b.width || a.height != b.height)),
        x === "onec_window_profile"@ ==> (changed_field_names(a, b).contains(x) <==> (a.onec_window_profile != b.onec_window_profile)),
        x === "onec_fallback_reason"@ ==> (changed_field_names(a, b).contains(x) <==> (a.onec_fallback_reason != b.onec_fallback_reason)),
        x === "root_control_type"@ ==> (changed_field_names(a, b).contains(x) <==> (a.root_control_type != b.root_control_type)),
        x === "root_class_name"@ ==> (changed_field_names(a, b).contains(x) <==> (a.root_class_name != b.root_class_name)),
        x === "root_name"@ ==> (changed_field_names(a, b).contains(x) <==> (a.root_name != b.root_name)),
        x === "root_automation_id"@ ==> (changed_field_names(a, b).contains(x) <==> (a.root_automation_id != b.root_automation_id)),
        x === "tree_state"@ ==> (changed_field_names(a, b).contains(x) <==> (a.tree_signature != b.tree_signature)),
{
    assert("title"@.len() == 5) by { reveal_strlit("title"); }
    assert("process_name"@.len() == 12) by { reveal_strlit("process_name"); }
    assert("backend"@.len() == 7) by { reveal_strlit("backend"); }
    assert("confidence"@.len() == 10) by { reveal_strlit("confidence"); }
    assert("window_size"@.len() == 11) by { reveal_strlit("window_size"); }
    assert("onec_window_profile"@.len() == 19) by { reveal_strlit("onec_window_profile"); }
    assert("onec_fallback_reason"@.len() == 20) by { reveal_strlit("onec_fallback_reason"); }
    assert("root_control_type"@.len() == 17) by { reveal_strlit("root_control_type"); }
    assert("root_class_name"@.len() == 15) by { reveal_strlit("root_class_name"); }
    assert("root_name"@.len() == 9) by { reveal_strlit("root_name"); }
    assert("root_automation_id"@.len() == 18) by { reveal_strlit("root_automation_id"); }
    assert("tree_state"@.len() == 10) by { reveal_strlit("tree_state"); }
    assert("confidence"@[0] == 'c' && "tree_state"@[0] == 't') by { reveal_strlit("confidence"); reveal_strlit("tree_state"); }
    lemma_changed_names_contain(a, b, x);
}

/// Appends `name` when `differs`.
fn push_field(v: &mut Vec<&'static str>, differs: bool, name: &'static str)
    ensures
        final(v)@.map_values(|s: &str| s@) == old(v)@.map_values(|s: &str| s@) + field_if(differs, name@),
{
    let ghost before = v@.map_values(|s: &str| s@);
    reveal(field_if);
    if differs {
        v.push(name);
        assert(v@.map_values(|s: &str| s@) =~= before + seq![name@]);
    } else {
        assert(v@.map_values(|s: &str| s@) =~= before + Seq::<Seq<char>>::empty());
    }
}

impl DiagnosticWindowSummary {
    /// The names of the fields in which `other` differs from this summary.
    pub fn changed_fields(&self, other: &Self) -> (r: Vec<&'static str>)
        ensures
            r@.map_values(|s: &str| s@) == changed_field_names(self@, other@),
    {
        let mut fields: Vec<&'static str> = Vec::new();
        assert(fields@.map_values(|s: &str| s@) =~= Seq::<Seq<char>>::empty());
        push_field(&mut fields, !string_equal(&self.title, &other.title), "title");
        push_field(&mut fields, !crate::text::opt_string_equal(&self.process_name, &other.process_name), "process_name");
        push_field(&mut fields, self.backend != other.backend, "backend");
        push_field(&mut fields, self.confidence_bits != other.confidence_bits, "confidence");
        push_field(&mut fields, self.width != other.width || self.height != other.height, "window_size");
        push_field(
            &mut fields,
            !crate::text::opt_string_equal(&self.onec_window_profile, &other.onec_window_profile),
            "onec_window_profile",
        );
        push_field(
            &mut fields,
            !crate::text::opt_string_equal(&self.onec_fallback_reason, &other.onec_fallback_reason),
            "onec_fallback_reason",
        );
        push_field(&mut fields, !string_equal(&self.root_control_type, &other.root_control_type), "root_control_type");
        push_field(
            &mut fields,
            !crate::text::opt_string_equal(&self.root_class_name, &other.root_class_name),
            "root_class_name",
        );
        push_field(&mut fields, !crate::text::opt_string_equal(&self.root_name, &other.root_name), "root_name");
        push_field(
            &mut fields,
            !crate::text::opt_string_equal(&self.root_automation_id, &other.root_automation_id),
            "root_automation_id",
        );
        push_field(&mut fields, !string_equal(&self.tree_signature, &other.tree_signature), "tree_state");
        proof {
            reveal_strlit("title");
            reveal_strlit("process_name");
        }
        fields
    }
}

/// `points` when `cond`, else zero.
pub open spec fn points_if(cond: bool, points: int) -> int {
    if cond { points } else { 0 }
}

/// The points for each agreement: process 4, 1C profile 5, root class 4,
/// root control type 2, root name 2, title 1, size 1, backend 1, tree 1;
/// none at all unless one of the first three agrees.
pub open spec fn tally(process: bool, profile: bool, class: bool, control: bool, name: bool, title: bool, size: bool, backend: bool, tree: bool) -> int {
    if !process && !profile && !class {
        0
    } else {
        points_if(process, 4) + points_if(profile, 5) + points_if(class, 4) + points_if(control, 2) + points_if(name, 2)
            + points_if(title, 1) + points_if(size, 1) + points_if(backend, 1) + points_if(tree, 1)
    }
}

/// How strongly two summaries look like the same window.
pub open spec fn match_score(e: SummaryV, a: SummaryV) -> int {
    tally(
        same_normalized(e.process_name, a.process_name),
        same_normalized(e.onec_window_profile, a.onec_window_profile),
        same_normalized(e.root_class_name, a.root_class_name),
        normalized(e.root_control_type) == normalized(a.root_control_type),
        same_normalized(e.root_name, a.root_name),
        normalized(e.title) == normalized(a.title),
        e.width == a.width && e.height == a.height,
        e.backend == a.backend,
        e.tree_digest == a.tree_digest,
    )
}

/// Adds up the points of the agreements between two windows (see `tally`).
pub fn match_points(process: bool, profile: bool, class: bool, control: bool, name: bool, title: bool, size: bool, backend: bool, tree: bool) -> (r: usize)
    ensures
        r == tally(process, profile, class, control, name, title, size, backend, tree),
        r <= 21,
{
    if !process && !profile && !class {
        return 0;
    }
    let mut score: usize = 0;
    if process {
        score = score + 4;
    }
    if profile {
        score = score + 5;
    }
    if class {
        score = score + 4;
    }
    if control {
        score = score + 2;
    }
    if name {
        score = score + 2;
    }
    if title {
        score = score + 1;
    }
    if size {
        score = score + 1;
    }
    if backend {
        score = score + 1;
    }
    if tree {
        score = score + 1;
    }
    score
}

/// Whether two texts are the same once normalized.
fn same_text(a: &str, b: &str) -> (r: bool)
    ensures
        r == (normalized(a@) == normalized(b@)),
{
    let x = normalize_text(a);
    let y = normalize_text(b);
    string_equal(&x, &y)
}

/// Whether two optional texts are present and the same once normalized.
fn same_opt_text(a: &Option<String>, b: &Option<String>) -> (r: bool)
    ensures
        r == same_normalized(opt_view(*a), opt_view(*b)),
{
    normalized_optional_eq(opt_str(a), opt_str(b))
}

/// The score by which an expected window is paired with an actual one.
pub fn window_match_score(expected: &DiagnosticWindowSummary, actual: &DiagnosticWindowSummary) -> (r: usize)
    ensures
        r == match_score(expected@, actual@),
        r <= 21,
{
    let process = same_opt_text(&expected.process_name, &actual.process_name);
    let profile = same_opt_text(&expected.onec_window_profile, &actual.onec_window_profile);
    let class = same_opt_text(&expected.root_class_name, &actual.root_class_name);
    let control = same_text(expected.root_control_type.as_str(), actual.root_control_type.as_str());
    let name = same_opt_text(&expected.root_name, &actual.root_name);
    let title = same_text(expected.title.as_str(), actual.title.as_str());
    let size = expected.width == actual.width && expected.height == actual.height;
    let backend = expected.backend == actual.backend;
    let tree = string_equal(&expected.tree_digest, &actual.tree_digest);
    match_points(process, profile, class, control, name, title, size, backend, tree)
}


/// Windows of two snapshots taken for the same window.
#[derive(Clone, Copy, Debug, PartialEq, Eq, Structural)]
pub struct MatchedWindowPair {
    pub expected_idx: usize,
    pub actual_idx: usize,
    pub score: usize,
}

/// The views of a list of summaries.
pub open spec fn summaries_view(v: Seq<DiagnosticWindowSummary>) -> Seq<SummaryV> {
    v.map_values(|w: DiagnosticWindowSummary| w@)
}

/// Pairs `i` with `j` when they score exactly `s` and both are still free.
pub open spec fn pairing_step(e: Seq<SummaryV>, a: Seq<SummaryV>, s: int, i: int, j: int, assigned: Seq<Option<int>>, used: Seq<bool>) -> (Seq<Option<int>>, Seq<bool>) {
    if match_score(e[i], a[j]) == s && assigned[i] is None && !used[j] {
        (assigned.update(i, Some(j)), used.update(j, true))
    } else {
        (assigned, used)
    }
}

/// Greedy pairing: candidates are taken by descending score, then by
/// ascending expected position, then by ascending actual position, from the
/// highest possible score down to 7; a candidate is taken when neither of
/// its windows is paired yet. Gives the actual partner of each expected window.
pub open spec fn pairing(e: Seq<SummaryV>, a: Seq<SummaryV>, s: int, i: int, j: int, assigned: Seq<Option<int>>, used: Seq<bool>) -> Seq<Option<int>>
    decreases s, e.len() - i, a.len() - j,
{
    if s < 7 {
        assigned
    } else if i < 0 || i >= e.len() {
        pairing(e, a, s - 1, 0, 0, assigned, used)
    } else if j < 0 || j >= a.len() {
        pairing(e, a, s, i + 1, 0, assigned, used)
    } else {
        let (x, u) = pairing_step(e, a, s, i, j, assigned, used);
        pairing(e, a, s, i, j + 1, x, u)
    }
}

/// The pairs, by ascending expected position, from position `i` on.
pub open spec fn pairs_from(e: Seq<SummaryV>, a: Seq<SummaryV>, assigned: Seq<Option<int>>, i: int) -> Seq<(int, int, int)>
    decreases assigned.len() - i,
{
    if i < 0 || i >= assigned.len() {
        Seq::empty()
    } else {
        (match assigned[i] {
            Some(j) => seq![(i, j, match_score(e[i], a[j]))],
            None => Seq::empty(),
        }) + pairs_from(e, a, assigned, i + 1)
    }
}

/// The window pairs of two snapshots' summaries (see `pairing`).
pub open spec fn window_pairs(e: Seq<SummaryV>, a: Seq<SummaryV>) -> Seq<(int, int, int)> {
    pairs_from(e, a, pairing(e, a, 21, 0, 0, Seq::new(e.len(), |k: int| None::<int>), Seq::new(a.len(), |k: int| false)), 0)
}

/// The view of a pair.
pub open spec fn pair_view(p: MatchedWindowPair) -> (int, int, int) {
    (p.expected_idx as int, p.actual_idx as int, p.score as int)
}

/// The view of an assignment.
pub open spec fn assigned_view(v: Seq<Option<usize>>) -> Seq<Option<int>> {
    v.map_values(|o: Option<usize>| match o {
        Some(x) => Some(x as int),
        None => None::<int>,
    })
}

/// `used` marks exactly the actual windows some expected window is paired with.
pub open spec fn pairing_consistent(assigned: Seq<Option<int>>, used: Seq<bool>) -> bool {
    &&& forall|k: int| 0 <= k < assigned.len() ==> (#[trigger] assigned[k] matches Some(x) ==> 0 <= x < used.len())
    &&& forall|x: int| 0 <= x < used.len() ==> (#[trigger] used[x] <==> exists|k: int| 0 <= k < assigned.len() && #[trigger] assigned[k] == Some(x))
}

/// The candidate of score `t` at (`i`, `j`) comes at or after the cursor
/// (`s`, `i0`, `j0`) in the greedy order.
pub open spec fn not_visited(t: int, i: int, j: int, s: int, i0: int, j0: int) -> bool {
    t < s || (t == s && (i > i0 || (i == i0 && j >= j0)))
}

/// What the greedy pairing keeps and what it guarantees: pairs made before
/// the cursor stay, and every candidate of score at least 7 still ahead of
/// the cursor ends with one of its windows paired.
proof fn lemma_pairing_greedy(e: Seq<SummaryV>, a: Seq<SummaryV>, s: int, i0: int, j0: int, assigned: Seq<Option<int>>, used: Seq<bool>)
    requires
        assigned.len() == e.len(),
        used.len() == a.len(),
        pairing_consistent(assigned, used),
        0 <= i0,
        0 <= j0,
    ensures
        pairing(e, a, s, i0, j0, assigned, used).len() == e.len(),
        forall|k: int| 0 <= k < e.len() && (#[trigger] assigned[k]) is Some ==> pairing(e, a, s, i0, j0, assigned, used)[k] == assigned[k],
        forall|k: int| 0 <= k < e.len() ==> (#[trigger] pairing(e, a, s, i0, j0, assigned, used)[k] matches Some(x) ==> 0 <= x < a.len()),
        forall|i: int, j: int| 0 <= i < e.len() && 0 <= j < a.len() && #[trigger] match_score(e[i], a[j]) >= 7
            && not_visited(match_score(e[i], a[j]), i, j, s, i0, j0) ==> pairing(e, a, s, i0, j0, assigned, used)[i] is Some
                || exists|k: int| 0 <= k < e.len() && #[trigger] pairing(e, a, s, i0, j0, assigned, used)[k] == Some(j),
    decreases s, e.len() - i0, a.len() - j0,
{
    let r = pairing(e, a, s, i0, j0, assigned, used);
    if s < 7 {
    } else if i0 >= e.len() {
        lemma_pairing_greedy(e, a, s - 1, 0, 0, assigned, used);
    } else if j0 >= a.len() {
        lemma_pairing_greedy(e, a, s, i0 + 1, 0, assigned, used);
    } else {
        let (x, u) = pairing_step(e, a, s, i0, j0, assigned, used);
        let takes = match_score(e[i0], a[j0]) == s && assigned[i0] is None && !used[j0];
        assert(pairing_consistent(x, u)) by {
            if takes {
                assert forall|y: int| 0 <= y < u.len() implies (#[trigger] u[y] <==> exists|k: int| 0 <= k < x.len() && #[trigger] x[k] == Some(y)) by {
                    if y == j0 {
                        assert(x[i0] == Some(y));
                    } else {
                        if u[y] {
                            let k = choose|k: int| 0 <= k < assigned.len() && #[trigger] assigned[k] == Some(y);
                            assert(x[k] == Some(y));
                        }
                        if exists|k: int| 0 <= k < x.len() && #[trigger] x[k] == Some(y) {
                            let k = choose|k: int| 0 <= k < x.len() && #[trigger] x[k] == Some(y);
                            assert(k != i0);
                            assert(assigned[k] == Some(y));
                        }
                    }
                }
            }
        }
        lemma_pairing_greedy(e, a, s, i0, j0 + 1, x, u);
        assert forall|k: int| 0 <= k < e.len() && (#[trigger] assigned[k]) is Some implies r[k] == assigned[k] by {
            assert(x[k] == assigned[k]);
        }
        assert forall|i: int, j: int| 0 <= i < e.len() && 0 <= j < a.len() && #[trigger] match_score(e[i], a[j]) >= 7
            && not_visited(match_score(e[i], a[j]), i, j, s, i0, j0) implies r[i] is Some
                || exists|k: int| 0 <= k < e.len() && #[trigger] r[k] == Some(j) by {
            if i == i0 && j == j0 && match_score(e[i], a[j]) == s {
                if takes {
                    assert(x[i0] is Some);
                } else if assigned[i0] is Some {
                    assert(x[i0] is Some);
                } else {
                    assert(used[j0]);
                    let k = choose|k: int| 0 <= k < assigned.len() && #[trigger] assigned[k] == Some(j0);
                    assert(x[k] == Some(j0));
                    assert(r[k] == Some(j));
                }
            }
        }
    }
}

/// The pairs list, from position `i` on, holds exactly the paired expected
/// windows from `i` on, each with its partner and their score.
proof fn lemma_pairs_from(e: Seq<SummaryV>, a: Seq<SummaryV>, assigned: Seq<Option<int>>, i: int)
    requires
        0 <= i,
    ensures
        forall|m: int| 0 <= m < pairs_from(e, a, assigned, i).len() ==> {
            let p = #[trigger] pairs_from(e, a, assigned, i)[m];
            &&& i <= p.0 < assigned.len()
            &&& assigned[p.0] == Some(p.1)
            &&& p.2 == match_score(e[p.0], a[p.1])
        },
        forall|k: int| i <= k < assigned.len() && (#[trigger] assigned[k]) is Some ==> exists|m: int|
            0 <= m < pairs_from(e, a, assigned, i).len() && #[trigger] pairs_from(e, a, assigned, i)[m] == (k, assigned[k]->0, match_score(e[k], a[assigned[k]->0])),
    decreases assigned.len() - i,
{
    if i < assigned.len() {
        lemma_pairs_from(e, a, assigned, i + 1);
        let head: Seq<(int, int, int)> = match assigned[i] {
            Some(j) => seq![(i, j, match_score(e[i], a[j]))],
            None => Seq::empty(),
        };
        let rest = pairs_from(e, a, assigned, i + 1);
        let all = pairs_from(e, a, assigned, i);
        assert(all == head + rest);
        assert forall|m: int| 0 <= m < all.len() implies {
            let p = #[trigger] all[m];
            &&& i <= p.0 < assigned.len()
            &&& assigned[p.0] == Some(p.1)
            &&& p.2 == match_score(e[p.0], a[p.1])
        } by {
            if m >= head.len() {
                assert(all[m] == rest[m - head.len()]);
            }
        }
        assert forall|k: int| i <= k < assigned.len() && (#[trigger] assigned[k]) is Some implies exists|m: int|
            0 <= m < all.len() && #[trigger] all[m] == (k, assigned[k]->0, match_score(e[k], a[assigned[k]->0])) by {
            if k == i {
                assert(all[0] == (k, assigned[k]->0, match_score(e[k], a[assigned[k]->0])));
            } else {
                let m = choose|m: int| 0 <= m < rest.len() && #[trigger] rest[m] == (k, assigned[k]->0, match_score(e[k], a[assigned[k]->0]));
                assert(all[m + head.len()] == rest[m]);
            }
        }
    }
}

/// Window pairing is greedy and complete: every pair carries its windows'
/// score, and two windows left unpaired on both sides score below 7.
pub proof fn lemma_window_pairs_maximal(e: Seq<SummaryV>, a: Seq<SummaryV>, i: int, j: int)
    requires
        0 <= i < e.len(),
        0 <= j < a.len(),
        !paired(window_pairs(e, a), i, true),
        !paired(window_pairs(e, a), j, false),
    ensures
        match_score(e[i], a[j]) < 7,
{
    let none = Seq::new(e.len(), |k: int| None::<int>);
    let free = Seq::new(a.len(), |k: int| false);
    assert(pairing_consistent(none, free));
    lemma_pairing_greedy(e, a, 21, 0, 0, none, free);
    let r = pairing(e, a, 21, 0, 0, none, free);
    let pairs = window_pairs(e, a);
    assert(pairs == pairs_from(e, a, r, 0));
    lemma_pairs_from(e, a, r, 0);
    if match_score(e[i], a[j]) >= 7 {
        assert(match_score(e[i], a[j]) <= 21);
        assert(not_visited(match_score(e[i], a[j]), i, j, 21, 0, 0));
        if r[i] is Some {
            let m = choose|m: int| 0 <= m < pairs.len() && #[trigger] pairs[m] == (i, r[i]->0, match_score(e[i], a[r[i]->0]));
            assert(pairs[m].0 == i);
        } else {
            let k = choose|k: int| 0 <= k < e.len() && #[trigger] r[k] == Some(j);
            let m = choose|m: int| 0 <= m < pairs.len() && #[trigger] pairs[m] == (k, r[k]->0, match_score(e[k], a[r[k]->0]));
            assert(pairs[m].1 == j);
        }
    }
}

/// Every pair of the pairing carries its windows' match score.
pub proof fn lemma_window_pairs_scores(e: Seq<SummaryV>, a: Seq<SummaryV>, m: int)
    requires
        0 <= m < window_pairs(e, a).len(),
    ensures
        window_pairs(e, a)[m].2 == match_score(e[window_pairs(e, a)[m].0], a[window_pairs(e, a)[m].1]),
        window_pairs(e, a)[m].2 >= 7,
{
    let none = Seq::new(e.len(), |k: int| None::<int>);
    let free = Seq::new(a.len(), |k: int| false);
    let r = pairing(e, a, 21, 0, 0, none, free);
    lemma_pairs_from(e, a, r, 0);
    lemma_pairing_scores(e, a, 21, 0, 0, none, free);
    let p = window_pairs(e, a)[m];
    assert(r[p.0] == Some(p.1));
}

/// Every pair the pairing makes scores at least 7.
proof fn lemma_pairing_scores(e: Seq<SummaryV>, a: Seq<SummaryV>, s: int, i0: int, j0: int, assigned: Seq<Option<int>>, used: Seq<bool>)
    requires
        assigned.len() == e.len(),
        forall|k: int| 0 <= k < assigned.len() ==> (#[trigger] assigned[k] matches Some(x) ==> match_score(e[k], a[x]) >= 7),
    ensures
        forall|k: int| 0 <= k < pairing(e, a, s, i0, j0, assigned, used).len() ==> (#[trigger] pairing(e, a, s, i0, j0, assigned, used)[k] matches Some(x)
            ==> match_score(e[k], a[x]) >= 7),
    decreases s, e.len() - i0, a.len() - j0,
{
    if s < 7 {
    } else if i0 < 0 || i0 >= e.len() {
        lemma_pairing_scores(e, a, s - 1, 0, 0, assigned, used);
    } else if j0 < 0 || j0 >= a.len() {
        lemma_pairing_scores(e, a, s, i0 + 1, 0, assigned, used);
    } else {
        let (x, u) = pairing_step(e, a, s, i0, j0, assigned, used);
        assert forall|k: int| 0 <= k < x.len() implies (#[trigger] x[k] matches Some(y) ==> match_score(e[k], a[y]) >= 7) by {
            if k != i0 {
                assert(x[k] == assigned[k]);
            }
        }
        lemma_pairing_scores(e, a, s, i0, j0 + 1, x, u);
    }
}

/// Pairs each expected window with at most one actual window (see `pairing`).
pub fn match_windows(expected: &Vec<DiagnosticWindowSummary>, actual: &Vec<DiagnosticWindowSummary>) -> (r: Vec<MatchedWindowPair>)
    ensures
        r@.map_values(|p: MatchedWindowPair| pair_view(p)) == window_pairs(summaries_view(expected@), summaries_view(actual@)),
        forall|k: int| 0 <= k < r@.len() ==> (#[trigger] r@[k]).score >= 7 && r@[k].expected_idx < expected@.len() && r@[k].actual_idx < actual@.len(),
        forall|k1: int, k2: int| 0 <= k1 < k2 < r@.len() ==> (#[trigger] r@[k1]).expected_idx < (#[trigger] r@[k2]).expected_idx && r@[k1].actual_idx != r@[k2].actual_idx,
{
    let ghost ev = summaries_view(expected@);
    let ghost av = summaries_view(actual@);
    let ne = expected.len();
    let na = actual.len();
    let mut assigned: Vec<Option<usize>> = Vec::new();
    while assigned.len() < ne
        invariant
            assigned@.len() <= ne,
            forall|k: int| 0 <= k < assigned@.len() ==> #[trigger] assigned@[k] is None,
        decreases ne - assigned@.len(),
    {
        assigned.push(None);
    }
    let mut used: Vec<bool> = Vec::new();
    while used.len() < na
        invariant
            used@.len() <= na,
            forall|k: int| 0 <= k < used@.len() ==> !#[trigger] used@[k],
        decreases na - used@.len(),
    {
        used.push(false);
    }
    assert(assigned_view(assigned@) =~= Seq::new(ne as nat, |k: int| None::<int>));
    assert(used@ =~= Seq::new(na as nat, |k: int| false));
    let ghost target = pairing(ev, av, 21, 0, 0, assigned_view(assigned@), used@);
    let mut s: usize = 21;
    let mut i: usize = 0;
    let mut j: usize = 0;
    while s >= 7
        invariant
            ev == summaries_view(expected@),
            av == summaries_view(actual@),
            ne == expected@.len(),
            na == actual@.len(),
            assigned@.len() == ne,
            used@.len() == na,
            6 <= s <= 21,
            i <= ne,
            j <= na,
            pairing(ev, av, s as int, i as int, j as int, assigned_view(assigned@), used@) == target,
            forall|k: int| 0 <= k < ne ==> (#[trigger] assigned@[k] matches Some(x) ==> x < na && used@[x as int] && match_score(ev[k], av[x as int]) >= 7),
            forall|k1: int, k2: int| 0 <= k1 < ne && 0 <= k2 < ne && k1 != k2 && (#[trigger] assigned@[k1]) is Some && (#[trigger] assigned@[k2]) is Some ==> assigned@[k1] != assigned@[k2],
        decreases s, ne - i, na - j,
    {
        if i >= ne {
            s = s - 1;
            i = 0;
            j = 0;
        } else if j >= na {
            i = i + 1;
            j = 0;
        } else {
            let score = window_match_score(&expected[i], &actual[j]);
            let ghost before_a = assigned_view(assigned@);
            let ghost before_u = used@;
            if score == s && assigned[i].is_none() && !used[j] {
                assigned.set(i, Some(j));
                used.set(j, true);
                assert(assigned_view(assigned@) =~= before_a.update(i as int, Some(j as int)));
            }
            j = j + 1;
        }
    }
    assert(target == assigned_view(assigned@));
    let mut out: Vec<MatchedWindowPair> = Vec::new();
    let mut k: usize = 0;
    while k < ne
        invariant
            ev == summaries_view(expected@),
            av == summaries_view(actual@),
            ne == expected@.len(),
            na == actual@.len(),
            assigned@.len() == ne,
            k <= ne,
            target == assigned_view(assigned@),
            out@.map_values(|p: MatchedWindowPair| pair_view(p)) + pairs_from(ev, av, target, k as int) == pairs_from(ev, av, target, 0),
            forall|m: int| 0 <= m < ne ==> (#[trigger] assigned@[m] matches Some(x) ==> x < na && match_score(ev[m], av[x as int]) >= 7),
            forall|k1: int, k2: int| 0 <= k1 < ne && 0 <= k2 < ne && k1 != k2 && (#[trigger] assigned@[k1]) is Some && (#[trigger] assigned@[k2]) is Some ==> assigned@[k1] != assigned@[k2],
            forall|m: int| 0 <= m < out@.len() ==> (#[trigger] out@[m]).expected_idx < k && out@[m].score >= 7 && out@[m].actual_idx < na && assigned@[out@[m].expected_idx as int] == Some(out@[m].actual_idx),
            forall|m1: int, m2: int| 0 <= m1 < m2 < out@.len() ==> (#[trigger] out@[m1]).expected_idx < (#[trigger] out@[m2]).expected_idx,
        decreases ne - k,
    {
        let ghost before = out@.map_values(|p: MatchedWindowPair| pair_view(p));
        assert(pairs_from(ev, av, target, k as int) == (match target[k as int] {
            Some(x) => seq![(k as int, x, match_score(ev[k as int], av[x]))],
            None => Seq::<(int, int, int)>::empty(),
        }) + pairs_from(ev, av, target, k + 1));
        match assigned[k] {
            Some(x) => {
                let score = window_match_score(&expected[k], &actual[x]);
                out.push(MatchedWindowPair { expected_idx: k, actual_idx: x, score });
                assert(out@.map_values(|p: MatchedWindowPair| pair_view(p)) =~= before.push((k as int, x as int, score as int)));
            },
            None => {},
        }
        k = k + 1;
    }
    assert(pairs_from(ev, av, target, ne as int) =~= Seq::<(int, int, int)>::empty());
    assert(out@.map_values(|p: MatchedWindowPair| pair_view(p)) =~= out@.map_values(|p: MatchedWindowPair| pair_view(p)) + Seq::<(int, int, int)>::empty());
    out
}


// ---------------------------------------------------------------------
// Signatures

/// `sep`-separated concatenation of `parts`.
pub open spec fn join(parts: Seq<Seq<char>>, sep: Seq<char>) -> Seq<char>
    decreases parts.len(),
{
    if parts.len() == 0 {
        Seq::empty()
    } else if parts.len() == 1 {
        parts[0]
    } else {
        join(parts.drop_last(), sep) + sep + parts.last()
    }
}

/// Joins strings with a separator.
pub(crate) fn join_exec(parts: &Vec<String>, sep: &str) -> (r: String)
    ensures
        r@ == join(strings_view(parts@), sep@),
{
    let ghost pv = strings_view(parts@);
    let mut out = String::new();
    let mut i: usize = 0;
    while i < parts.len()
        invariant
            i <= parts@.len(),
            pv == strings_view(parts@),
            out@ == join(pv.take(i as int), sep@),
        decreases parts@.len() - i,
    {
        let ghost t = pv.take(i + 1);
        assert(t.drop_last() =~= pv.take(i as int));
        assert(t.last() == parts@[i as int]@);
        if i > 0 {
            out.append(sep);
        } else {
            assert(pv.take(0) =~= Seq::<Seq<char>>::empty());
        }
        out.append(parts[i].as_str());
        i = i + 1;
    }
    assert(pv.take(parts@.len() as int) =~= pv);
    out
}

/// A hexadecimal digit.
pub open spec fn hex_char(d: nat) -> char {
    if d < 10 {
        (d + 48) as char
    } else {
        (d + 87) as char
    }
}

/// The last `width` hexadecimal digits of `n`, lowercase, zero-padded.
pub open spec fn hex_digits(n: nat, width: nat) -> Seq<char>
    decreases width,
{
    if width == 0 {
        Seq::empty()
    } else {
        hex_digits(n / 16, (width - 1) as nat).push(hex_char(n % 16))
    }
}

/// The last `width` hexadecimal digits of `n`.
pub(crate) fn hex_text(n: u64, width: usize) -> (r: String)
    ensures
        r@ == hex_digits(n as nat, width as nat),
    decreases width,
{
    if width == 0 {
        return String::new();
    }
    let mut t = hex_text(n / 16, width - 1);
    let d = n % 16;
    let c: char = if d < 10 {
        ((d as u8) + 48) as char
    } else {
        ((d as u8) + 87) as char
    };
    t.push(c);
    t
}

/// Decimal text of a signed integer.
pub open spec fn signed_decimal(n: int) -> Seq<char> {
    if n < 0 {
        "-"@ + decimal((-n) as nat)
    } else {
        decimal(n as nat)
    }
}

/// Decimal text of a signed integer.
fn i64_to_decimal(n: i64) -> (r: String)
    ensures
        r@ == signed_decimal(n as int),
{
    if n < 0 {
        let m: u64 = if n == i64::MIN {
            9223372036854775808u64
        } else {
            (-n) as u64
        };
        let mut t = String::from_str("-");
        let d = u64_to_decimal(m);
        t.append(d.as_str());
        t
    } else {
        u64_to_decimal(n as u64)
    }
}

/// `true` or `false`.
pub open spec fn bool_text(b: bool) -> Seq<char> {
    if b { "true"@ } else { "false"@ }
}

fn bool_str(b: bool) -> (r: &'static str)
    ensures
        r@ == bool_text(b),
{
    if b { "true" } else { "false" }
}

/// The short name of a backend.
pub open spec fn backend_name(b: BackendKind) -> Seq<char> {
    match b {
        BackendKind::Uia => "uia"@,
        BackendKind::Msaa => "msaa"@,
        BackendKind::Ocr => "ocr"@,
        BackendKind::Mixed => "mixed"@,
    }
}

/// The short name of a backend.
pub fn backend_label(backend: &BackendKind) -> (r: &'static str)
    ensures
        r@ == backend_name(*backend),
{
    match backend {
        BackendKind::Uia => "uia",
        BackendKind::Msaa => "msaa",
        BackendKind::Ocr => "ocr",
        BackendKind::Mixed => "mixed",
    }
}

/// The element states as `name=value` pairs.
pub open spec fn states_text(s: ElementStates) -> Seq<char> {
    "enabled="@ + bool_text(s.enabled) + ";visible="@ + bool_text(s.visible) + ";focused="@ + bool_text(s.focused)
        + ";selected="@ + bool_text(s.selected) + ";expanded="@ + bool_text(s.expanded) + ";toggled="@
        + bool_text(s.toggled)
}

/// The element states as `name=value` pairs.
pub fn node_states_signature(states: &ElementStates) -> (r: String)
    ensures
        r@ == states_text(*states),
{
    let mut t = String::from_str("enabled=");
    t.append(bool_str(states.enabled));
    t.append(";visible=");
    t.append(bool_str(states.visible));
    t.append(";focused=");
    t.append(bool_str(states.focused));
    t.append(";selected=");
    t.append(bool_str(states.selected));
    t.append(";expanded=");
    t.append(bool_str(states.expanded));
    t.append(";toggled=");
    t.append(bool_str(states.toggled));
    t
}

/// The normalized texts of a list.
pub open spec fn normalized_all(v: Seq<Seq<char>>) -> Seq<Seq<char>> {
    v.map_values(|t: Seq<char>| normalized(t))
}

/// How a property value enters a signature.
pub open spec fn value_text(v: PropertyValueV) -> Seq<char> {
    match v {
        PropertyValueV::Bool(b) => "bool:"@ + bool_text(b),
        PropertyValueV::I64(x) => "i64:"@ + signed_decimal(x as int),
        PropertyValueV::F64Bits(bits) => "f64:"@ + hex_digits(bits as nat, 16),
        PropertyValueV::Str(t) => "string:"@ + normalized(t),
        PropertyValueV::StrList(ts) => "strings:"@ + join(normalized_all(ts), ","@),
        PropertyValueV::Rect(r) => "rect:"@ + signed_decimal(r.left as int) + ":"@ + signed_decimal(r.top as int) + ":"@
            + signed_decimal(r.width as int) + ":"@ + signed_decimal(r.height as int),
        PropertyValueV::Null => "null"@,
    }
}

/// How a property value enters a signature.
pub fn property_value_signature(value: &PropertyValue) -> (r: String)
    ensures
        r@ == value_text(value@),
{
    match value {
        PropertyValue::Bool(b) => {
            let mut t = String::from_str("bool:");
            t.append(bool_str(*b));
            t
        },
        PropertyValue::I64(x) => {
            let mut t = String::from_str("i64:");
            let d = i64_to_decimal(*x);
            t.append(d.as_str());
            t
        },
        PropertyValue::F64Bits(bits) => {
            let mut t = String::from_str("f64:");
            let h = hex_text(*bits, 16);
            t.append(h.as_str());
            t
        },
        PropertyValue::String(v) => {
            let mut t = String::from_str("string:");
            let n = normalize_text(v.as_str());
            t.append(n.as_str());
            t
        },
        PropertyValue::StringList(vs) => {
            let mut parts: Vec<String> = Vec::new();
            let mut i: usize = 0;
            while i < vs.len()
                invariant
                    i <= vs@.len(),
                    strings_view(parts@) == normalized_all(strings_view(vs@)).take(i as int),
                decreases vs@.len() - i,
            {
                let ghost before = strings_view(parts@);
                parts.push(normalize_text(vs[i].as_str()));
                assert(strings_view(parts@) =~= before.push(normalized(vs@[i as int]@)));
                assert(normalized_all(strings_view(vs@)).take(i + 1) =~= normalized_all(strings_view(vs@)).take(i as int).push(
                    normalized(vs@[i as int]@),
                ));
                i = i + 1;
            }
            assert(normalized_all(strings_view(vs@)).take(vs@.len() as int) =~= normalized_all(strings_view(vs@)));
            let mut t = String::from_str("strings:");
            let j = join_exec(&parts, ",");
            t.append(j.as_str());
            t
        },
        PropertyValue::Rect(r) => {
            let mut t = String::from_str("rect:");
            let a = i64_to_decimal(r.left as i64);
            t.append(a.as_str());
            t.append(":");
            let b = i64_to_decimal(r.top as i64);
            t.append(b.as_str());
            t.append(":");
            let c = i64_to_decimal(r.width as i64);
            t.append(c.as_str());
            t.append(":");
            let d = i64_to_decimal(r.height as i64);
            t.append(d.as_str());
            t
        },
        PropertyValue::Null => String::from_str("null"),
    }
}

/// The `key=value` texts of the properties, in their (key) order.
pub open spec fn property_texts(ps: Seq<(Seq<char>, PropertyValueV)>) -> Seq<Seq<char>> {
    ps.map_values(|p: (Seq<char>, PropertyValueV)| normalized(p.0) + "="@ + value_text(p.1))
}

/// The properties as `key=value` texts joined by `|`.
pub fn property_map_signature(properties: &Vec<(String, PropertyValue)>) -> (r: String)
    ensures
        r@ == join(property_texts(properties_view(properties@)), "|"@),
{
    let ghost want = property_texts(properties_view(properties@));
    let mut parts: Vec<String> = Vec::new();
    let mut i: usize = 0;
    while i < properties.len()
        invariant
            i <= properties@.len(),
            want == property_texts(properties_view(properties@)),
            strings_view(parts@) == want.take(i as int),
        decreases properties@.len() - i,
    {
        let ghost before = strings_view(parts@);
        let mut t = normalize_text(properties[i].0.as_str());
        t.append("=");
        let v = property_value_signature(&properties[i].1);
        t.append(v.as_str());
        parts.push(t);
        assert(strings_view(parts@) =~= before.push(want[i as int]));
        assert(want.take(i + 1) =~= want.take(i as int).push(want[i as int]));
        i = i + 1;
    }
    assert(want.take(properties@.len() as int) =~= want);
    join_exec(&parts, "|")
}

/// The text of a string property, when the key holds a string.
pub open spec fn prop_text(ps: Seq<(Seq<char>, PropertyValueV)>, key: Seq<char>) -> Option<Seq<char>> {
    match prop_index(ps, key, 0) {
        Some(i) => match ps[i].1 {
            PropertyValueV::Str(t) => Some(t),
            _ => None,
        },
        None => None,
    }
}

/// Position bound of a found property.
proof fn lemma_prop_index(ps: Seq<(Seq<char>, PropertyValueV)>, k: Seq<char>, i: int)
    requires
        0 <= i,
    ensures
        prop_index(ps, k, i) matches Some(x) ==> i <= x < ps.len() && ps[x].0 == k,
    decreases ps.len() - i,
{
    if 0 <= i < ps.len() && ps[i].0 != k {
        lemma_prop_index(ps, k, i + 1);
    }
}

/// The text of a string property, when the key holds a string.
pub fn property_string(properties: &Vec<(String, PropertyValue)>, key: &str) -> (r: Option<String>)
    ensures
        opt_view(r) == prop_text(properties_view(properties@), key@),
{
    let ghost pv = properties_view(properties@);
    let mut i: usize = 0;
    while i < properties.len()
        invariant
            i <= properties@.len(),
            pv == properties_view(properties@),
            prop_index(pv, key@, 0) == prop_index(pv, key@, i as int),
        decreases properties@.len() - i,
    {
        if str_equal(properties[i].0.as_str(), key) {
            assert(prop_index(pv, key@, i as int) == Some(i as int));
            return match &properties[i].1 {
                PropertyValue::String(t) => Some(t.clone()),
                _ => None,
            };
        }
        i = i + 1;
    }
    None
}


// ---------------------------------------------------------------------
// Digest

/// FNV-1a (64 bit) of a byte sequence.
pub open spec fn fnv1a(b: Seq<u8>) -> u64
    decreases b.len(),
{
    if b.len() == 0 {
        0xcbf29ce484222325u64
    } else {
        vstd::wrapping::u64_specs::wrapping_mul(fnv1a(b.drop_last()) ^ (b.last() as u64), 0x100000001b3u64)
    }
}

/// The digest of a text: FNV-1a of its UTF-8 bytes, as 16 hex digits.
pub open spec fn digest_text(s: Seq<char>) -> Seq<char> {
    hex_digits(fnv1a(encode_utf8(s)) as nat, 16)
}

/// A short, stable digest of a text.
pub fn stable_digest(value: &str) -> (r: String)
    ensures
        r@ == digest_text(value@),
{
    let bytes = value.as_bytes();
    let mut hash: u64 = 0xcbf29ce484222325u64;
    let mut i: usize = 0;
    while i < bytes.len()
        invariant
            i <= bytes@.len(),
            bytes@ == encode_utf8(value@),
            hash == fnv1a(bytes@.take(i as int)),
        decreases bytes@.len() - i,
    {
        let ghost t = bytes@.take(i + 1);
        assert(t.drop_last() =~= bytes@.take(i as int));
        assert(t.last() == bytes@[i as int]);
        hash = (hash ^ (bytes[i] as u64)).wrapping_mul(0x100000001b3u64);
        i = i + 1;
    }
    assert(bytes@.take(bytes@.len() as int) =~= bytes@);
    hex_text(hash, 16)
}

// ---------------------------------------------------------------------
// Summaries

/// Position at or after `i` of the first text that sorts after `x` (or the end).
pub open spec fn text_slot(s: Seq<Seq<char>>, x: Seq<char>, i: int) -> int
    decreases s.len() - i,
{
    if i < 0 || i >= s.len() {
        s.len() as int
    } else if seq_less(x, s[i]) {
        i
    } else {
        text_slot(s, x, i + 1)
    }
}

/// The texts in ascending order (insertion sort).
pub open spec fn sort_texts(s: Seq<Seq<char>>) -> Seq<Seq<char>>
    decreases s.len(),
{
    if s.len() == 0 {
        s
    } else {
        let t = sort_texts(s.drop_last());
        t.insert(text_slot(t, s.last(), 0), s.last())
    }
}

/// Where `x` goes among the first `end` texts.
pub(crate) fn text_slot_exec(v: &Vec<String>, end: usize, x: &str) -> (r: usize)
    requires
        end <= v@.len(),
    ensures
        r as int == text_slot(strings_view(v@).take(end as int), x@, 0),
        r <= end,
{
    let ghost sv = strings_view(v@).take(end as int);
    let mut j: usize = 0;
    while j < end && !str_less(x, v[j].as_str())
        invariant
            j <= end <= v@.len(),
            sv == strings_view(v@).take(end as int),
            text_slot(sv, x@, 0) == text_slot(sv, x@, j as int),
        decreases end - j,
    {
        j = j + 1;
    }
    j
}

/// Sorts texts in ascending order.
fn sort_texts_exec(v: &mut Vec<String>)
    ensures
        strings_view(final(v)@) == sort_texts(strings_view(old(v)@)),
{
    let ghost orig = strings_view(v@);
    let mut i: usize = 0;
    assert(orig.take(0) =~= Seq::<Seq<char>>::empty());
    while i < v.len()
        invariant
            i <= v@.len() == orig.len(),
            strings_view(v@).take(i as int) == sort_texts(orig.take(i as int)),
            strings_view(v@).skip(i as int) == orig.skip(i as int),
        decreases v@.len() - i,
    {
        let ghost before = strings_view(v@);
        let ghost sorted = before.take(i as int);
        assert(before[i as int] == orig[i as int]) by {
            assert(before.skip(i as int)[0] == orig.skip(i as int)[0]);
        }
        let x = v.remove(i);
        let ghost mid = strings_view(v@);
        assert(mid =~= before.remove(i as int));
        assert(mid.take(i as int) =~= sorted);
        let pos = text_slot_exec(v, i, x.as_str());
        v.insert(pos, x);
        assert(strings_view(v@) =~= mid.insert(pos as int, x@));
        proof {
            let t = orig.take(i + 1);
            assert(t.drop_last() =~= orig.take(i as int));
            assert(t.last() == x@);
            let after = strings_view(v@);
            assert forall|j: int| 0 <= j < i + 1 implies #[trigger] after.take(i + 1)[j] == mid.take(i as int).insert(pos as int, x@)[j] by {
                if j < pos {
                } else if j == pos {
                } else {
                    assert(after[j] == mid[j - 1]);
                }
            }
            assert(after.take(i + 1) =~= mid.take(i as int).insert(pos as int, x@));
            assert forall|j: int| 0 <= j < after.len() - (i + 1) implies #[trigger] after.skip(i + 1)[j] == orig.skip(i + 1)[j] by {
                assert(after[i + 1 + j] == mid[i + j]);
                assert(mid[i + j] == before[i + 1 + j]);
                assert(before.skip(i as int)[1 + j] == orig.skip(i as int)[1 + j]);
            }
            assert(after.skip(i + 1) =~= orig.skip(i + 1));
        }
        i = i + 1;
    }
    assert(strings_view(v@).take(v@.len() as int) =~= strings_view(v@));
    assert(orig.take(orig.len() as int) =~= orig);
}

/// The semantic state of a subtree: its signature, node count and number
/// of nodes carrying a 1C fallback reason.
pub struct NodeSummaryV {
    pub signature: Seq<char>,
    pub node_count: nat,
    pub fallback_surface_count: nat,
}

/// Placeholder outside a sequence's bounds.
pub open spec fn empty_summary() -> NodeSummaryV {
    NodeSummaryV { signature: Seq::empty(), node_count: 0, fallback_surface_count: 0 }
}

/// The summaries of the children of `n`.
pub open spec fn child_summaries(n: NodeV) -> Seq<NodeSummaryV>
    decreases n, 0int,
{
    Seq::new(
        n.children.len(),
        |i: int|
            if 0 <= i < n.children.len() {
                node_summary(n.children[i])
            } else {
                empty_summary()
            },
    )
}

/// Total node count of summaries.
pub open spec fn count_sum(k: Seq<NodeSummaryV>) -> nat
    decreases k.len(),
{
    if k.len() == 0 {
        0
    } else {
        count_sum(k.drop_last()) + k.last().node_count
    }
}

/// Total fallback count of summaries.
pub open spec fn fallback_sum(k: Seq<NodeSummaryV>) -> nat
    decreases k.len(),
{
    if k.len() == 0 {
        0
    } else {
        fallback_sum(k.drop_last()) + k.last().fallback_surface_count
    }
}

/// The signatures of summaries.
pub open spec fn signatures(k: Seq<NodeSummaryV>) -> Seq<Seq<char>> {
    k.map_values(|x: NodeSummaryV| x.signature)
}

/// The semantic state of a subtree. Its signature names the backend, the
/// normalized control type, class, name and automation id, the confidence's
/// bits, the states, the properties and, in ascending order, the children's
/// signatures.
pub open spec fn node_summary(n: NodeV) -> NodeSummaryV
    decreases n, 1int,
{
    let kids = child_summaries(n);
    NodeSummaryV {
        signature: "backend="@ + backend_name(n.backend) + ";control="@ + normalized(n.control_type) + ";class="@
            + normalized_opt(n.class_name) + ";name="@ + normalized_opt(n.name) + ";automation="@ + normalized_opt(
            n.automation_id,
        ) + ";confidence="@ + hex_digits(narrow_f64(n.confidence_bits as nat), 8) + ";states="@ + states_text(n.states)
            + ";properties="@ + join(property_texts(n.properties), "|"@) + ";children=["@ + join(
            sort_texts(signatures(kids)),
            ","@,
        ) + "]"@,
        node_count: 1 + count_sum(kids),
        fallback_surface_count: (if prop_text(n.properties, "onec_fallback_reason"@) is Some { 1nat } else { 0nat })
            + fallback_sum(kids),
    }
}


/// A prefix's count sum grows by the next element and stays below the whole.
proof fn lemma_sums_prefix(k: Seq<NodeSummaryV>, i: int)
    requires
        0 <= i < k.len(),
    ensures
        count_sum(k.take(i + 1)) == count_sum(k.take(i)) + k[i].node_count,
        fallback_sum(k.take(i + 1)) == fallback_sum(k.take(i)) + k[i].fallback_surface_count,
        count_sum(k.take(i + 1)) <= count_sum(k),
{
    assert(k.take(i + 1).drop_last() =~= k.take(i));
    lemma_count_take_bounded(k, i + 1);
}

/// A prefix's count sum is at most the whole's.
proof fn lemma_count_take_bounded(k: Seq<NodeSummaryV>, i: int)
    requires
        0 <= i <= k.len(),
    ensures
        count_sum(k.take(i)) <= count_sum(k),
    decreases k.len() - i,
{
    if i < k.len() {
        lemma_count_take_bounded(k, i + 1);
        assert(k.take(i + 1).drop_last() =~= k.take(i));
    } else {
        assert(k.take(i) =~= k);
    }
}

/// Fallback sums stay below count sums when each element's does.
proof fn lemma_fallback_sum_le(k: Seq<NodeSummaryV>)
    requires
        forall|i: int| 0 <= i < k.len() ==> (#[trigger] k[i]).fallback_surface_count <= k[i].node_count,
    ensures
        fallback_sum(k) <= count_sum(k),
    decreases k.len(),
{
    if k.len() > 0 {
        lemma_fallback_sum_le(k.drop_last());
        assert(k.last() == k[k.len() - 1]);
    }
}

/// A subtree has at most as many fallback surfaces as nodes.
pub proof fn lemma_fallback_le_count(n: NodeV)
    ensures
        node_summary(n).fallback_surface_count <= node_summary(n).node_count,
    decreases n,
{
    let kids = child_summaries(n);
    assert forall|i: int| 0 <= i < kids.len() implies (#[trigger] kids[i]).fallback_surface_count <= kids[i].node_count by {
        lemma_fallback_le_count(n.children[i]);
    }
    lemma_fallback_sum_le(kids);
}

/// The semantic state of a subtree.
#[derive(Clone, Debug, PartialEq, Eq)]
pub struct NodeSemanticState {
    pub signature: String,
    pub node_count: usize,
    pub fallback_surface_count: usize,
}

/// The semantic state of a subtree (see `node_summary`).
pub fn summarize_node(node: &ElementNode) -> (r: NodeSemanticState)
    requires
        node_summary(node@).node_count <= usize::MAX,
    ensures
        r.signature@ == node_summary(node@).signature,
        r.node_count == node_summary(node@).node_count,
        r.fallback_surface_count == node_summary(node@).fallback_surface_count,
    decreases node,
{
    proof {
        lemma_children_view(*node);
    }
    let ghost kids = child_summaries(node@);
    let mut sigs: Vec<String> = Vec::new();
    let mut count: usize = 1;
    let mut fallback: usize = 0;
    let mut i: usize = 0;
    assert(kids.take(0) =~= Seq::<NodeSummaryV>::empty());
    assert(signatures(kids).take(0) =~= Seq::<Seq<char>>::empty());
    while i < node.children.len()
        invariant
            i <= node.children@.len(),
            node@.children == nodes_view(node.children@),
            kids == child_summaries(node@),
            kids.len() == node.children@.len(),
            strings_view(sigs@) == signatures(kids).take(i as int),
            count == 1 + count_sum(kids.take(i as int)),
            fallback == fallback_sum(kids.take(i as int)),
            fallback <= count,
            1 + count_sum(kids) <= usize::MAX,
        decreases node.children@.len() - i,
    {
        proof {
            lemma_sums_prefix(kids, i as int);
            lemma_fallback_le_count(node.children@[i as int]@);
            assert(kids[i as int] == node_summary(node.children@[i as int]@));
        }
        let c = summarize_node(&node.children[i]);
        count = count + c.node_count;
        fallback = fallback + c.fallback_surface_count;
        let ghost before = strings_view(sigs@);
        sigs.push(c.signature);
        assert(strings_view(sigs@) =~= before.push(kids[i as int].signature));
        assert(signatures(kids).take(i + 1) =~= signatures(kids).take(i as int).push(kids[i as int].signature));
        i = i + 1;
    }
    assert(kids.take(i as int) =~= kids);
    assert(signatures(kids).take(i as int) =~= signatures(kids));
    sort_texts_exec(&mut sigs);
    let mut t = String::from_str("backend=");
    t.append(backend_label(&node.backend));
    t.append(";control=");
    let control = normalize_text(node.control_type.as_str());
    t.append(control.as_str());
    t.append(";class=");
    let class = normalize_optional_text(opt_str(&node.class_name));
    t.append(class.as_str());
    t.append(";name=");
    let name = normalize_optional_text(opt_str(&node.name));
    t.append(name.as_str());
    t.append(";automation=");
    let automation = normalize_optional_text(opt_str(&node.automation_id));
    t.append(automation.as_str());
    t.append(";confidence=");
    let bits = narrow_f64_bits(node.confidence_bits);
    let conf = hex_text(bits as u64, 8);
    t.append(conf.as_str());
    t.append(";states=");
    let states = node_states_signature(&node.states);
    t.append(states.as_str());
    t.append(";properties=");
    let props = property_map_signature(&node.properties);
    t.append(props.as_str());
    t.append(";children=[");
    let children = join_exec(&sigs, ",");
    t.append(children.as_str());
    t.append("]");
    let has_fallback = property_string(&node.properties, "onec_fallback_reason").is_some();
    proof {
        reveal_strlit("onec_fallback_reason");
        lemma_fallback_le_count(node@);
    }
    let own: usize = if has_fallback { 1 } else { 0 };
    NodeSemanticState { signature: t, node_count: count, fallback_surface_count: own + fallback }
}


/// The summary of a window.
pub open spec fn window_summary(w: WindowV) -> SummaryV {
    let t = node_summary(w.root);
    SummaryV {
        title: w.title,
        process_name: w.process_name,
        backend: w.backend,
        confidence_bits: narrow_f64(w.confidence_bits as nat) as u32,
        width: w.bounds.width,
        height: w.bounds.height,
        onec_window_profile: prop_text(w.root.properties, "onec_window_profile"@),
        onec_fallback_reason: prop_text(w.root.properties, "onec_fallback_reason"@),
        root_control_type: w.root.control_type,
        root_class_name: w.root.class_name,
        root_name: w.root.name,
        root_automation_id: w.root.automation_id,
        tree_signature: t.signature,
        tree_digest: digest_text(t.signature),
        node_count: t.node_count as usize,
        fallback_surface_count: t.fallback_surface_count as usize,
    }
}

/// The tree of the window is small enough to be counted.
pub open spec fn countable(w: WindowV) -> bool {
    node_summary(w.root).node_count <= usize::MAX
}

/// The summary of a window (see `window_summary`).
pub fn summarize_window(window: &WindowState) -> (r: DiagnosticWindowSummary)
    requires
        countable(window@),
    ensures
        r@ == window_summary(window@),
{
    let tree = summarize_node(&window.root);
    proof {
        lemma_fallback_le_count(window@.root);
        reveal_strlit("onec_window_profile");
        reveal_strlit("onec_fallback_reason");
    }
    let digest = stable_digest(tree.signature.as_str());
    DiagnosticWindowSummary {
        title: window.title.clone(),
        process_name: crate::text::copy_opt_string(&window.process_name),
        backend: window.backend,
        confidence_bits: narrow_f64_bits(window.confidence_bits),
        width: window.bounds.width,
        height: window.bounds.height,
        onec_window_profile: property_string(&window.root.properties, "onec_window_profile"),
        onec_fallback_reason: property_string(&window.root.properties, "onec_fallback_reason"),
        root_control_type: window.root.control_type.clone(),
        root_class_name: crate::text::copy_opt_string(&window.root.class_name),
        root_name: crate::text::copy_opt_string(&window.root.name),
        root_automation_id: crate::text::copy_opt_string(&window.root.automation_id),
        tree_signature: tree.signature,
        tree_digest: digest,
        node_count: tree.node_count,
        fallback_surface_count: tree.fallback_surface_count,
    }
}

/// A summary differs from itself in no field.
pub proof fn lemma_no_change_from_itself(a: SummaryV)
    ensures
        changed_field_names(a, a) == Seq::<Seq<char>>::empty(),
{
    reveal(field_if);
    assert(changed_field_names(a, a) =~= Seq::<Seq<char>>::empty());
}

/// Pairing scores do not depend on which side is expected.
pub proof fn lemma_match_score_symmetric(e: SummaryV, a: SummaryV)
    ensures
        match_score(e, a) == match_score(a, e),
{
}


// ---------------------------------------------------------------------
// Snapshot comparison

/// A matched pair whose windows differ, with the names of the fields.
#[derive(Clone, Debug, PartialEq, Eq)]
pub struct ChangedWindow {
    pub pair: MatchedWindowPair,
    pub changed_fields: Vec<&'static str>,
}

/// How two snapshots of a session compare, window by window.
#[derive(Debug)]
pub struct SnapshotComparison {
    /// Summaries of the expected snapshot's windows, in its order.
    pub expected: Vec<DiagnosticWindowSummary>,
    /// Summaries of the actual snapshot's windows, in its order.
    pub actual: Vec<DiagnosticWindowSummary>,
    /// The pairs of windows taken for the same window.
    pub matched: Vec<MatchedWindowPair>,
    /// Positions of actual windows no expected window was paired with.
    pub added: Vec<usize>,
    /// Positions of expected windows no actual window was paired with.
    pub removed: Vec<usize>,
    /// The pairs whose windows differ.
    pub changed: Vec<ChangedWindow>,
    /// Same profile, and every window paired with an unchanged one.
    pub matches: bool,
}

/// Summaries of a snapshot's windows.
pub open spec fn summaries_of(ws: Seq<WindowV>) -> Seq<SummaryV> {
    ws.map_values(|w: WindowV| window_summary(w))
}

/// Some pair has position `k` on the given side (expected when `expected_side`).
pub open spec fn paired(pairs: Seq<(int, int, int)>, k: int, expected_side: bool) -> bool {
    exists|m: int| 0 <= m < pairs.len() && (if expected_side { (#[trigger] pairs[m]).0 == k } else { pairs[m].1 == k })
}

/// Positions from `k` up to `n` that no pair has on the given side.
pub open spec fn unpaired(pairs: Seq<(int, int, int)>, n: int, k: int, expected_side: bool) -> Seq<int>
    decreases n - k,
{
    if k < 0 || k >= n {
        Seq::empty()
    } else {
        (if paired(pairs, k, expected_side) { Seq::empty() } else { seq![k] }) + unpaired(pairs, n, k + 1, expected_side)
    }
}

/// The pairs from position `k` on whose windows differ, with the fields.
pub open spec fn changed_pairs(e: Seq<SummaryV>, a: Seq<SummaryV>, pairs: Seq<(int, int, int)>, k: int) -> Seq<((int, int, int), Seq<Seq<char>>)>
    decreases pairs.len() - k,
{
    if k < 0 || k >= pairs.len() {
        Seq::empty()
    } else {
        let f = changed_field_names(e[pairs[k].0], a[pairs[k].1]);
        (if f.len() == 0 { Seq::empty() } else { seq![(pairs[k], f)] }) + changed_pairs(e, a, pairs, k + 1)
    }
}

/// The view of a changed window.
pub open spec fn changed_view(c: ChangedWindow) -> ((int, int, int), Seq<Seq<char>>) {
    (pair_view(c.pair), c.changed_fields@.map_values(|s: &str| s@))
}

/// Positions as integers.
pub open spec fn positions_view(v: Seq<usize>) -> Seq<int> {
    v.map_values(|x: usize| x as int)
}

/// Whether two window locators are equal.
fn window_locator_equal(a: &WindowLocator, b: &WindowLocator) -> (r: bool)
    ensures
        r == (a@ == b@),
{
    let ids = match (&a.window_id, &b.window_id) {
        (Some(x), Some(y)) => string_equal(&x.0, &y.0),
        (None, None) => true,
        _ => false,
    };
    ids && opt_string_equal(&a.title, &b.title) && a.pid == b.pid && opt_string_equal(&a.process_name, &b.process_name)
        && opt_string_equal(&a.class_name, &b.class_name)
}

/// Whether two session profiles are equal.
pub fn profiles_equal(a: &SessionProfile, b: &SessionProfile) -> (r: bool)
    ensures
        r == (a@ == b@),
{
    let filters = match (&a.target_filter, &b.target_filter) {
        (Some(x), Some(y)) => window_locator_equal(x, y),
        (None, None) => true,
        _ => false,
    };
    a.observation_scope == b.observation_scope && a.domain_profile == b.domain_profile && filters
}

/// Summaries of all windows.
fn summarize_all(ws: &Vec<WindowState>) -> (r: Vec<DiagnosticWindowSummary>)
    requires
        forall|i: int| 0 <= i < ws@.len() ==> countable(#[trigger] ws@[i]@),
    ensures
        summaries_view(r@) == summaries_of(crate::model::windows_view(ws@)),
{
    let mut out: Vec<DiagnosticWindowSummary> = Vec::new();
    let mut i: usize = 0;
    while i < ws.len()
        invariant
            i <= ws@.len(),
            forall|k: int| 0 <= k < ws@.len() ==> countable(#[trigger] ws@[k]@),
            out@.len() == i,
            forall|k: int| 0 <= k < i ==> (#[trigger] out@[k])@ == window_summary(ws@[k]@),
        decreases ws@.len() - i,
    {
        out.push(summarize_window(&ws[i]));
        i = i + 1;
    }
    assert(summaries_view(out@) =~= summaries_of(crate::model::windows_view(ws@)));
    out
}

/// Whether some pair has position `k` on the given side.
fn is_paired(pairs: &Vec<MatchedWindowPair>, k: usize, expected_side: bool) -> (r: bool)
    ensures
        r == paired(pairs@.map_values(|p: MatchedWindowPair| pair_view(p)), k as int, expected_side),
{
    let ghost pv = pairs@.map_values(|p: MatchedWindowPair| pair_view(p));
    let mut m: usize = 0;
    while m < pairs.len()
        invariant
            m <= pairs@.len(),
            pv == pairs@.map_values(|p: MatchedWindowPair| pair_view(p)),
            forall|x: int| 0 <= x < m ==> !(if expected_side { (#[trigger] pv[x]).0 == k } else { pv[x].1 == k }),
        decreases pairs@.len() - m,
    {
        let hit = if expected_side { pairs[m].expected_idx == k } else { pairs[m].actual_idx == k };
        if hit {
            assert(if expected_side { pv[m as int].0 == k } else { pv[m as int].1 == k });
            return true;
        }
        m = m + 1;
    }
    false
}

/// Positions below `n` no pair has on the given side, ascending.
fn unpaired_exec(pairs: &Vec<MatchedWindowPair>, n: usize, expected_side: bool) -> (r: Vec<usize>)
    ensures
        positions_view(r@) == unpaired(pairs@.map_values(|p: MatchedWindowPair| pair_view(p)), n as int, 0, expected_side),
        forall|i: int| 0 <= i < r@.len() ==> #[trigger] r@[i] < n,
{
    let ghost pv = pairs@.map_values(|p: MatchedWindowPair| pair_view(p));
    let mut out: Vec<usize> = Vec::new();
    let mut k: usize = 0;
    while k < n
        invariant
            k <= n,
            pv == pairs@.map_values(|p: MatchedWindowPair| pair_view(p)),
            positions_view(out@) + unpaired(pv, n as int, k as int, expected_side) == unpaired(pv, n as int, 0, expected_side),
            forall|i: int| 0 <= i < out@.len() ==> #[trigger] out@[i] < k,
        decreases n - k,
    {
        let ghost before = positions_view(out@);
        if !is_paired(pairs, k, expected_side) {
            out.push(k);
            assert(positions_view(out@) =~= before.push(k as int));
        } else {
            assert(positions_view(out@) =~= before);
        }
        assert(unpaired(pv, n as int, k as int, expected_side) =~= (if paired(pv, k as int, expected_side) {
            Seq::<int>::empty()
        } else {
            seq![k as int]
        }) + unpaired(pv, n as int, k + 1, expected_side));
        k = k + 1;
    }
    assert(unpaired(pv, n as int, n as int, expected_side) =~= Seq::<int>::empty());
    assert(positions_view(out@) + Seq::<int>::empty() =~= positions_view(out@));
    out
}

/// `r` is how `expected` and `actual` compare (see `compare_snapshots`).
pub open spec fn is_comparison(r: SnapshotComparison, expected: SnapshotV, actual: SnapshotV) -> bool {
    let pairs = window_pairs(summaries_of(expected.windows), summaries_of(actual.windows));
    &&& summaries_view(r.expected@) == summaries_of(expected.windows)
    &&& summaries_view(r.actual@) == summaries_of(actual.windows)
    &&& r.matched@.map_values(|p: MatchedWindowPair| pair_view(p)) == pairs
    &&& positions_view(r.added@) == unpaired(pairs, actual.windows.len() as int, 0, false)
    &&& positions_view(r.removed@) == unpaired(pairs, expected.windows.len() as int, 0, true)
    &&& r.changed@.map_values(|c: ChangedWindow| changed_view(c)) == changed_pairs(
        summaries_of(expected.windows),
        summaries_of(actual.windows),
        pairs,
        0,
    )
    &&& r.matches == (expected.profile == actual.profile && r.added@.len() == 0 && r.removed@.len() == 0 && r.changed@.len() == 0)
}

/// Compares two snapshots window by window: pairs windows by `match_windows`,
/// lists the unpaired ones and the fields in which paired ones differ.
pub fn compare_snapshots(expected: &UiSnapshot, actual: &UiSnapshot) -> (r: SnapshotComparison)
    requires
        forall|i: int| 0 <= i < expected@.windows.len() ==> countable(#[trigger] expected@.windows[i]),
        forall|i: int| 0 <= i < actual@.windows.len() ==> countable(#[trigger] actual@.windows[i]),
    ensures
        summaries_view(r.expected@) == summaries_of(expected@.windows),
        summaries_view(r.actual@) == summaries_of(actual@.windows),
        r.matched@.map_values(|p: MatchedWindowPair| pair_view(p)) == window_pairs(summaries_of(expected@.windows), summaries_of(actual@.windows)),
        positions_view(r.added@) == unpaired(window_pairs(summaries_of(expected@.windows), summaries_of(actual@.windows)), actual@.windows.len() as int, 0, false),
        positions_view(r.removed@) == unpaired(window_pairs(summaries_of(expected@.windows), summaries_of(actual@.windows)), expected@.windows.len() as int, 0, true),
        r.changed@.map_values(|c: ChangedWindow| changed_view(c)) == changed_pairs(
            summaries_of(expected@.windows),
            summaries_of(actual@.windows),
            window_pairs(summaries_of(expected@.windows), summaries_of(actual@.windows)),
            0,
        ),
        r.matches == (expected@.profile == actual@.profile && r.added@.len() == 0 && r.removed@.len() == 0 && r.changed@.len() == 0),
        is_comparison(r, expected@, actual@),
{
    proof {
        assert forall|i: int| 0 <= i < expected.windows@.len() implies countable(#[trigger] expected.windows@[i]@) by {
            assert(expected@.windows[i] == expected.windows@[i]@);
        }
        assert forall|i: int| 0 <= i < actual.windows@.len() implies countable(#[trigger] actual.windows@[i]@) by {
            assert(actual@.windows[i] == actual.windows@[i]@);
        }
    }
    let es = summarize_all(&expected.windows);
    let acts = summarize_all(&actual.windows);
    let ghost ev = summaries_view(es@);
    let ghost av = summaries_view(acts@);
    let matched = match_windows(&es, &acts);
    let ghost pv = matched@.map_values(|p: MatchedWindowPair| pair_view(p));
    let added = unpaired_exec(&matched, acts.len(), false);
    let removed = unpaired_exec(&matched, es.len(), true);
    let mut changed: Vec<ChangedWindow> = Vec::new();
    let mut k: usize = 0;
    while k < matched.len()
        invariant
            k <= matched@.len(),
            ev == summaries_view(es@),
            av == summaries_view(acts@),
            pv == matched@.map_values(|p: MatchedWindowPair| pair_view(p)),
            forall|m: int| 0 <= m < matched@.len() ==> (#[trigger] matched@[m]).expected_idx < es@.len() && matched@[m].actual_idx < acts@.len(),
            changed@.map_values(|c: ChangedWindow| changed_view(c)) + changed_pairs(ev, av, pv, k as int) == changed_pairs(ev, av, pv, 0),
        decreases matched@.len() - k,
    {
        let p = matched[k];
        let fields = es[p.expected_idx].changed_fields(&acts[p.actual_idx]);
        let ghost before = changed@.map_values(|c: ChangedWindow| changed_view(c));
        let ghost f = fields@.map_values(|s: &str| s@);
        assert(pv[k as int] == pair_view(p));
        assert(changed_pairs(ev, av, pv, k as int) == (if f.len() == 0 {
            Seq::empty()
        } else {
            seq![(pv[k as int], f)]
        }) + changed_pairs(ev, av, pv, k + 1));
        if fields.len() > 0 {
            changed.push(ChangedWindow { pair: p, changed_fields: fields });
            assert(changed@.map_values(|c: ChangedWindow| changed_view(c)) =~= before.push((pair_view(p), f)));
        } else {
            assert(f =~= Seq::<Seq<char>>::empty());
        }
        k = k + 1;
    }
    assert(changed_pairs(ev, av, pv, matched@.len() as int) =~= Seq::<((int, int, int), Seq<Seq<char>>)>::empty());
    assert(changed@.map_values(|c: ChangedWindow| changed_view(c)) + Seq::<((int, int, int), Seq<Seq<char>>)>::empty() =~= changed@.map_values(|c: ChangedWindow| changed_view(c)));
    let matches = profiles_equal(&expected.profile, &actual.profile) && added.len() == 0 && removed.len() == 0
        && changed.len() == 0;
    SnapshotComparison { expected: es, actual: acts, matched, added, removed, changed, matches }
}

} // verus!
