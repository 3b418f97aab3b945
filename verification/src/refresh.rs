//! Refresh hints from the Windows observers, and how a burst of them is
//! coalesced into the captures to perform.
use vstd::prelude::*;

use crate::text::str_equal;

verus! {

/// Which observer raised a hint; later variants rank higher.
#[derive(Clone, Copy, Debug, PartialEq, Eq, Structural)]
pub enum HintSource {
    Uia,
    WinEvent,
    Msaa,
}

/// Rank of a hint source (Uia < WinEvent < Msaa).
pub open spec fn hint_rank(s: HintSource) -> nat {
    match s {
        HintSource::Uia => 0,
        HintSource::WinEvent => 1,
        HintSource::Msaa => 2,
    }
}

/// The rank of a hint source.
pub fn hint_rank_exec(s: HintSource) -> (r: u8)
    ensures
        r == hint_rank(s),
{
    match s {
        HintSource::Uia => 0,
        HintSource::WinEvent => 1,
        HintSource::Msaa => 2,
    }
}

/// What to capture again.
#[derive(Clone, Copy, Debug, PartialEq, Eq, Structural)]
pub enum RefreshScope {
    Desktop,
    Window { hwnd: usize },
}

/// A request to capture a scope again.
#[derive(Clone, Debug, PartialEq, Eq)]
pub struct RefreshRequest {
    pub scope: RefreshScope,
    pub source: HintSource,
    pub reason: String,
}

/// View of a refresh request.
pub struct RequestV {
    pub scope: RefreshScope,
    pub source: HintSource,
    pub reason: Seq<char>,
}

impl View for RefreshRequest {
    type V = RequestV;

    open spec fn view(&self) -> RequestV {
        RequestV { scope: self.scope, source: self.source, reason: self.reason@ }
    }
}

impl RefreshRequest {
    /// A desktop-wide refresh.
    pub fn desktop(source: HintSource, reason: &str) -> (r: Self)
        ensures
            r@ == (RequestV { scope: RefreshScope::Desktop, source, reason: reason@ }),
    {
        RefreshRequest { scope: RefreshScope::Desktop, source, reason: String::from_str(reason) }
    }

    /// A refresh of the window with handle `hwnd`.
    pub fn window(hwnd: usize, source: HintSource, reason: &str) -> (r: Self)
        ensures
            r@ == (RequestV { scope: RefreshScope::Window { hwnd }, source, reason: reason@ }),
    {
        RefreshRequest { scope: RefreshScope::Window { hwnd }, source, reason: String::from_str(reason) }
    }
}

/// Two reasons joined: the same or an empty one adds nothing, else `a; b`.
pub open spec fn merged_reason(current: Seq<char>, incoming: Seq<char>) -> Seq<char> {
    if current == incoming || incoming.len() == 0 {
        current
    } else if current.len() == 0 {
        incoming
    } else {
        current + "; "@ + incoming
    }
}

/// Joins two refresh reasons.
pub fn merge_reason(current: &str, incoming: &str) -> (r: String)
    ensures
        r@ == merged_reason(current@, incoming@),
{
    if str_equal(current, incoming) || incoming.unicode_len() == 0 {
        String::from_str(current)
    } else if current.unicode_len() == 0 {
        String::from_str(incoming)
    } else {
        let mut t = String::from_str(current);
        t.append("; ");
        t.append(incoming);
        t
    }
}

/// A request merged with a later one for the same scope: the higher-ranked
/// source, and both reasons.
pub open spec fn merged(current: RequestV, incoming: RequestV) -> RequestV {
    RequestV {
        scope: current.scope,
        source: if hint_rank(incoming.source) > hint_rank(current.source) {
            incoming.source
        } else {
            current.source
        },
        reason: merged_reason(current.reason, incoming.reason),
    }
}

/// Merges a later request into `current`.
pub fn merge_refresh_request(current: RefreshRequest, incoming: RefreshRequest) -> (r: RefreshRequest)
    ensures
        r@ == merged(current@, incoming@),
{
    let mut current = current;
    if hint_rank_exec(incoming.source) > hint_rank_exec(current.source) {
        current.source = incoming.source;
    }
    current.reason = merge_reason(current.reason.as_str(), incoming.reason.as_str());
    current
}

/// The desktop requests merged in order, if there is one.
pub open spec fn desktop_batch(rs: Seq<RequestV>) -> Option<RequestV>
    decreases rs.len(),
{
    if rs.len() == 0 {
        None
    } else {
        let prev = desktop_batch(rs.drop_last());
        let r = rs.last();
        if r.scope is Desktop {
            match prev {
                Some(d) => Some(merged(d, r)),
                None => Some(r),
            }
        } else {
            prev
        }
    }
}

/// The handle a window request names.
pub open spec fn hwnd_of(r: RequestV) -> usize {
    match r.scope {
        RefreshScope::Window { hwnd } => hwnd,
        RefreshScope::Desktop => 0,
    }
}

/// Position at or after `i` of the request for `hwnd`.
pub open spec fn hwnd_index(ws: Seq<RequestV>, hwnd: usize, i: int) -> Option<int>
    decreases ws.len() - i,
{
    if i < 0 || i >= ws.len() {
        None
    } else if hwnd_of(ws[i]) == hwnd {
        Some(i)
    } else {
        hwnd_index(ws, hwnd, i + 1)
    }
}

/// First position at or after `i` with a larger handle (or the end).
pub open spec fn hwnd_slot(ws: Seq<RequestV>, hwnd: usize, i: int) -> int
    decreases ws.len() - i,
{
    if i < 0 || i >= ws.len() {
        ws.len() as int
    } else if hwnd_of(ws[i]) > hwnd {
        i
    } else {
        hwnd_slot(ws, hwnd, i + 1)
    }
}

/// Adds a window request: merged into the one for the same handle, or
/// placed in handle order.
pub open spec fn add_window_request(ws: Seq<RequestV>, r: RequestV) -> Seq<RequestV> {
    match hwnd_index(ws, hwnd_of(r), 0) {
        Some(i) => ws.update(i, merged(ws[i], r)),
        None => ws.insert(hwnd_slot(ws, hwnd_of(r), 0), r),
    }
}

/// One merged request per window handle, by ascending handle.
pub open spec fn window_batch(rs: Seq<RequestV>) -> Seq<RequestV>
    decreases rs.len(),
{
    if rs.len() == 0 {
        Seq::empty()
    } else {
        let w = window_batch(rs.drop_last());
        if rs.last().scope is Window {
            add_window_request(w, rs.last())
        } else {
            w
        }
    }
}

/// A burst of requests coalesced: a single desktop refresh when any asks for
/// the desktop, else one request per window by ascending handle.
pub open spec fn coalesced(rs: Seq<RequestV>) -> Seq<RequestV> {
    match desktop_batch(rs) {
        Some(d) => seq![d],
        None => window_batch(rs),
    }
}

/// Coalesces a burst of refresh requests (see `coalesced`).
pub fn coalesce_refresh_requests(requests: Vec<RefreshRequest>) -> (r: Vec<RefreshRequest>)
    ensures
        r@.map_values(|q: RefreshRequest| q@) == coalesced(requests@.map_values(|q: RefreshRequest| q@)),
{
    let ghost rv = requests@.map_values(|q: RefreshRequest| q@);
    let mut desktop: Option<RefreshRequest> = None;
    let mut windows: Vec<RefreshRequest> = Vec::new();
    let mut requests = requests;
    let mut i: usize = 0;
    let n = requests.len();
    assert(rv.take(0) =~= Seq::<RequestV>::empty());
    while requests.len() > 0
        invariant
            n == rv.len(),
            i + requests@.len() == n,
            requests@.map_values(|q: RefreshRequest| q@) == rv.skip(i as int),
            match desktop {
                Some(d) => desktop_batch(rv.take(i as int)) == Some(d@),
                None => desktop_batch(rv.take(i as int)) is None,
            },
            windows@.map_values(|q: RefreshRequest| q@) == window_batch(rv.take(i as int)),
        decreases requests@.len(),
    {
        let ghost before = requests@.map_values(|q: RefreshRequest| q@);
        let ghost old_reqs = requests@;
        let req = requests.remove(0);
        assert(requests@ == old_reqs.remove(0));
        assert(requests@.map_values(|q: RefreshRequest| q@) =~= before.drop_first());
        proof {
            assert(before[0] == req@);
            assert(rv.skip(i as int)[0] == rv[i as int]);
            assert(rv.take(i + 1).drop_last() =~= rv.take(i as int));
            assert(rv.take(i + 1).last() == req@);
            assert(before.drop_first() =~= rv.skip(i + 1));
        }
        match req.scope {
            RefreshScope::Desktop => {
                desktop = match desktop {
                    Some(existing) => Some(merge_refresh_request(existing, req)),
                    None => Some(req),
                };
            },
            RefreshScope::Window { .. } => {
                add_window_exec(&mut windows, req);
            },
        }
        i = i + 1;
    }
    assert(rv.take(i as int) =~= rv);
    match desktop {
        Some(d) => {
            let mut out: Vec<RefreshRequest> = Vec::new();
            out.push(d);
            assert(out@.map_values(|q: RefreshRequest| q@) =~= seq![d@]);
            out
        },
        None => windows,
    }
}

/// The window handle a request names (0 for the desktop).
fn request_hwnd(r: &RefreshRequest) -> (h: usize)
    ensures
        h == hwnd_of(r@),
{
    match r.scope {
        RefreshScope::Window { hwnd } => hwnd,
        RefreshScope::Desktop => 0,
    }
}

/// Adds a window request to the per-handle list (see `add_window_request`).
fn add_window_exec(ws: &mut Vec<RefreshRequest>, r: RefreshRequest)
    requires
        r.scope is Window,
    ensures
        final(ws)@.map_values(|q: RefreshRequest| q@) == add_window_request(old(ws)@.map_values(|q: RefreshRequest| q@), r@),
{
    let ghost wv = ws@.map_values(|q: RefreshRequest| q@);
    let hwnd = request_hwnd(&r);
    let mut i: usize = 0;
    while i < ws.len()
        invariant
            i <= ws@.len(),
            wv == ws@.map_values(|q: RefreshRequest| q@),
            wv == old(ws)@.map_values(|q: RefreshRequest| q@),
            hwnd == hwnd_of(r@),
            hwnd_index(wv, hwnd, 0) == hwnd_index(wv, hwnd, i as int),
        decreases ws@.len() - i,
    {
        let h = request_hwnd(&ws[i]);
        if h == hwnd {
            let existing = ws.remove(i);
            let m = merge_refresh_request(existing, r);
            ws.insert(i, m);
            assert(ws@.map_values(|q: RefreshRequest| q@) =~= wv.update(i as int, merged(wv[i as int], r@)));
            return;
        }
        i = i + 1;
    }
    let mut j: usize = 0;
    while j < ws.len() && request_hwnd(&ws[j]) <= hwnd
        invariant
            j <= ws@.len(),
            wv == ws@.map_values(|q: RefreshRequest| q@),
            hwnd == hwnd_of(r@),
            hwnd_slot(wv, hwnd, 0) == hwnd_slot(wv, hwnd, j as int),
        decreases ws@.len() - j,
    {
        j = j + 1;
    }
    ws.insert(j, r);
    assert(ws@.map_values(|q: RefreshRequest| q@) =~= wv.insert(j as int, r@));
}

/// The desktop batch exists exactly when some request asks for the desktop,
/// and is then a desktop request.
pub proof fn lemma_desktop_batch(rs: Seq<RequestV>)
    ensures
        desktop_batch(rs) is Some <==> exists|i: int| 0 <= i < rs.len() && #[trigger] rs[i].scope is Desktop,
        desktop_batch(rs) matches Some(d) ==> d.scope is Desktop,
    decreases rs.len(),
{
    if rs.len() > 0 {
        lemma_desktop_batch(rs.drop_last());
        if exists|i: int| 0 <= i < rs.drop_last().len() && #[trigger] rs.drop_last()[i].scope is Desktop {
            let i = choose|i: int| 0 <= i < rs.drop_last().len() && #[trigger] rs.drop_last()[i].scope is Desktop;
            assert(rs[i].scope is Desktop);
        }
        if exists|i: int| 0 <= i < rs.len() && #[trigger] rs[i].scope is Desktop {
            let i = choose|i: int| 0 <= i < rs.len() && #[trigger] rs[i].scope is Desktop;
            if i < rs.len() - 1 {
                assert(rs.drop_last()[i].scope is Desktop);
            }
        }
    }
}

/// A desktop request anywhere in a burst makes it a single desktop refresh.
pub proof fn lemma_desktop_trumps_windows(rs: Seq<RequestV>, i: int)
    requires
        0 <= i < rs.len(),
        rs[i].scope is Desktop,
    ensures
        coalesced(rs).len() == 1,
        coalesced(rs)[0].scope is Desktop,
{
    lemma_desktop_batch(rs);
}

/// The per-window batch holds window requests with strictly ascending handles.
pub proof fn lemma_window_batch_sorted(rs: Seq<RequestV>)
    ensures
        forall|i: int| 0 <= i < window_batch(rs).len() ==> #[trigger] window_batch(rs)[i].scope is Window,
        forall|i: int, j: int| 0 <= i < j < window_batch(rs).len() ==> hwnd_of(#[trigger] window_batch(rs)[i]) < hwnd_of(#[trigger] window_batch(rs)[j]),
    decreases rs.len(),
{
    if rs.len() > 0 {
        lemma_window_batch_sorted(rs.drop_last());
        let w = window_batch(rs.drop_last());
        let r = rs.last();
        if r.scope is Window {
            let h = hwnd_of(r);
            lemma_hwnd_index(w, h, 0);
            lemma_hwnd_slot(w, h, 0);
            match hwnd_index(w, h, 0) {
                Some(k) => {
                    let w2 = w.update(k, merged(w[k], r));
                    assert(window_batch(rs) == w2);
                    assert forall|i: int, j: int| 0 <= i < j < w2.len() implies hwnd_of(#[trigger] w2[i]) < hwnd_of(#[trigger] w2[j]) by {
                        assert(hwnd_of(w2[i]) == hwnd_of(w[i]));
                        assert(hwnd_of(w2[j]) == hwnd_of(w[j]));
                    }
                },
                None => {
                    let u = hwnd_slot(w, h, 0);
                    let w2 = w.insert(u, r);
                    assert(window_batch(rs) == w2);
                    assert forall|i: int, j: int| 0 <= i < j < w2.len() implies hwnd_of(#[trigger] w2[i]) < hwnd_of(#[trigger] w2[j]) by {
                        if j < u {
                        } else if j == u {
                            assert(hwnd_of(w[i]) <= h);
                            assert(hwnd_of(w[i]) != h);
                        } else if i == u {
                            assert(w2[j] == w[j - 1]);
                            if j - 1 > u {
                                assert(hwnd_of(w[u]) < hwnd_of(w[j - 1]));
                            }
                        } else if i < u {
                            assert(w2[j] == w[j - 1]);
                        } else {
                            assert(w2[i] == w[i - 1] && w2[j] == w[j - 1]);
                        }
                    }
                },
            }
        }
    }
}

/// Some request of the burst asks for the window with handle `h`.
pub open spec fn asks(rs: Seq<RequestV>, h: usize) -> bool
    decreases rs.len(),
{
    if rs.len() == 0 {
        false
    } else {
        asks(rs.drop_last(), h) || rs.last().scope == (RefreshScope::Window { hwnd: h })
    }
}

/// The highest rank among the sources of the requests for the window with
/// handle `h` (zero when there are none).
pub open spec fn top_rank(rs: Seq<RequestV>, h: usize) -> nat
    decreases rs.len(),
{
    if rs.len() == 0 {
        0
    } else {
        let m = top_rank(rs.drop_last(), h);
        if rs.last().scope == (RefreshScope::Window { hwnd: h }) && hint_rank(rs.last().source) > m {
            hint_rank(rs.last().source)
        } else {
            m
        }
    }
}

/// The per-window batch has one request for each window asked for and no
/// other, each with the highest-ranked source among the requests for its
/// window, and is no longer than the burst.
pub proof fn lemma_window_batch_covers(rs: Seq<RequestV>)
    ensures
        window_batch(rs).len() <= rs.len(),
        forall|i: int| 0 <= i < window_batch(rs).len() ==> asks(rs, hwnd_of(#[trigger] window_batch(rs)[i]))
            && hint_rank(window_batch(rs)[i].source) == top_rank(rs, hwnd_of(window_batch(rs)[i])),
        forall|h: usize| #[trigger] asks(rs, h) ==> exists|i: int| 0 <= i < window_batch(rs).len() && hwnd_of(#[trigger] window_batch(rs)[i]) == h,
    decreases rs.len(),
{
    if rs.len() > 0 {
        let d = rs.drop_last();
        lemma_window_batch_covers(d);
        lemma_window_batch_sorted(d);
        let w = window_batch(d);
        let r = rs.last();
        if r.scope is Window {
            let h = hwnd_of(r);
            assert(r.scope == (RefreshScope::Window { hwnd: h }));
            lemma_hwnd_index(w, h, 0);
            lemma_hwnd_slot(w, h, 0);
            match hwnd_index(w, h, 0) {
                Some(k) => {
                    let w2 = w.update(k, merged(w[k], r));
                    assert(window_batch(rs) == w2);
                    assert forall|i: int| 0 <= i < w2.len() implies asks(rs, hwnd_of(#[trigger] w2[i]))
                        && hint_rank(w2[i].source) == top_rank(rs, hwnd_of(w2[i])) by {
                        assert(hwnd_of(w2[i]) == hwnd_of(w[i]));
                    }
                    assert forall|g: usize| #[trigger] asks(rs, g) implies exists|i: int| 0 <= i < w2.len() && hwnd_of(#[trigger] w2[i]) == g by {
                        if g == h {
                            assert(hwnd_of(w2[k]) == g);
                        } else {
                            assert(asks(d, g));
                            let i = choose|i: int| 0 <= i < w.len() && hwnd_of(#[trigger] w[i]) == g;
                            assert(hwnd_of(w2[i]) == g);
                        }
                    }
                },
                None => {
                    let u = hwnd_slot(w, h, 0);
                    let w2 = w.insert(u, r);
                    assert(window_batch(rs) == w2);
                    assert(!asks(d, h)) by {
                        if asks(d, h) {
                            let i = choose|i: int| 0 <= i < w.len() && hwnd_of(#[trigger] w[i]) == h;
                        }
                    }
                    assert(top_rank(d, h) == 0) by {
                        lemma_top_rank_unasked(d, h);
                    }
                    assert forall|i: int| 0 <= i < w2.len() implies asks(rs, hwnd_of(#[trigger] w2[i]))
                        && hint_rank(w2[i].source) == top_rank(rs, hwnd_of(w2[i])) by {
                        if i < u {
                            assert(w2[i] == w[i]);
                            assert(hwnd_of(w[i]) != h);
                        } else if i > u {
                            assert(w2[i] == w[i - 1]);
                            assert(hwnd_of(w[i - 1]) != h);
                        }
                    }
                    assert forall|g: usize| #[trigger] asks(rs, g) implies exists|i: int| 0 <= i < w2.len() && hwnd_of(#[trigger] w2[i]) == g by {
                        if g == h {
                            assert(hwnd_of(w2[u]) == g);
                        } else {
                            assert(asks(d, g));
                            let i = choose|i: int| 0 <= i < w.len() && hwnd_of(#[trigger] w[i]) == g;
                            if i < u {
                                assert(hwnd_of(w2[i]) == g);
                            } else {
                                assert(hwnd_of(w2[i + 1]) == g);
                            }
                        }
                    }
                },
            }
        } else {
            assert forall|g: usize| #[trigger] asks(rs, g) implies exists|i: int| 0 <= i < w.len() && hwnd_of(#[trigger] w[i]) == g by {
                assert(asks(d, g));
            }
        }
    }
}

/// No request asks for the window: its top rank is zero.
proof fn lemma_top_rank_unasked(rs: Seq<RequestV>, h: usize)
    requires
        !asks(rs, h),
    ensures
        top_rank(rs, h) == 0,
    decreases rs.len(),
{
    if rs.len() > 0 {
        lemma_top_rank_unasked(rs.drop_last(), h);
    }
}

/// A burst is coalesced into one refresh per window asked for, in
/// ascending handle order, each with the highest-ranked source among the
/// requests for its window; or, when any request asks for the desktop, into
/// a single desktop refresh. Never more refreshes than requests.
pub proof fn lemma_coalesced_requests(rs: Seq<RequestV>)
    ensures
        coalesced(rs).len() <= rs.len(),
        desktop_batch(rs) is Some ==> coalesced(rs).len() == 1 && coalesced(rs)[0].scope is Desktop,
        desktop_batch(rs) is None ==> {
            let c = coalesced(rs);
            &&& forall|i: int, j: int| 0 <= i < j < c.len() ==> hwnd_of(#[trigger] c[i]) < hwnd_of(#[trigger] c[j])
            &&& forall|i: int| 0 <= i < c.len() ==> (#[trigger] c[i]).scope is Window && asks(rs, hwnd_of(c[i]))
                && hint_rank(c[i].source) == top_rank(rs, hwnd_of(c[i]))
            &&& forall|h: usize| #[trigger] asks(rs, h) ==> exists|i: int| 0 <= i < c.len() && hwnd_of(#[trigger] c[i]) == h
        },
{
    lemma_desktop_batch(rs);
    lemma_window_batch_sorted(rs);
    lemma_window_batch_covers(rs);
    if desktop_batch(rs) is Some {
        let i = choose|i: int| 0 <= i < rs.len() && #[trigger] rs[i].scope is Desktop;
        assert(rs.len() >= 1);
    }
}

/// What the handle search finds.
proof fn lemma_hwnd_index(ws: Seq<RequestV>, h: usize, i: int)
    requires
        0 <= i,
    ensures
        hwnd_index(ws, h, i) matches Some(k) ==> i <= k < ws.len() && hwnd_of(ws[k]) == h,
        hwnd_index(ws, h, i) is None ==> forall|j: int| i <= j < ws.len() ==> hwnd_of(#[trigger] ws[j]) != h,
    decreases ws.len() - i,
{
    if 0 <= i < ws.len() && hwnd_of(ws[i]) != h {
        lemma_hwnd_index(ws, h, i + 1);
    }
}

/// What the slot search finds.
proof fn lemma_hwnd_slot(ws: Seq<RequestV>, h: usize, i: int)
    requires
        0 <= i <= ws.len(),
    ensures
        i <= hwnd_slot(ws, h, i) <= ws.len(),
        forall|j: int| i <= j < hwnd_slot(ws, h, i) ==> hwnd_of(#[trigger] ws[j]) <= h,
        hwnd_slot(ws, h, i) < ws.len() ==> hwnd_of(ws[hwnd_slot(ws, h, i)]) > h,
    decreases ws.len() - i,
{
    if i < ws.len() && hwnd_of(ws[i]) <= h {
        lemma_hwnd_slot(ws, h, i + 1);
    }
}

/// A merged reason keeps both reasons.
pub proof fn lemma_merged_reason_keeps_both(a: Seq<char>, b: Seq<char>)
    ensures
        crate::text::seq_contains(merged_reason(a, b), a),
        crate::text::seq_contains(merged_reason(a, b), b),
{
    let m = merged_reason(a, b);
    if a == b || b.len() == 0 {
        assert(m.subrange(0, a.len() as int) =~= a);
        assert(crate::text::occurs_at(m, a, 0));
        if b.len() == 0 {
            assert(m.subrange(0, 0) =~= b);
            assert(crate::text::occurs_at(m, b, 0));
        } else {
            assert(crate::text::occurs_at(m, b, 0));
        }
    } else if a.len() == 0 {
        assert(m.subrange(0, 0) =~= a);
        assert(crate::text::occurs_at(m, a, 0));
        assert(m.subrange(0, b.len() as int) =~= b);
        assert(crate::text::occurs_at(m, b, 0));
    } else {
        let sep = "; "@;
        assert(m.subrange(0, a.len() as int) =~= a);
        assert(crate::text::occurs_at(m, a, 0));
        let k: int = (a.len() + sep.len()) as int;
        assert(m.subrange(k, k + b.len()) =~= b);
        assert(crate::text::occurs_at(m, b, k));
    }
}

} // verus!
