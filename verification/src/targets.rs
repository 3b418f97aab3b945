//! How the Windows backend finds what an action addresses among the
//! windows it has just read: the window or element a target names, the
//! screen area a capture covers, the point a coordinate click lands on,
//! and whether a live element fits a locator step.
use vstd::prelude::*;

use crate::agent::{
    found_view, opt_element_id_view, opt_locator_view, resolve_element_among, resolve_window_among,
    resolved_element, resolved_window,
};
use crate::diffspec::{lemma_window_index, window_index};
use crate::model::{windows_view, WindowV};
use crate::payload::TargetV;
use crate::protocol::{ActionTarget, LocatorSegment, Rect, RegionTarget, WindowState};
use crate::state::find_window;
use crate::text::{opt_view, string_equal};
use crate::tree::{node_at, path_view, subtree_at};

verus! {

/// The window a target acts on: the window it names, the window of the
/// element it names, a region's window, or the only window when the
/// desktop is targeted and there is exactly one.
pub open spec fn action_window_of(ws: Seq<WindowV>, t: TargetV) -> Option<int> {
    match t {
        TargetV::Window(l) => resolved_window(ws, l),
        TargetV::Element { element_id, locator } => match resolved_element(ws, element_id, locator) {
            Some((k, _)) => Some(k),
            None => None,
        },
        TargetV::Region { window_id, .. } => match window_id {
            Some(id) => window_index(ws, id, 0),
            None => None,
        },
        TargetV::Desktop => if ws.len() == 1 {
            Some(0)
        } else {
            None
        },
    }
}

/// Position of the window a target acts on (see `action_window_of`).
pub fn resolve_action_window_from_target(windows: &Vec<WindowState>, target: &ActionTarget) -> (r: Option<usize>)
    ensures
        r matches Some(k) ==> k < windows@.len(),
        match r {
            Some(k) => action_window_of(windows_view(windows@), target@) == Some(k as int),
            None => action_window_of(windows_view(windows@), target@) is None,
        },
{
    proof {
        let ws = windows_view(windows@);
        match target@ {
            TargetV::Element { element_id, locator } => {
                crate::agent::lemma_resolved_element_valid(ws, element_id, locator);
            },
            TargetV::Region { window_id, .. } => {
                if let Some(id) = window_id {
                    lemma_window_index(ws, id, 0);
                }
            },
            _ => {},
        }
    }
    match target {
        ActionTarget::Window(l) => resolve_window_among(windows, l),
        ActionTarget::Element(e) => match resolve_element_among(windows, &e.element_id, &e.locator) {
            Some((k, _)) => Some(k),
            None => None,
        },
        ActionTarget::Region(region) => match &region.window_id {
            Some(id) => find_window(windows, id.0.as_str()),
            None => None,
        },
        ActionTarget::Desktop => if windows.len() == 1 {
            Some(0)
        } else {
            None
        },
    }
}

/// The element a target acts on: the element it names, or the root of
/// the window it names; none for a region or the desktop.
pub open spec fn action_node_of(ws: Seq<WindowV>, t: TargetV) -> Option<(int, Seq<int>)> {
    match t {
        TargetV::Element { element_id, locator } => resolved_element(ws, element_id, locator),
        TargetV::Window(l) => match resolved_window(ws, l) {
            Some(k) => Some((k, Seq::empty())),
            None => None,
        },
        _ => None,
    }
}

/// Window position and path of the element a target acts on (see `action_node_of`).
pub fn resolve_action_node_from_target(windows: &Vec<WindowState>, target: &ActionTarget) -> (r: Option<(usize, Vec<usize>)>)
    ensures
        found_view(r) == action_node_of(windows_view(windows@), target@),
{
    match target {
        ActionTarget::Element(e) => resolve_element_among(windows, &e.element_id, &e.locator),
        ActionTarget::Window(l) => match resolve_window_among(windows, l) {
            Some(k) => {
                let p: Vec<usize> = Vec::new();
                assert(path_view(p@) =~= Seq::<int>::empty());
                Some((k, p))
            },
            None => None,
        },
        _ => None,
    }
}

/// A region on screen: its bounds, moved by its window's origin when it
/// names a window; none when that window is not there.
pub open spec fn region_on_screen(ws: Seq<WindowV>, window_id: Option<Seq<char>>, b: Rect) -> Option<Rect> {
    match window_id {
        None => Some(b),
        Some(id) => match window_index(ws, id, 0) {
            Some(k) => Some(
                Rect { left: (b.left + ws[k].bounds.left) as i32, top: (b.top + ws[k].bounds.top) as i32, ..b },
            ),
            None => None,
        },
    }
}

/// A region's window origin can be added to it.
pub open spec fn region_fits(ws: Seq<WindowV>, window_id: Option<Seq<char>>, b: Rect) -> bool {
    match window_id {
        Some(id) => match window_index(ws, id, 0) {
            Some(k) => {
                &&& i32::MIN <= b.left + ws[k].bounds.left <= i32::MAX
                &&& i32::MIN <= b.top + ws[k].bounds.top <= i32::MAX
            },
            None => true,
        },
        None => true,
    }
}

/// The screen area a capture of `t` covers: a region on screen, a
/// window's bounds, an element's bounds; none for the desktop.
pub open spec fn capture_bounds_of(ws: Seq<WindowV>, t: TargetV) -> Option<Rect> {
    match t {
        TargetV::Region { window_id, bounds } => region_on_screen(ws, window_id, bounds),
        TargetV::Window(l) => match resolved_window(ws, l) {
            Some(k) => Some(ws[k].bounds),
            None => None,
        },
        TargetV::Element { element_id, locator } => match resolved_element(ws, element_id, locator) {
            Some((k, p)) => Some(node_at(ws[k].root, p).bounds),
            None => None,
        },
        TargetV::Desktop => None,
    }
}

/// A region on screen (see `region_on_screen`).
pub fn resolve_panel_probe_region_bounds(windows: &Vec<WindowState>, region: &RegionTarget) -> (r: Option<Rect>)
    requires
        region_fits(windows_view(windows@), opt_window_id_view(region.window_id), region.bounds),
    ensures
        r == region_on_screen(windows_view(windows@), opt_window_id_view(region.window_id), region.bounds),
{
    let mut bounds = region.bounds;
    if let Some(id) = &region.window_id {
        match find_window(windows, id.0.as_str()) {
            Some(k) => {
                proof {
                    lemma_window_index(windows_view(windows@), id@, 0);
                }
                let w = &windows[k];
                bounds.left = bounds.left + w.bounds.left;
                bounds.top = bounds.top + w.bounds.top;
            },
            None => {
                return None;
            },
        }
    }
    Some(bounds)
}

/// The characters of an optional window id.
pub open spec fn opt_window_id_view(o: Option<crate::protocol::WindowId>) -> Option<Seq<char>> {
    match o {
        Some(w) => Some(w@),
        None => None,
    }
}

/// The screen area a capture covers (see `capture_bounds_of`).
pub fn resolve_capture_bounds(windows: &Vec<WindowState>, target: &ActionTarget) -> (r: Option<Rect>)
    requires
        target matches ActionTarget::Region(region) ==> region_fits(
            windows_view(windows@),
            opt_window_id_view(region.window_id),
            region.bounds,
        ),
    ensures
        r == capture_bounds_of(windows_view(windows@), target@),
{
    let ghost ws = windows_view(windows@);
    match target {
        ActionTarget::Region(region) => resolve_panel_probe_region_bounds(windows, region),
        ActionTarget::Window(l) => match resolve_window_among(windows, l) {
            Some(k) => Some(windows[k].bounds),
            None => None,
        },
        ActionTarget::Element(e) => match resolve_element_among(windows, &e.element_id, &e.locator) {
            Some((k, p)) => {
                proof {
                    crate::agent::lemma_resolved_element_valid(
                        ws,
                        opt_element_id_view(e.element_id),
                        opt_locator_view(e.locator),
                    );
                    assert(path_view(p@).skip(0) =~= path_view(p@));
                }
                let n = subtree_at(&windows[k].root, &p, 0);
                Some(n.bounds)
            },
            None => None,
        },
        ActionTarget::Desktop => None,
    }
}

/// The point a coordinate click on `b` lands on: its centre (halves
/// rounded down); bounds without area are refused.
pub fn click_point(b: Rect) -> (r: Result<(i32, i32), String>)
    requires
        b.width > 0 ==> b.left + b.width / 2 <= i32::MAX,
        b.height > 0 ==> b.top + b.height / 2 <= i32::MAX,
    ensures
        b.width <= 0 || b.height <= 0 ==> (r matches Err(m) && m@ == "target bounds are invalid for coordinate fallback"@),
        b.width > 0 && b.height > 0 ==> r == Ok::<(i32, i32), String>(
            ((b.left + b.width / 2) as i32, (b.top + b.height / 2) as i32),
        ),
{
    if b.width <= 0 || b.height <= 0 {
        return Err(String::from_str("target bounds are invalid for coordinate fallback"));
    }
    Ok((b.left + b.width / 2, b.top + b.height / 2))
}

/// A live element fits a locator step: the same control type, and each
/// text the step gives equal to the element's.
pub open spec fn fits_segment(
    control_type: Seq<char>,
    class_name: Option<Seq<char>>,
    automation_id: Option<Seq<char>>,
    name: Option<Seq<char>>,
    g: crate::model::SegmentV,
) -> bool {
    &&& control_type == g.control_type
    &&& (g.class_name matches Some(v) ==> class_name == Some(v))
    &&& (g.automation_id matches Some(v) ==> automation_id == Some(v))
    &&& (g.name matches Some(v) ==> name == Some(v))
}

/// Whether a live element with these texts fits a locator step (see `fits_segment`).
pub fn element_matches_segment(
    control_type: &String,
    class_name: &Option<String>,
    automation_id: &Option<String>,
    name: &Option<String>,
    segment: &LocatorSegment,
) -> (r: bool)
    ensures
        r == fits_segment(control_type@, opt_view(*class_name), opt_view(*automation_id), opt_view(*name), segment@),
{
    if !string_equal(control_type, &segment.control_type) {
        return false;
    }
    let class_ok = match &segment.class_name {
        Some(v) => match class_name {
            Some(c) => string_equal(c, v),
            None => false,
        },
        None => true,
    };
    let automation_ok = match &segment.automation_id {
        Some(v) => match automation_id {
            Some(a) => string_equal(a, v),
            None => false,
        },
        None => true,
    };
    let name_ok = match &segment.name {
        Some(v) => match name {
            Some(n) => string_equal(n, v),
            None => false,
        },
        None => true,
    };
    class_ok && automation_ok && name_ok
}

} // verus!
