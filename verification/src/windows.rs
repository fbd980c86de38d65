//! The compositor's window list as the window-title widget tracks it from
//! the niri event stream, and the lookup of the window whose title the bar
//! shows.

use vstd::prelude::*;

use crate::workspaces::{first_active_on, WorkspaceInfo};

verus! {

/// The fields of a niri window that the bar reads.
#[derive(Clone, Debug, PartialEq, Eq)]
pub struct WindowInfo {
    pub id: u64,
    pub title: Option<String>,
    pub app_id: Option<String>,
    pub is_focused: bool,
    pub workspace_id: Option<u64>,
}

pub open spec fn with_focus(w: WindowInfo, focused: bool) -> WindowInfo {
    WindowInfo { is_focused: focused, ..w }
}

/// The list with every window whose id is `id` removed, order kept.
pub open spec fn without_id(s: Seq<WindowInfo>, id: u64) -> Seq<WindowInfo>
    decreases s.len(),
{
    if s.len() == 0 {
        s
    } else {
        let p = without_id(s.drop_last(), id);
        if s.last().id == id {
            p
        } else {
            p.push(s.last())
        }
    }
}

/// Every window's focus flag set to whether its id is the focused id.
pub open spec fn refocused(s: Seq<WindowInfo>, id: Option<u64>) -> Seq<WindowInfo> {
    s.map_values(|w: WindowInfo| with_focus(w, id == Some(w.id)))
}

/// Every window's focus flag cleared.
pub open spec fn unfocused(s: Seq<WindowInfo>) -> Seq<WindowInfo> {
    s.map_values(|w: WindowInfo| with_focus(w, false))
}

/// `WindowOpenedOrChanged`: a focused newcomer takes the focus from all
/// others; any older entry with its id is dropped; it is appended.
pub open spec fn opened_or_changed(s: Seq<WindowInfo>, w: WindowInfo) -> Seq<WindowInfo> {
    let base = if w.is_focused {
        unfocused(s)
    } else {
        s
    };
    without_id(base, w.id).push(w)
}

pub open spec fn ids_unique(s: Seq<WindowInfo>) -> bool {
    forall|i: int, j: int| 0 <= i < j < s.len() ==> s[i].id != s[j].id
}

pub open spec fn focused_count(s: Seq<WindowInfo>) -> nat
    decreases s.len(),
{
    if s.len() == 0 {
        0
    } else {
        focused_count(s.drop_last()) + if s.last().is_focused {
            1nat
        } else {
            0nat
        }
    }
}

/// Takes all elements out of `v`, front to back.
fn drain_front(v: &mut Vec<WindowInfo>) -> (r: Vec<WindowInfo>)
    ensures
        r@ == old(v)@,
        final(v)@ == Seq::<WindowInfo>::empty(),
{
    let mut r: Vec<WindowInfo> = Vec::new();
    std::mem::swap(&mut r, v);
    r
}

/// `WindowClosed`: removes the window with this id.
pub fn window_closed(windows: &mut Vec<WindowInfo>, id: u64)
    ensures
        final(windows)@ == without_id(old(windows)@, id),
{
    let mut rest = drain_front(windows);
    let ghost orig = rest@;
    let ghost mut k: int = 0;
    proof {
        assert(orig.take(0) =~= Seq::<WindowInfo>::empty());
    }
    while rest.len() > 0
        invariant
            0 <= k <= orig.len(),
            rest@ == orig.skip(k),
            windows@ == without_id(orig.take(k), id),
        decreases rest.len(),
    {
        let w = rest.remove(0);
        proof {
            assert(w == orig[k]);
            assert(orig.take(k + 1).drop_last() =~= orig.take(k));
            assert(orig.take(k + 1).last() == orig[k]);
            assert(rest@ =~= orig.skip(k + 1));
        }
        if w.id != id {
            windows.push(w);
        }
        proof {
            k = k + 1;
        }
    }
    proof {
        assert(k == orig.len());
        assert(orig.take(k) =~= orig);
    }
}

/// `WindowFocusChanged`: exactly the window with the given id (if any) is
/// marked focused.
pub fn window_focus_changed(windows: &mut Vec<WindowInfo>, id: Option<u64>)
    ensures
        final(windows)@ == refocused(old(windows)@, id),
{
    let mut rest = drain_front(windows);
    let ghost orig = rest@;
    let ghost mut k: int = 0;
    while rest.len() > 0
        invariant
            0 <= k <= orig.len(),
            rest@ == orig.skip(k),
            windows@ == refocused(orig.take(k), id),
        decreases rest.len(),
    {
        let mut w = rest.remove(0);
        proof {
            assert(w == orig[k]);
            assert(rest@ =~= orig.skip(k + 1));
        }
        let f = match id {
            Some(x) => w.id == x,
            None => false,
        };
        w.is_focused = f;
        windows.push(w);
        proof {
            assert(refocused(orig.take(k + 1), id) =~= refocused(orig.take(k), id).push(
                with_focus(orig[k], id == Some(orig[k].id)),
            ));
            k = k + 1;
        }
    }
    proof {
        assert(orig.take(k) =~= orig);
    }
}

fn unfocus_all(windows: &mut Vec<WindowInfo>)
    ensures
        final(windows)@ == unfocused(old(windows)@),
{
    let mut rest = drain_front(windows);
    let ghost orig = rest@;
    let ghost mut k: int = 0;
    while rest.len() > 0
        invariant
            0 <= k <= orig.len(),
            rest@ == orig.skip(k),
            windows@ == unfocused(orig.take(k)),
        decreases rest.len(),
    {
        let mut w = rest.remove(0);
        proof {
            assert(w == orig[k]);
            assert(rest@ =~= orig.skip(k + 1));
        }
        w.is_focused = false;
        windows.push(w);
        proof {
            assert(unfocused(orig.take(k + 1)) =~= unfocused(orig.take(k)).push(
                with_focus(orig[k], false),
            ));
            k = k + 1;
        }
    }
    proof {
        assert(orig.take(k) =~= orig);
    }
}

/// `WindowOpenedOrChanged`.
pub fn window_opened_or_changed(windows: &mut Vec<WindowInfo>, w: WindowInfo)
    ensures
        final(windows)@ == opened_or_changed(old(windows)@, w),
{
    if w.is_focused {
        unfocus_all(windows);
    }
    window_closed(windows, w.id);
    windows.push(w);
}

/// The title and app id shown for the window list: those of the first
/// focused window, empty when it has none or no window is focused.
pub open spec fn first_focused(s: Seq<WindowInfo>) -> Option<int> {
    if exists|i: int| 0 <= i < s.len() && #[trigger] s[i].is_focused {
        Some(choose|i: int| 0 <= i < s.len() && #[trigger] s[i].is_focused && forall|j: int| 0 <= j < i ==> !s[j].is_focused)
    } else {
        None
    }
}

pub open spec fn text_or_empty(t: Option<String>) -> Seq<char> {
    match t {
        Some(s) => s@,
        None => Seq::<char>::empty(),
    }
}

/// Index of the first focused window.
pub fn find_focused(windows: &Vec<WindowInfo>) -> (r: Option<usize>)
    ensures
        r matches Some(i) ==> i < windows@.len() && windows@[i as int].is_focused && forall|j: int|
            0 <= j < i ==> !windows@[j].is_focused,
        r is None ==> forall|j: int| 0 <= j < windows@.len() ==> !windows@[j].is_focused,
{
    let mut i: usize = 0;
    while i < windows.len()
        invariant
            i <= windows.len(),
            forall|j: int| 0 <= j < i ==> !windows@[j].is_focused,
        decreases windows.len() - i,
    {
        if windows[i].is_focused {
            return Some(i);
        }
        i = i + 1;
    }
    None
}

fn text_of(t: &Option<String>) -> (r: String)
    ensures
        r@ == text_or_empty(*t),
{
    match t {
        Some(s) => s.clone(),
        None => String::new(),
    }
}

/// The `(title, app_id)` the title widget shows for this window list.
pub fn focused_title(windows: &Vec<WindowInfo>) -> (r: (String, String))
    ensures
        (exists|i: int| 0 <= i < windows@.len() && #[trigger] windows@[i].is_focused) ==> ({
            let i = choose|i: int|
                0 <= i < windows@.len() && #[trigger] windows@[i].is_focused && forall|j: int|
                    0 <= j < i ==> !windows@[j].is_focused;
            r.0@ == text_or_empty(windows@[i].title) && r.1@ == text_or_empty(windows@[i].app_id)
        }),
        (forall|i: int| 0 <= i < windows@.len() ==> !#[trigger] windows@[i].is_focused) ==> r.0@
            == Seq::<char>::empty() && r.1@ == Seq::<char>::empty(),
{
    match find_focused(windows) {
        Some(i) => {
            proof {
                let k = choose|k: int|
                    0 <= k < windows@.len() && #[trigger] windows@[k].is_focused && forall|j: int|
                        0 <= j < k ==> !windows@[j].is_focused;
                assert(windows@[i as int].is_focused);
                if k < i {
                    assert(!windows@[k].is_focused);
                } else if k > i {
                    assert(!windows@[i as int].is_focused);
                }
                assert(k == i);
            }
            (text_of(&windows[i].title), text_of(&windows[i].app_id))
        },
        None => (String::new(), String::new()),
    }
}

// ── laws of the window list ─────────────────────────────────────────────

proof fn lemma_without_id_members(s: Seq<WindowInfo>, id: u64)
    ensures
        forall|i: int| 0 <= i < without_id(s, id).len() ==> #[trigger] without_id(s, id)[i].id
            != id,
        forall|i: int|
            0 <= i < without_id(s, id).len() ==> exists|j: int|
                0 <= j < s.len() && s[j] == #[trigger] without_id(s, id)[i],
        without_id(s, id).len() <= s.len(),
    decreases s.len(),
{
    if s.len() > 0 {
        lemma_without_id_members(s.drop_last(), id);
        let p = without_id(s.drop_last(), id);
        assert forall|i: int| 0 <= i < without_id(s, id).len() implies exists|j: int|
            0 <= j < s.len() && s[j] == #[trigger] without_id(s, id)[i] by {
            if i < p.len() {
                let j = choose|j: int| 0 <= j < s.drop_last().len() && s.drop_last()[j] == p[i];
                assert(s[j] == without_id(s, id)[i]);
            } else {
                assert(s[s.len() - 1] == without_id(s, id)[i]);
            }
        }
    }
}

proof fn lemma_without_id_unique(s: Seq<WindowInfo>, id: u64)
    requires
        ids_unique(s),
    ensures
        ids_unique(without_id(s, id)),
    decreases s.len(),
{
    if s.len() > 0 {
        let d = s.drop_last();
        assert(ids_unique(d));
        lemma_without_id_unique(d, id);
        lemma_without_id_members(d, id);
        let p = without_id(d, id);
        if s.last().id != id {
            assert forall|i: int, j: int|
                0 <= i < j < p.len() + 1 implies p.push(s.last())[i].id != p.push(
                s.last(),
            )[j].id by {
                if j == p.len() {
                    let k = choose|k: int| 0 <= k < d.len() && d[k] == #[trigger] p[i];
                    assert(s[k] == d[k]);
                }
            }
        }
    }
}

proof fn lemma_ids_map_focus(s: Seq<WindowInfo>, t: Seq<WindowInfo>)
    requires
        s.len() == t.len(),
        forall|i: int| 0 <= i < s.len() ==> #[trigger] t[i].id == s[i].id,
        ids_unique(s),
    ensures
        ids_unique(t),
{
    assert forall|i: int, j: int| 0 <= i < j < t.len() implies t[i].id != t[j].id by {
        assert(t[i].id == s[i].id);
        assert(t[j].id == s[j].id);
    }
}

/// After a `WindowOpenedOrChanged` event window ids stay unique, and the
/// window is listed exactly once, last.
pub proof fn law_opened_keeps_ids_unique(s: Seq<WindowInfo>, w: WindowInfo)
    requires
        ids_unique(s),
    ensures
        ids_unique(opened_or_changed(s, w)),
        opened_or_changed(s, w).last() == w,
        forall|i: int|
            0 <= i < opened_or_changed(s, w).len() - 1 ==> #[trigger] opened_or_changed(
                s,
                w,
            )[i].id != w.id,
{
    let base = if w.is_focused {
        unfocused(s)
    } else {
        s
    };
    if w.is_focused {
        lemma_ids_map_focus(s, unfocused(s));
    }
    lemma_without_id_unique(base, w.id);
    lemma_without_id_members(base, w.id);
    let p = without_id(base, w.id);
    assert forall|i: int, j: int| 0 <= i < j < p.len() + 1 implies p.push(w)[i].id != p.push(
        w,
    )[j].id by {
        if j == p.len() {
            assert(p[i].id != w.id);
        }
    }
}

proof fn lemma_refocused_count(s: Seq<WindowInfo>, id: Option<u64>)
    requires
        ids_unique(s),
    ensures
        id is None ==> focused_count(refocused(s, id)) == 0,
        focused_count(refocused(s, id)) <= 1,
        id matches Some(x) ==> (focused_count(refocused(s, id)) == 1 <==> exists|i: int|
            0 <= i < s.len() && #[trigger] s[i].id == x),
    decreases s.len(),
{
    if s.len() > 0 {
        let d = s.drop_last();
        assert(ids_unique(d));
        lemma_refocused_count(d, id);
        assert(refocused(s, id).drop_last() =~= refocused(d, id));
        match id {
            Some(x) => {
                if s.last().id == x {
                    assert forall|i: int| 0 <= i < d.len() implies #[trigger] d[i].id != x by {
                        assert(s[i] == d[i]);
                    }
                } else {
                    if exists|i: int| 0 <= i < s.len() && #[trigger] s[i].id == x {
                        let i = choose|i: int| 0 <= i < s.len() && #[trigger] s[i].id == x;
                        assert(d[i].id == x);
                    }
                    if exists|i: int| 0 <= i < d.len() && #[trigger] d[i].id == x {
                        let i = choose|i: int| 0 <= i < d.len() && #[trigger] d[i].id == x;
                        assert(s[i].id == x);
                    }
                }
            },
            None => {},
        }
    }
}

/// After a `WindowFocusChanged` event at most one window is focused when
/// ids are unique; exactly one when the focused id is listed, none when
/// focus moved to no window.
pub proof fn law_focus_changed_single(s: Seq<WindowInfo>, id: Option<u64>)
    requires
        ids_unique(s),
    ensures
        focused_count(refocused(s, id)) <= 1,
        id is None ==> focused_count(refocused(s, id)) == 0,
        id matches Some(x) ==> (focused_count(refocused(s, id)) == 1 <==> exists|i: int|
            0 <= i < s.len() && #[trigger] s[i].id == x),
{
    lemma_refocused_count(s, id);
}

proof fn lemma_unfocused_count(s: Seq<WindowInfo>)
    ensures
        focused_count(unfocused(s)) == 0,
    decreases s.len(),
{
    if s.len() > 0 {
        lemma_unfocused_count(s.drop_last());
        assert(unfocused(s).drop_last() =~= unfocused(s.drop_last()));
    }
}

proof fn lemma_without_id_count(s: Seq<WindowInfo>, id: u64)
    ensures
        focused_count(without_id(s, id)) <= focused_count(s),
    decreases s.len(),
{
    if s.len() > 0 {
        lemma_without_id_count(s.drop_last(), id);
        let p = without_id(s.drop_last(), id);
        if s.last().id != id {
            assert(p.push(s.last()).drop_last() =~= p);
        }
    }
}

/// After a `WindowClosed` event no listed window has that id, ids stay
/// unique, and no window gains the focus.
pub proof fn law_closed_removes(s: Seq<WindowInfo>, id: u64)
    requires
        ids_unique(s),
    ensures
        ids_unique(without_id(s, id)),
        forall|i: int| 0 <= i < without_id(s, id).len() ==> #[trigger] without_id(s, id)[i].id != id,
        focused_count(without_id(s, id)) <= focused_count(s),
{
    lemma_without_id_unique(s, id);
    lemma_without_id_members(s, id);
    lemma_without_id_count(s, id);
}

/// After a `WindowOpenedOrChanged` event for a focused window it is the
/// only focused one; for an unfocused window no other window gains the
/// focus.
pub proof fn law_opened_focus(s: Seq<WindowInfo>, w: WindowInfo)
    ensures
        w.is_focused ==> focused_count(opened_or_changed(s, w)) == 1,
        !w.is_focused ==> focused_count(opened_or_changed(s, w)) <= focused_count(s),
{
    let base = if w.is_focused {
        unfocused(s)
    } else {
        s
    };
    let p = without_id(base, w.id);
    lemma_without_id_count(base, w.id);
    if w.is_focused {
        lemma_unfocused_count(s);
    }
    assert(p.push(w).drop_last() =~= p);
}

// ── the event stream ────────────────────────────────────────────────────

/// A niri event as the window-title widget reads it.
#[derive(Clone, Debug, PartialEq, Eq)]
pub enum WindowEvent {
    /// `WindowsChanged`: the full list.
    WindowsChanged(Vec<WindowInfo>),
    /// `WindowOpenedOrChanged`.
    OpenedOrChanged(WindowInfo),
    /// `WindowClosed`.
    Closed(u64),
    /// `WindowFocusChanged`.
    FocusChanged(Option<u64>),
    /// Any other event.
    Other,
}

/// The window list after an event.
pub open spec fn after_event(s: Seq<WindowInfo>, e: WindowEvent) -> Seq<WindowInfo> {
    match e {
        WindowEvent::WindowsChanged(v) => v@,
        WindowEvent::OpenedOrChanged(w) => opened_or_changed(s, w),
        WindowEvent::Closed(id) => without_id(s, id),
        WindowEvent::FocusChanged(id) => refocused(s, id),
        WindowEvent::Other => s,
    }
}

/// The window list after a stream of events, in order.
pub open spec fn after_events(s: Seq<WindowInfo>, es: Seq<WindowEvent>) -> Seq<WindowInfo>
    decreases es.len(),
{
    if es.len() == 0 {
        s
    } else {
        after_event(after_events(s, es.drop_last()), es.last())
    }
}

/// The `(title, app_id)` shown for a window list: those of its first
/// focused window, empty without one.
pub open spec fn shown_title(s: Seq<WindowInfo>) -> (Seq<char>, Seq<char>) {
    match first_focused(s) {
        Some(i) => (text_or_empty(s[i].title), text_or_empty(s[i].app_id)),
        None => (Seq::<char>::empty(), Seq::<char>::empty()),
    }
}

/// Applies one event to the window list. Returns the `(title, app_id)` to
/// publish, or `None` for an event the widget ignores (nothing is
/// published then).
pub fn window_event(windows: &mut Vec<WindowInfo>, e: WindowEvent) -> (r: Option<(String, String)>)
    ensures
        final(windows)@ == after_event(old(windows)@, e),
        r is None <==> e is Other,
        r matches Some(t) ==> (t.0@, t.1@) == shown_title(final(windows)@),
{
    match e {
        WindowEvent::WindowsChanged(v) => {
            *windows = v;
        },
        WindowEvent::OpenedOrChanged(w) => {
            window_opened_or_changed(windows, w);
        },
        WindowEvent::Closed(id) => {
            window_closed(windows, id);
        },
        WindowEvent::FocusChanged(id) => {
            window_focus_changed(windows, id);
        },
        WindowEvent::Other => {
            return None;
        },
    }
    let t = focused_title(windows);
    proof {
        let s = windows@;
        if exists|i: int| 0 <= i < s.len() && #[trigger] s[i].is_focused {
        } else {
            assert forall|i: int| 0 <= i < s.len() implies !#[trigger] s[i].is_focused by {}
        }
    }
    Some(t)
}

/// A list whose ids are unique and with at most one focused window.
pub open spec fn window_list_ok(s: Seq<WindowInfo>) -> bool {
    ids_unique(s) && focused_count(s) <= 1
}

/// Over any stream of events the window list keeps unique ids and at most
/// one focused window, when it starts so and every full list niri sends is
/// so.
pub proof fn law_window_stream(s: Seq<WindowInfo>, es: Seq<WindowEvent>)
    requires
        window_list_ok(s),
        forall|i: int| 0 <= i < es.len() ==> (#[trigger] es[i] matches WindowEvent::WindowsChanged(v) ==> window_list_ok(v@)),
    ensures
        window_list_ok(after_events(s, es)),
    decreases es.len(),
{
    if es.len() > 0 {
        let p = es.drop_last();
        assert forall|i: int| 0 <= i < p.len() implies (#[trigger] p[i] matches WindowEvent::WindowsChanged(v) ==> window_list_ok(v@)) by {
            assert(p[i] == es[i]);
        }
        law_window_stream(s, p);
        let t = after_events(s, p);
        let e = es.last();
        assert(e == es[es.len() - 1]);
        match e {
            WindowEvent::WindowsChanged(v) => {},
            WindowEvent::OpenedOrChanged(w) => {
                law_opened_keeps_ids_unique(t, w);
                law_opened_focus(t, w);
            },
            WindowEvent::Closed(id) => {
                law_closed_removes(t, id);
            },
            WindowEvent::FocusChanged(id) => {
                law_focus_changed_single(t, id);
                lemma_ids_map_focus(t, refocused(t, id));
            },
            WindowEvent::Other => {},
        }
    }
}

// ── per-monitor lookup ──────────────────────────────────────────────────

/// Whether window `i` is the one shown for workspace `ws`: the first
/// window with the workspace's active window id, or, when the workspace
/// names none, the first focused window on the workspace.
pub open spec fn shown_on(windows: Seq<WindowInfo>, ws: WorkspaceInfo, i: int) -> bool {
    0 <= i < windows.len() && match ws.active_window_id {
        Some(aw) => windows[i].id == aw && forall|j: int|
            0 <= j < i ==> (#[trigger] windows[j]).id != aw,
        None => on_workspace_focused(windows[i], ws.id) && forall|j: int|
            0 <= j < i ==> !on_workspace_focused(#[trigger] windows[j], ws.id),
    }
}

pub open spec fn on_workspace_focused(w: WindowInfo, ws_id: u64) -> bool {
    w.workspace_id == Some(ws_id) && w.is_focused
}

/// The window whose title the bar on monitor `connector` shows: on the
/// first active workspace of that monitor, the window named by the
/// workspace's active window id, or else the first focused window on that
/// workspace.
pub fn window_for_monitor(
    workspaces: &Vec<WorkspaceInfo>,
    windows: &Vec<WindowInfo>,
    connector: &str,
) -> (r: Option<usize>)
    ensures
        r matches Some(i) ==> i < windows@.len() && exists|k: int|
            first_active_on(workspaces@, connector@, k) && shown_on(
                windows@,
                workspaces@[k],
                i as int,
            ),
        r is None ==> forall|k: int|
            first_active_on(workspaces@, connector@, k) ==> forall|i: int|
                0 <= i < windows@.len() ==> !shown_on(windows@, workspaces@[k], i),
{
    let k = match crate::workspaces::active_workspace_on(workspaces, connector) {
        Some(k) => k,
        None => return None,
    };
    let ws = &workspaces[k];
    let mut i: usize = 0;
    proof {
        assert forall|k2: int| first_active_on(workspaces@, connector@, k2) implies k2 == k by {
            crate::workspaces::lemma_first_active_unique(workspaces@, connector@, k2, k as int);
        }
    }
    match ws.active_window_id {
        Some(aw) => {
            while i < windows.len()
                invariant
                    i <= windows.len(),
                    k < workspaces@.len(),
                    first_active_on(workspaces@, connector@, k as int),
                    workspaces@[k as int].active_window_id == Some(aw),
                    forall|j: int| 0 <= j < i ==> (#[trigger] windows@[j]).id != aw,
                decreases windows.len() - i,
            {
                if windows[i].id == aw {
                    proof {
                        assert(shown_on(windows@, workspaces@[k as int], i as int));
                    }
                    return Some(i);
                }
                i = i + 1;
            }
            proof {
                assert forall|k2: int| first_active_on(workspaces@, connector@, k2) implies forall|i2: int|
                    0 <= i2 < windows@.len() ==> !shown_on(windows@, workspaces@[k2], i2) by {
                    crate::workspaces::lemma_first_active_unique(workspaces@, connector@, k2, k as int);
                }
            }
            None
        },
        None => {
            let wid = ws.id;
            while i < windows.len()
                invariant
                    i <= windows.len(),
                    k < workspaces@.len(),
                    first_active_on(workspaces@, connector@, k as int),
                    wid == workspaces@[k as int].id,
                    workspaces@[k as int].active_window_id is None,
                    forall|j: int| 0 <= j < i ==> !on_workspace_focused(#[trigger] windows@[j], wid),
                decreases windows.len() - i,
            {
                let hit = match windows[i].workspace_id {
                    Some(x) => x == wid,
                    None => false,
                };
                if hit && windows[i].is_focused {
                    proof {
                        assert(shown_on(windows@, workspaces@[k as int], i as int));
                    }
                    return Some(i);
                }
                i = i + 1;
            }
            proof {
                assert forall|k2: int| first_active_on(workspaces@, connector@, k2) implies forall|i2: int|
                    0 <= i2 < windows@.len() ==> !shown_on(windows@, workspaces@[k2], i2) by {
                    crate::workspaces::lemma_first_active_unique(workspaces@, connector@, k2, k as int);
                }
            }
            None
        },
    }
}

} // verus!
