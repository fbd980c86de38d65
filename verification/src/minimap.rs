//! The minimap of the active workspace: which windows it draws and in what
//! order, the cache key that decides whether it is redrawn, how tiles fall
//! into columns, and each tile's classes.

use vstd::prelude::*;
use vstd::wrapping::u64_specs;

verus! {

/// A tile's place in the scrolling layout.
#[derive(Clone, Copy, Debug, PartialEq, Eq, Structural)]
pub struct LayoutPos {
    pub col: usize,
    pub row: usize,
}

/// The fields of a niri window that the minimap reads. The tile size is in
/// thousandths of a logical pixel, truncated.
#[derive(Clone, Copy, Debug, PartialEq, Eq, Structural)]
pub struct MinimapWindow {
    pub id: u64,
    pub workspace_id: Option<u64>,
    pub pos: Option<LayoutPos>,
    pub tile_w_milli: u64,
    pub tile_h_milli: u64,
    pub is_focused: bool,
}

/// A window is drawn when it is on the active workspace and has a place in
/// the scrolling layout.
pub open spec fn on_minimap(w: MinimapWindow, active_ws: Option<u64>) -> bool {
    w.workspace_id is Some && w.workspace_id == active_ws && w.pos is Some
}

pub open spec fn pos_lt(a: LayoutPos, b: LayoutPos) -> bool {
    a.col < b.col || (a.col == b.col && a.row < b.row)
}

/// Position `a` is drawn before `b`: by layout position, then by the
/// order of the window list.
pub open spec fn drawn_before(ws: Seq<MinimapWindow>, a: int, b: int) -> bool {
    pos_lt(ws[a].pos->0, ws[b].pos->0) || (ws[a].pos->0 == ws[b].pos->0 && a < b)
}

fn sorts_before(key: LayoutPos, q: Option<LayoutPos>) -> (r: bool)
    requires
        q is Some,
    ensures
        r == pos_lt(key, q->0),
{
    let q = q.unwrap();
    key.col < q.col || (key.col == q.col && key.row < q.row)
}

/// The windows drawn, by layout position (stably).
pub fn minimap_windows(windows: &Vec<MinimapWindow>, active_ws: Option<u64>) -> (r: Vec<usize>)
    ensures
        forall|a: int| 0 <= a < r@.len() ==> #[trigger] r@[a] < windows@.len() && on_minimap(windows@[r@[a] as int], active_ws),
        forall|j: int| 0 <= j < windows@.len() && on_minimap(windows@[j], active_ws) ==> #[trigger] r@.contains(j as usize),
        forall|a: int, b: int|
            0 <= a < b < r@.len() ==> drawn_before(windows@, #[trigger] r@[a] as int, #[trigger] r@[b] as int),
{
    let mut r: Vec<usize> = Vec::new();
    for i in 0..windows.len()
        invariant
            forall|a: int| 0 <= a < r@.len() ==> #[trigger] r@[a] < i && on_minimap(windows@[r@[a] as int], active_ws),
            forall|j: int| 0 <= j < i && on_minimap(windows@[j], active_ws) ==> #[trigger] r@.contains(j as usize),
            forall|a: int, b: int|
                0 <= a < b < r@.len() ==> drawn_before(windows@, #[trigger] r@[a] as int, #[trigger] r@[b] as int),
    {
        let w = windows[i];
        let keep = w.workspace_id.is_some() && w.workspace_id == active_ws && w.pos.is_some();
        if keep {
            let key = w.pos.unwrap();
            let mut p: usize = 0;
            while p < r.len() && !sorts_before(key, windows[r[p]].pos)
                invariant
                    p <= r@.len(),
                    i < windows@.len(),
                    windows@[i as int].pos == Some(key),
                    forall|a: int| 0 <= a < r@.len() ==> #[trigger] r@[a] < i && on_minimap(windows@[r@[a] as int], active_ws),
                    forall|a: int| 0 <= a < p ==> !pos_lt(key, windows@[#[trigger] r@[a] as int].pos->0),
                decreases r@.len() - p,
            {
                p = p + 1;
            }
            let ghost old_r = r@;
            proof {
                assert forall|a: int| p <= a < old_r.len() implies pos_lt(key, windows@[#[trigger] old_r[a] as int].pos->0) by {
                    if a > p {
                        assert(drawn_before(windows@, old_r[p as int] as int, old_r[a] as int));
                    }
                }
            }
            r.insert(p, i);
            proof {
                old_r.insert_ensures(p as int, i);
                assert forall|a: int, b: int| 0 <= a < b < r@.len() implies drawn_before(
                    windows@,
                    #[trigger] r@[a] as int,
                    #[trigger] r@[b] as int,
                ) by {
                    if b < p {
                        assert(r@[a] == old_r[a] && r@[b] == old_r[b]);
                    } else if b == p {
                        assert(r@[a] == old_r[a]);
                    } else if a < p {
                        assert(r@[a] == old_r[a] && r@[b] == old_r[b - 1]);
                    } else if a == p {
                        assert(r@[b] == old_r[b - 1]);
                    } else {
                        assert(r@[a] == old_r[a - 1] && r@[b] == old_r[b - 1]);
                    }
                }
                assert forall|j: int| 0 <= j < i + 1 && on_minimap(windows@[j], active_ws) implies #[trigger] r@.contains(j as usize) by {
                    if j < i {
                        assert(old_r.contains(j as usize));
                        let a = choose|a: int| 0 <= a < old_r.len() && old_r[a] == j as usize;
                        if a < p {
                            assert(r@[a] == j as usize);
                        } else {
                            assert(r@[a + 1] == j as usize);
                        }
                    } else {
                        assert(r@[p as int] == i);
                    }
                }
                assert forall|a: int| 0 <= a < r@.len() implies #[trigger] r@[a] < i + 1 && on_minimap(windows@[r@[a] as int], active_ws) by {
                    if a < p {
                        assert(r@[a] == old_r[a]);
                    } else if a > p {
                        assert(r@[a] == old_r[a - 1]);
                    }
                }
            }
        }
    }
    r
}

// ── redraw key ──────────────────────────────────────────────────────────

/// One wrapping step of the layout fingerprint.
pub open spec fn fp_mix(fp: u64, v: u64) -> u64 {
    u64_specs::wrapping_add(u64_specs::wrapping_mul(fp, 1_000_003), v)
}

/// The fingerprint after mixing in a window's id, position and tile size.
pub open spec fn fp_window(fp: u64, w: MinimapWindow) -> u64 {
    let (col, row) = match w.pos {
        Some(p) => (p.col, p.row),
        None => (0usize, 0usize),
    };
    fp_mix(fp_mix(fp_mix(fp_mix(fp_mix(fp, w.id), col as u64), row as u64), w.tile_w_milli), w.tile_h_milli)
}

pub open spec fn fingerprint_spec(ws: Seq<MinimapWindow>, order: Seq<usize>) -> u64
    decreases order.len(),
{
    if order.len() == 0 {
        0
    } else {
        fp_window(fingerprint_spec(ws, order.drop_last()), ws[order.last() as int])
    }
}

fn mix(fp: u64, v: u64) -> (r: u64)
    ensures
        r == fp_mix(fp, v),
{
    fp.wrapping_mul(1_000_003).wrapping_add(v)
}

/// The fingerprint of the drawn windows' layout, so that a change of tile
/// sizes alone still redraws.
pub fn layout_fingerprint(windows: &Vec<MinimapWindow>, order: &Vec<usize>) -> (r: u64)
    requires
        forall|a: int| 0 <= a < order@.len() ==> #[trigger] order@[a] < windows@.len(),
    ensures
        r == fingerprint_spec(windows@, order@),
{
    let mut fp: u64 = 0;
    for k in 0..order.len()
        invariant
            forall|a: int| 0 <= a < order@.len() ==> #[trigger] order@[a] < windows@.len(),
            fp == fingerprint_spec(windows@, order@.take(k as int)),
    {
        let w = windows[order[k]];
        let (col, row) = match w.pos {
            Some(p) => (p.col, p.row),
            None => (0, 0),
        };
        fp = mix(fp, w.id);
        fp = mix(fp, col as u64);
        fp = mix(fp, row as u64);
        fp = mix(fp, w.tile_w_milli);
        fp = mix(fp, w.tile_h_milli);
        proof {
            assert(order@.take(k + 1).drop_last() =~= order@.take(k as int));
        }
    }
    assert(order@.take(order@.len() as int) =~= order@);
    fp
}

/// What decides whether the minimap is rebuilt: the number of drawn
/// windows, the focused one among them, the workspace's active window, the
/// active workspace, whether the overview is open, and the layout
/// fingerprint.
#[derive(Clone, Copy, Debug, PartialEq, Eq, Structural)]
pub struct MinimapKey {
    pub count: usize,
    pub focused: Option<u64>,
    pub active_window: Option<u64>,
    pub active_ws: Option<u64>,
    pub overview_open: bool,
    pub fingerprint: u64,
}

/// The first drawn window that has focus.
pub open spec fn focused_of(ws: Seq<MinimapWindow>, order: Seq<usize>) -> Option<u64>
    decreases order.len(),
{
    if order.len() == 0 {
        None
    } else if ws[order[0] as int].is_focused {
        Some(ws[order[0] as int].id)
    } else {
        focused_of(ws, order.drop_first())
    }
}

fn first_focused(windows: &Vec<MinimapWindow>, order: &Vec<usize>) -> (r: Option<u64>)
    requires
        forall|a: int| 0 <= a < order@.len() ==> #[trigger] order@[a] < windows@.len(),
    ensures
        r == focused_of(windows@, order@),
{
    let mut k: usize = 0;
    assert(order@.skip(0) =~= order@);
    while k < order.len()
        invariant
            k <= order@.len(),
            forall|a: int| 0 <= a < order@.len() ==> #[trigger] order@[a] < windows@.len(),
            focused_of(windows@, order@) == focused_of(windows@, order@.skip(k as int)),
        decreases order@.len() - k,
    {
        let ghost rest = order@.skip(k as int);
        assert(rest[0] == order@[k as int]);
        assert(rest.drop_first() =~= order@.skip(k + 1));
        if windows[order[k]].is_focused {
            return Some(windows[order[k]].id);
        }
        k = k + 1;
    }
    assert(order@.skip(k as int) =~= Seq::<usize>::empty());
    None
}

pub fn minimap_key(
    windows: &Vec<MinimapWindow>,
    order: &Vec<usize>,
    active_window: Option<u64>,
    active_ws: Option<u64>,
    overview_open: bool,
) -> (r: MinimapKey)
    requires
        forall|a: int| 0 <= a < order@.len() ==> #[trigger] order@[a] < windows@.len(),
    ensures
        r == (MinimapKey {
            count: order@.len() as usize,
            focused: focused_of(windows@, order@),
            active_window,
            active_ws,
            overview_open,
            fingerprint: fingerprint_spec(windows@, order@),
        }),
{
    MinimapKey {
        count: order.len(),
        focused: first_focused(windows, order),
        active_window,
        active_ws,
        overview_open,
        fingerprint: layout_fingerprint(windows, order),
    }
}

// ── redraw ──────────────────────────────────────────────────────────────

/// What a snapshot does to the minimap.
#[derive(Clone, Copy, Debug, PartialEq, Eq, Structural)]
pub enum MinimapUpdate {
    /// The key is the last one drawn: nothing changes.
    Unchanged,
    /// Rebuild the tiles; the capsule shows only when there are windows.
    Redraw { visible: bool },
}

/// The last key drawn and the update after a snapshot with key `key`.
pub open spec fn minimap_update_of(last: Option<MinimapKey>, key: MinimapKey) -> (
    Option<MinimapKey>,
    MinimapUpdate,
) {
    if last == Some(key) {
        (last, MinimapUpdate::Unchanged)
    } else {
        (Some(key), MinimapUpdate::Redraw { visible: key.count > 0 })
    }
}

/// Decides on a snapshot whose key is `key`, given the last key drawn:
/// skip when it is the same, else remember it and redraw, showing the
/// capsule only when some window is drawn.
pub fn minimap_step(last: &mut Option<MinimapKey>, key: MinimapKey) -> (r: MinimapUpdate)
    ensures
        (*final(last), r) == minimap_update_of(*old(last), key),
{
    let same = match last {
        Some(k) => *k == key,
        None => false,
    };
    if same {
        MinimapUpdate::Unchanged
    } else {
        *last = Some(key);
        MinimapUpdate::Redraw { visible: key.count > 0 }
    }
}

/// The same snapshot twice redraws at most once: after any step with
/// `key`, a second step with `key` changes nothing.
pub proof fn law_minimap_redraws_once(last: Option<MinimapKey>, key: MinimapKey)
    ensures
        ({
            let (l1, _) = minimap_update_of(last, key);
            minimap_update_of(l1, key) == (l1, MinimapUpdate::Unchanged)
        }),
{
}

// ── tiles ───────────────────────────────────────────────────────────────

/// Which tiles start a new column: the column differs from the current
/// one, which starts as column 0.
pub open spec fn column_breaks_spec(cols: Seq<usize>) -> (Seq<bool>, usize)
    decreases cols.len(),
{
    if cols.len() == 0 {
        (Seq::<bool>::empty(), 0usize)
    } else {
        let (b, cur) = column_breaks_spec(cols.drop_last());
        let c = cols.last();
        if c != cur {
            (b.push(true), c)
        } else {
            (b.push(false), cur)
        }
    }
}

/// For the drawn windows' columns in order: whether each tile starts a new
/// column (it is then placed right of the previous tile, at the top).
pub fn column_breaks(cols: &Vec<usize>) -> (r: Vec<bool>)
    ensures
        r@ == column_breaks_spec(cols@).0,
{
    let mut r: Vec<bool> = Vec::new();
    let mut cur: usize = 0;
    for k in 0..cols.len()
        invariant
            (r@, cur) == column_breaks_spec(cols@.take(k as int)),
    {
        proof {
            assert(cols@.take(k + 1).drop_last() =~= cols@.take(k as int));
        }
        if cols[k] != cur {
            r.push(true);
            cur = cols[k];
        } else {
            r.push(false);
        }
    }
    assert(cols@.take(cols@.len() as int) =~= cols@);
    r
}

/// The extra classes of a tile: focused wins over being the workspace's
/// active window; the overview adds its own.
pub fn tile_classes(focused: bool, active_on_ws: bool, overview_open: bool) -> (r: Vec<&'static str>)
    ensures
        r@ == (if focused {
            seq!["minimap-window-focused"]
        } else if active_on_ws {
            seq!["minimap-window-active"]
        } else {
            Seq::<&'static str>::empty()
        }) + (if overview_open {
            seq!["minimap-window-overview"]
        } else {
            Seq::<&'static str>::empty()
        }),
{
    let mut v: Vec<&'static str> = Vec::new();
    if focused {
        v.push("minimap-window-focused");
    } else if active_on_ws {
        v.push("minimap-window-active");
    }
    if overview_open {
        v.push("minimap-window-overview");
    }
    assert(v@ =~= (if focused {
        seq!["minimap-window-focused"]
    } else if active_on_ws {
        seq!["minimap-window-active"]
    } else {
        Seq::<&'static str>::empty()
    }) + (if overview_open {
        seq!["minimap-window-overview"]
    } else {
        Seq::<&'static str>::empty()
    }));
    v
}

} // verus!
