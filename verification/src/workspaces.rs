//! The workspace switcher: which workspaces a bar shows, in what order,
//! and the per-dot state and width animation baselines.

use vstd::prelude::*;

use std::collections::HashMap;
use vstd::std_specs::iter::IteratorSpec;

use crate::text::{chars_of, eq_chars, str_eq};

verus! {

/// The fields of a niri workspace that the bar reads.
#[derive(Clone, Debug, PartialEq, Eq)]
pub struct WorkspaceInfo {
    pub id: u64,
    pub idx: u8,
    pub output: Option<String>,
    pub is_active: bool,
    pub is_urgent: bool,
    pub active_window_id: Option<u64>,
}

pub open spec fn on_output(w: WorkspaceInfo, connector: Seq<char>) -> bool {
    w.output matches Some(o) && o@ == connector
}

pub open spec fn active_on(w: WorkspaceInfo, connector: Seq<char>) -> bool {
    w.is_active && on_output(w, connector)
}

/// `k` is the first workspace active on monitor `connector`.
pub open spec fn first_active_on(ws: Seq<WorkspaceInfo>, connector: Seq<char>, k: int) -> bool {
    0 <= k < ws.len() && active_on(ws[k], connector) && forall|j: int|
        0 <= j < k ==> !active_on(#[trigger] ws[j], connector)
}

fn output_is(w: &WorkspaceInfo, c: &Vec<char>) -> (r: bool)
    ensures
        r == on_output(*w, c@),
{
    match &w.output {
        Some(o) => eq_chars(&chars_of(o.as_str()), c),
        None => false,
    }
}

/// There is at most one first active workspace.
pub proof fn lemma_first_active_unique(ws: Seq<WorkspaceInfo>, c: Seq<char>, a: int, b: int)
    requires
        first_active_on(ws, c, a),
        first_active_on(ws, c, b),
    ensures
        a == b,
{
    if a < b {
        assert(!active_on(ws[a], c));
    } else if b < a {
        assert(!active_on(ws[b], c));
    }
}

/// The first workspace that is active on monitor `connector`.
pub fn active_workspace_on(workspaces: &Vec<WorkspaceInfo>, connector: &str) -> (r: Option<usize>)
    ensures
        r matches Some(k) ==> first_active_on(workspaces@, connector@, k as int),
        r is None ==> forall|j: int|
            0 <= j < workspaces@.len() ==> !active_on(#[trigger] workspaces@[j], connector@),
{
    let c = chars_of(connector);
    let mut i: usize = 0;
    while i < workspaces.len()
        invariant
            i <= workspaces.len(),
            c@ == connector@,
            forall|j: int| 0 <= j < i ==> !active_on(#[trigger] workspaces@[j], connector@),
        decreases workspaces.len() - i,
    {
        if workspaces[i].is_active && output_is(&workspaces[i], &c) {
            return Some(i);
        }
        i = i + 1;
    }
    None
}

// ── the dots of one monitor, in order ───────────────────────────────────

/// `a` comes strictly before `b` when sorting workspace indices by their
/// `idx`, ties kept in list order.
pub open spec fn idx_before(ws: Seq<WorkspaceInfo>, a: int, b: int) -> bool {
    ws[a].idx < ws[b].idx || (ws[a].idx == ws[b].idx && a < b)
}

/// The positions (into `workspaces`) of the workspaces on monitor
/// `connector`, stably sorted by `idx`: every listed workspace is on that
/// monitor, every workspace on it is listed, and each entry comes strictly
/// before the next by (`idx`, position).
pub fn workspaces_on(workspaces: &Vec<WorkspaceInfo>, connector: &str) -> (r: Vec<usize>)
    ensures
        forall|a: int| 0 <= a < r@.len() ==> #[trigger] r@[a] < workspaces@.len() && on_output(
            workspaces@[r@[a] as int],
            connector@,
        ),
        forall|j: int|
            0 <= j < workspaces@.len() && on_output(workspaces@[j], connector@) ==> #[trigger] r@.contains(
                j as usize,
            ),
        forall|a: int, b: int|
            0 <= a < b < r@.len() ==> idx_before(workspaces@, #[trigger] r@[a] as int, #[trigger] r@[b] as int),
{
    let c = chars_of(connector);
    let mut r: Vec<usize> = Vec::new();
    let mut i: usize = 0;
    while i < workspaces.len()
        invariant
            i <= workspaces.len(),
            c@ == connector@,
            forall|a: int| 0 <= a < r@.len() ==> #[trigger] r@[a] < i && on_output(
                workspaces@[r@[a] as int],
                connector@,
            ),
            forall|j: int|
                0 <= j < i && on_output(workspaces@[j], connector@) ==> #[trigger] r@.contains(j as usize),
            forall|a: int, b: int|
                0 <= a < b < r@.len() ==> idx_before(workspaces@, #[trigger] r@[a] as int, #[trigger] r@[b] as int),
        decreases workspaces.len() - i,
    {
        if output_is(&workspaces[i], &c) {
            let key = workspaces[i].idx;
            // Insert after every entry whose idx is not larger: those
            // entries all come earlier in the list.
            let mut p: usize = 0;
            while p < r.len() && workspaces[r[p]].idx <= key
                invariant
                    p <= r@.len(),
                    i < workspaces@.len(),
                    forall|a: int| 0 <= a < r@.len() ==> #[trigger] r@[a] < i,
                    forall|a: int| 0 <= a < p ==> workspaces@[#[trigger] r@[a] as int].idx <= key,
                decreases r@.len() - p,
            {
                p = p + 1;
            }
            let ghost old_r = r@;
            proof {
                assert forall|a: int| p <= a < old_r.len() implies workspaces@[#[trigger] old_r[a] as int].idx > key by {
                    if p < old_r.len() {
                        assert(workspaces@[old_r[p as int] as int].idx > key);
                        if a > p {
                            assert(idx_before(workspaces@, old_r[p as int] as int, old_r[a] as int));
                        }
                    }
                }
            }
            r.insert(p, i);
            proof {
                assert(r@ == old_r.insert(p as int, i));
                assert forall|a: int, b: int| 0 <= a < b < r@.len() implies idx_before(
                    workspaces@,
                    #[trigger] r@[a] as int,
                    #[trigger] r@[b] as int,
                ) by {
                    if a < p && b < p {
                        assert(r@[a] == old_r[a] && r@[b] == old_r[b]);
                    } else if a < p && b == p {
                        assert(r@[a] == old_r[a]);
                    } else if a < p && b > p {
                        assert(r@[a] == old_r[a] && r@[b] == old_r[b - 1]);
                    } else if a == p {
                        assert(r@[b] == old_r[b - 1]);
                    } else {
                        assert(r@[a] == old_r[a - 1] && r@[b] == old_r[b - 1]);
                    }
                }
                assert forall|j: int|
                    0 <= j < i + 1 && on_output(workspaces@[j], connector@) implies #[trigger] r@.contains(
                    j as usize,
                ) by {
                    if j < i {
                        assert(old_r.contains(j as usize));
                        let a = choose|a: int| 0 <= a < old_r.len() && old_r[a] == j as usize;
                        if a < p {
                            assert(r@[a] == j as usize);
                        } else {
                            assert(r@[a + 1] == j as usize);
                        }
                        assert(r@.contains(j as usize));
                    } else {
                        assert(r@[p as int] == i);
                        assert(r@.contains(j as usize));
                    }
                }
                assert forall|a: int| 0 <= a < r@.len() implies #[trigger] r@[a] < i + 1 && on_output(
                    workspaces@[r@[a] as int],
                    connector@,
                ) by {
                    if a < p {
                        assert(r@[a] == old_r[a]);
                    } else if a > p {
                        assert(r@[a] == old_r[a - 1]);
                    }
                }
            }
        }
        i = i + 1;
    }
    r
}

// ── dot state (panel bar) ───────────────────────────────────────────────

#[derive(Clone, Copy, Debug, PartialEq, Eq, Structural)]
pub enum DotKind {
    Active,
    Windows,
    Empty,
}

/// A dot's state: which kind it shows and whether it is urgent.
#[derive(Clone, Copy, Debug, PartialEq, Eq, Structural)]
pub struct DotState {
    pub kind: DotKind,
    pub urgent: bool,
}

/// Active wins over having windows; otherwise the dot is empty.
pub fn dot_state(ws: &WorkspaceInfo) -> (r: DotState)
    ensures
        r.urgent == ws.is_urgent,
        ws.is_active ==> r.kind == DotKind::Active,
        !ws.is_active && ws.active_window_id is Some ==> r.kind == DotKind::Windows,
        !ws.is_active && ws.active_window_id is None ==> r.kind == DotKind::Empty,
{
    let kind = if ws.is_active {
        DotKind::Active
    } else if ws.active_window_id.is_some() {
        DotKind::Windows
    } else {
        DotKind::Empty
    };
    DotState { kind, urgent: ws.is_urgent }
}

pub fn dot_class(kind: DotKind) -> (r: &'static str)
    ensures
        kind == DotKind::Active ==> r@ == "workspace-dot-active"@,
        kind == DotKind::Windows ==> r@ == "workspace-dot-windows"@,
        kind == DotKind::Empty ==> r@ == "workspace-dot-empty"@,
{
    match kind {
        DotKind::Active => "workspace-dot-active",
        DotKind::Windows => "workspace-dot-windows",
        DotKind::Empty => "workspace-dot-empty",
    }
}

// ── dot animation (capsule bar) ─────────────────────────────────────────

/// Base dot width in pixels.
pub const DOT_SIZE: u32 = 9;
/// Width of the active workspace's dot.
pub const ACTIVE_W: u32 = 18;
/// Extra width while hovered.
pub const HOVER_BONUS: u32 = 5;

/// Theme colours a dot can take.
#[derive(Clone, Copy, Debug, PartialEq, Eq, Structural)]
pub struct DotPalette {
    pub accent: u32,
    pub text_dim: u32,
    pub fg_gutter: u32,
    pub surface: u32,
}

/// What a dot is animating toward, and from where.
#[derive(Clone, Copy, Debug, PartialEq, Eq, Structural)]
pub struct DotMemory {
    pub target_w: u32,
    pub target_color: u32,
    pub baseline_w: u32,
    pub baseline_color: u32,
}

/// The width and colour a dot should show, and its state tag (`a`ctive,
/// `o`ccupied, `e`mpty).
pub open spec fn dot_target_spec(
    is_active: bool,
    has_windows: bool,
    hovered: bool,
    p: DotPalette,
) -> (u32, u32, char) {
    let extra: u32 = if hovered {
        HOVER_BONUS
    } else {
        0
    };
    if is_active {
        ((ACTIVE_W + extra) as u32, p.accent, 'a')
    } else if has_windows {
        ((DOT_SIZE + extra) as u32, p.text_dim, 'o')
    } else {
        ((DOT_SIZE + extra) as u32, p.fg_gutter, 'e')
    }
}

pub fn dot_target(is_active: bool, has_windows: bool, hovered: bool, p: DotPalette) -> (r: (
    u32,
    u32,
    char,
))
    ensures
        r == dot_target_spec(is_active, has_windows, hovered, p),
{
    let extra: u32 = if hovered {
        HOVER_BONUS
    } else {
        0
    };
    if is_active {
        (ACTIVE_W + extra, p.accent, 'a')
    } else if has_windows {
        (DOT_SIZE + extra, p.text_dim, 'o')
    } else {
        (DOT_SIZE + extra, p.fg_gutter, 'e')
    }
}

/// Hovering a dot widens it by exactly `HOVER_BONUS` and changes neither
/// its colour nor its state, for active dots as for the others. Unhovered,
/// the active dot is `ACTIVE_W` wide in the accent colour, the others
/// `DOT_SIZE` wide, dimmed when the workspace has windows.
pub proof fn law_hover_widens_dot(is_active: bool, has_windows: bool, p: DotPalette)
    ensures
        ({
            let plain = dot_target_spec(is_active, has_windows, false, p);
            let hov = dot_target_spec(is_active, has_windows, true, p);
            &&& hov.0 == plain.0 + HOVER_BONUS
            &&& hov.1 == plain.1
            &&& hov.2 == plain.2
            &&& is_active ==> plain == (ACTIVE_W, p.accent, 'a')
            &&& !is_active && has_windows ==> plain == (DOT_SIZE, p.text_dim, 'o')
            &&& !is_active && !has_windows ==> plain == (DOT_SIZE, p.fg_gutter, 'e')
        }),
{
}

/// The memory after a render: a new dot grows from nothing in the surface
/// colour; a changed target rebases onto the previous target; an unchanged
/// target keeps the memory as it is.
pub open spec fn next_memory_spec(
    prev: Option<DotMemory>,
    target_w: u32,
    target_color: u32,
    surface: u32,
) -> DotMemory {
    match prev {
        None => DotMemory { target_w, target_color, baseline_w: 0, baseline_color: surface },
        Some(m) => if m.target_w != target_w || m.target_color != target_color {
            DotMemory {
                target_w,
                target_color,
                baseline_w: m.target_w,
                baseline_color: m.target_color,
            }
        } else {
            m
        },
    }
}

pub fn next_memory(prev: Option<DotMemory>, target_w: u32, target_color: u32, surface: u32) -> (r:
    DotMemory)
    ensures
        r == next_memory_spec(prev, target_w, target_color, surface),
{
    match prev {
        None => DotMemory { target_w, target_color, baseline_w: 0, baseline_color: surface },
        Some(m) => {
            if m.target_w != target_w || m.target_color != target_color {
                DotMemory {
                    target_w,
                    target_color,
                    baseline_w: m.target_w,
                    baseline_color: m.target_color,
                }
            } else {
                m
            }
        },
    }
}

/// A render always ends on the target; re-rendering the same target
/// leaves the memory unchanged, so the animation does not restart.
pub proof fn law_memory_settles(prev: Option<DotMemory>, w: u32, c: u32, surface: u32)
    ensures
        next_memory_spec(prev, w, c, surface).target_w == w,
        next_memory_spec(prev, w, c, surface).target_color == c,
        next_memory_spec(Some(next_memory_spec(prev, w, c, surface)), w, c, surface)
            == next_memory_spec(prev, w, c, surface),
{
}

/// One dot of the capsule bar as the renderer draws it.
#[derive(Clone, Copy, Debug, PartialEq, Eq, Structural)]
pub struct DotRender {
    pub ws_id: u64,
    pub state_tag: char,
    pub hovered: bool,
    pub target_w: u32,
    pub target_color: u32,
    pub from_w: u32,
    pub from_color: u32,
}

/// Values keyed by workspace id.
pub struct IdMap<V> {
    map: HashMap<u64, V>,
}

/// The animation memories of the capsule bar's dots.
pub type DotMemories = IdMap<DotMemory>;

impl<V: Copy> IdMap<V> {
    /// The values, by workspace id.
    pub closed spec fn view(&self) -> Map<u64, V> {
        self.map@
    }

    pub fn new() -> (r: Self)
        ensures
            r.view() == Map::<u64, V>::empty(),
    {
        IdMap { map: HashMap::new() }
    }

    /// The value for `id`.
    pub fn get(&self, id: u64) -> (r: Option<V>)
        ensures
            r == (if self.view().contains_key(id) {
                Some(self.view()[id])
            } else {
                None
            }),
    {
        broadcast use vstd::std_specs::hash::group_hash_axioms;

        match self.map.get(&id) {
            Some(v) => Some(*v),
            None => None,
        }
    }

    /// The ids that have a value, each once, in no particular order.
    pub fn keys(&self) -> (r: Vec<u64>)
        ensures
            r@.to_set() == self.view().dom(),
            r@.no_duplicates(),
    {
        broadcast use vstd::std_specs::hash::group_hash_axioms;

        let mut r: Vec<u64> = Vec::new();
        let ghost all = self.map.keys().remaining();
        for k in it: self.map.keys()
            invariant
                it.seq() == all,
                all.unref().to_set() == self.map@.dom(),
                all.no_duplicates(),
                r@ == all.unref().take(it.index() as int),
        {
            proof {
                assert(all.unref().take(it.index() + 1) =~= all.unref().take(it.index() as int).push(*k));
            }
            r.push(*k);
        }
        proof {
            assert(all.unref().take(all.len() as int) =~= all.unref());
            assert forall|i: int, j: int| 0 <= i < j < r@.len() implies r@[i] != r@[j] by {
                assert(all[i] != all[j]);
            }
        }
        r
    }

    /// Keeps only the ids in `alive`.
    pub fn retain_ids(&mut self, alive: &Vec<u64>)
        ensures
            final(self).view() == old(self).view().restrict(alive@.to_set()),
    {
        broadcast use vstd::std_specs::hash::group_hash_axioms;

        let ghost before = self.map@;
        let ks = self.keys();
        for i in 0..ks.len()
            invariant
                ks@.to_set() == before.dom(),
                forall|x: u64| #[trigger] self.map@.contains_key(x) == (before.contains_key(x)
                    && !(ks@.take(i as int).contains(x) && !alive@.contains(x))),
                forall|x: u64| #[trigger] self.map@.contains_key(x) ==> self.map@[x] == before[x],
        {
            let k = ks[i];
            if !vec_contains_u64(alive, k) {
                self.map.remove(&k);
            }
            proof {
                assert forall|x: u64| ks@.take(i + 1).contains(x) == (ks@.take(i as int).contains(x) || x == k) by {
                    assert(ks@.take(i + 1) =~= ks@.take(i as int).push(k));
                    if ks@.take(i + 1).contains(x) && x != k {
                        let j = choose|j: int| 0 <= j < i + 1 && #[trigger] ks@.take(i + 1)[j] == x;
                        assert(ks@.take(i as int)[j] == x);
                    }
                    if x == k {
                        assert(ks@.take(i + 1)[i as int] == x);
                    }
                }
            }
        }
        proof {
            assert(ks@.take(ks@.len() as int) =~= ks@);
            assert forall|x: u64| before.contains_key(x) implies ks@.contains(x) by {
                assert(ks@.to_set().contains(x));
            }
            assert(self.map@ =~= before.restrict(alive@.to_set()));
        }
    }

    /// Records the value for `id`.
    pub fn set(&mut self, id: u64, m: V)
        ensures
            final(self).view() == old(self).view().insert(id, m),
    {
        broadcast use vstd::std_specs::hash::group_hash_axioms;

        self.map.insert(id, m);
    }
}

fn vec_contains_u64(v: &Vec<u64>, x: u64) -> (r: bool)
    ensures
        r == v@.contains(x),
{
    let mut i: usize = 0;
    while i < v.len()
        invariant
            i <= v.len(),
            forall|j: int| 0 <= j < i ==> v@[j] != x,
        decreases v.len() - i,
    {
        if v[i] == x {
            return true;
        }
        i = i + 1;
    }
    false
}

// ── the capsule bar's monitor ───────────────────────────────────────────

/// The UUID that `uuid::Uuid::new_v5` gives in the DNS namespace for the
/// UTF-8 bytes of `name`, as the `u128` of its big-endian bytes.
pub uninterp spec fn dns_v5_uuid(name: Seq<char>) -> u128;

/// Calls `uuid::Uuid::new_v5(&Uuid::NAMESPACE_DNS, name.as_bytes())` and
/// takes the value with `Uuid::as_u128`; the result is named, not stated
/// (it is a SHA-1 hash of the name).
#[verifier::external_body]
fn dns_uuid(name: &str) -> (r: u128)
    ensures
        r == dns_v5_uuid(name@),
{
    uuid::Uuid::new_v5(&uuid::Uuid::NAMESPACE_DNS, name.as_bytes()).as_u128()
}

/// The first position whose UUID is the display's.
pub fn first_matching_uuid(uuids: &Vec<u128>, display: u128) -> (r: Option<usize>)
    ensures
        match r {
            Some(i) => i < uuids@.len() && uuids@[i as int] == display && forall|j: int|
                0 <= j < i ==> #[trigger] uuids@[j] != display,
            None => forall|j: int| 0 <= j < uuids@.len() ==> #[trigger] uuids@[j] != display,
        },
{
    for i in 0..uuids.len()
        invariant
            forall|j: int| 0 <= j < i ==> #[trigger] uuids@[j] != display,
    {
        if uuids[i] == display {
            return Some(i);
        }
    }
    None
}

/// The niri output a display shows: the display's UUID is the DNS-namespace
/// v5 UUID of the output's name; the first output whose name gives it.
pub fn output_for_display(outputs: &Vec<String>, display: u128) -> (r: Option<usize>)
    ensures
        match r {
            Some(i) => i < outputs@.len() && dns_v5_uuid(outputs@[i as int]@) == display && forall|j: int|
                0 <= j < i ==> dns_v5_uuid(#[trigger] outputs@[j]@) != display,
            None => forall|j: int| 0 <= j < outputs@.len() ==> dns_v5_uuid(#[trigger] outputs@[j]@) != display,
        },
{
    let mut uuids: Vec<u128> = Vec::new();
    for i in 0..outputs.len()
        invariant
            uuids@.len() == i,
            forall|j: int| 0 <= j < i ==> #[trigger] uuids@[j] == dns_v5_uuid(outputs@[j]@),
    {
        uuids.push(dns_uuid(outputs[i].as_str()));
    }
    let r = first_matching_uuid(&uuids, display);
    proof {
        assert forall|j: int| 0 <= j < outputs@.len() implies uuids@[j] == dns_v5_uuid(#[trigger] outputs@[j]@) by {}
    }
    r
}

/// A workspace is drawn on a bar unless both the bar's output and the
/// workspace's output are known and differ.
pub open spec fn shown_on(w: WorkspaceInfo, output: Option<Seq<char>>) -> bool {
    match (output, w.output) {
        (Some(b), Some(o)) => b == o@,
        _ => true,
    }
}

/// The positions among the first `n` workspaces of those shown.
pub open spec fn shown_upto(ws: Seq<WorkspaceInfo>, output: Option<Seq<char>>, n: int) -> Seq<usize>
    decreases n,
{
    if n <= 0 {
        Seq::<usize>::empty()
    } else {
        let p = shown_upto(ws, output, n - 1);
        if shown_on(ws[n - 1], output) {
            p.push((n - 1) as usize)
        } else {
            p
        }
    }
}

/// The positions of the workspaces the capsule bar draws, in order.
pub fn visible_for_output(workspaces: &Vec<WorkspaceInfo>, output: Option<&str>) -> (r: Vec<usize>)
    ensures
        r@ == shown_upto(
            workspaces@,
            match output {
                Some(o) => Some(o@),
                None => None,
            },
            workspaces@.len() as int,
        ),
{
    let ghost ov = match output {
        Some(o) => Some(o@),
        None => None,
    };
    let mut r: Vec<usize> = Vec::new();
    for i in 0..workspaces.len()
        invariant
            ov == (match output {
                Some(o) => Some(o@),
                None => None,
            }),
            r@ == shown_upto(workspaces@, ov, i as int),
    {
        let keep = match (output, &workspaces[i].output) {
            (Some(b), Some(o)) => str_eq(b, o.as_str()),
            _ => true,
        };
        assert(keep == shown_on(workspaces@[i as int], ov));
        if keep {
            r.push(i);
        }
    }
    r
}

/// The hovered dot after the pointer enters (`hovered`) or leaves dot
/// `ws_id`, and whether to redraw: entering a dot not already hovered
/// hovers it; leaving the hovered dot clears it; nothing else changes.
pub fn hover_update(current: Option<u64>, ws_id: u64, hovered: bool) -> (r: (Option<u64>, bool))
    ensures
        hovered && current != Some(ws_id) ==> r == (Some(ws_id), true),
        hovered && current == Some(ws_id) ==> r == (current, false),
        !hovered && current == Some(ws_id) ==> r == (None::<u64>, true),
        !hovered && current != Some(ws_id) ==> r == (current, false),
{
    if hovered {
        if current != Some(ws_id) {
            (Some(ws_id), true)
        } else {
            (current, false)
        }
    } else if current == Some(ws_id) {
        (None, true)
    } else {
        (current, false)
    }
}

// ── the capsule bar's dots ──────────────────────────────────────────────

/// The memories after the dots of `ws[shown[0..n]]` were drawn, and what
/// was drawn.
pub open spec fn dots_upto(
    mem: Map<u64, DotMemory>,
    ws: Seq<WorkspaceInfo>,
    shown: Seq<usize>,
    hovered: Option<u64>,
    p: DotPalette,
    n: int,
) -> (Map<u64, DotMemory>, Seq<DotRender>)
    decreases n,
{
    if n <= 0 {
        (mem, Seq::<DotRender>::empty())
    } else {
        let (m, d) = dots_upto(mem, ws, shown, hovered, p, n - 1);
        let w = ws[shown[n - 1] as int];
        let is_hov = hovered == Some(w.id);
        let (tw, tc, tag) = dot_target_spec(w.is_active, w.active_window_id is Some, is_hov, p);
        let prev = if m.contains_key(w.id) { Some(m[w.id]) } else { None };
        let nm = next_memory_spec(prev, tw, tc, p.surface);
        (
            m.insert(w.id, nm),
            d.push(DotRender {
                ws_id: w.id,
                state_tag: tag,
                hovered: is_hov,
                target_w: nm.target_w,
                target_color: nm.target_color,
                from_w: nm.baseline_w,
                from_color: nm.baseline_color,
            }),
        )
    }
}

/// The dots of the shown workspaces (`shown` indexes `workspaces`): the
/// memories of workspaces no longer shown are dropped first; then each dot
/// takes its target (see `dot_target`) and its memory moves on (see
/// `next_memory`).
pub fn render_dots(
    workspaces: &Vec<WorkspaceInfo>,
    shown: &Vec<usize>,
    hovered: Option<u64>,
    palette: DotPalette,
    memories: &mut DotMemories,
) -> (r: Vec<DotRender>)
    requires
        forall|k: int| 0 <= k < shown@.len() ==> #[trigger] shown@[k] < workspaces@.len(),
    ensures
        ({
            let alive = shown@.map_values(|i: usize| workspaces@[i as int].id).to_set();
            let (m, d) = dots_upto(old(memories).view().restrict(alive), workspaces@, shown@, hovered, palette, shown@.len() as int);
            final(memories).view() == m && r@ == d
        }),
{
    let mut alive: Vec<u64> = Vec::new();
    for k in 0..shown.len()
        invariant
            forall|k: int| 0 <= k < shown@.len() ==> #[trigger] shown@[k] < workspaces@.len(),
            alive@ == shown@.take(k as int).map_values(|i: usize| workspaces@[i as int].id),
    {
        alive.push(workspaces[shown[k]].id);
        assert(shown@.take(k + 1).map_values(|i: usize| workspaces@[i as int].id) =~= shown@.take(k as int).map_values(
            |i: usize| workspaces@[i as int].id,
        ).push(workspaces@[shown@[k as int] as int].id));
    }
    assert(shown@.take(shown@.len() as int) =~= shown@);
    memories.retain_ids(&alive);
    let ghost start = memories.view();
    let mut dots: Vec<DotRender> = Vec::new();
    for k in 0..shown.len()
        invariant
            forall|k: int| 0 <= k < shown@.len() ==> #[trigger] shown@[k] < workspaces@.len(),
            ({
                let (m, d) = dots_upto(start, workspaces@, shown@, hovered, palette, k as int);
                memories.view() == m && dots@ == d
            }),
    {
        let w = &workspaces[shown[k]];
        let is_hov = match hovered {
            Some(h) => h == w.id,
            None => false,
        };
        let (tw, tc, tag) = dot_target(w.is_active, w.active_window_id.is_some(), is_hov, palette);
        let prev = memories.get(w.id);
        let nm = next_memory(prev, tw, tc, palette.surface);
        memories.set(w.id, nm);
        dots.push(DotRender {
            ws_id: w.id,
            state_tag: tag,
            hovered: is_hov,
            target_w: nm.target_w,
            target_color: nm.target_color,
            from_w: nm.baseline_w,
            from_color: nm.baseline_color,
        });
    }
    dots
}

/// What a dot is drawn as, from its workspace and its memory.
pub open spec fn dot_render_of(w: WorkspaceInfo, hovered: Option<u64>, p: DotPalette, nm: DotMemory) -> DotRender {
    let is_hov = hovered == Some(w.id);
    let (tw, tc, tag) = dot_target_spec(w.is_active, w.active_window_id is Some, is_hov, p);
    DotRender {
        ws_id: w.id,
        state_tag: tag,
        hovered: is_hov,
        target_w: nm.target_w,
        target_color: nm.target_color,
        from_w: nm.baseline_w,
        from_color: nm.baseline_color,
    }
}

/// A memory already aims at the dot's current target.
pub open spec fn aims_at(m: DotMemory, w: WorkspaceInfo, hovered: Option<u64>, p: DotPalette) -> bool {
    let (tw, tc, tag) = dot_target_spec(w.is_active, w.active_window_id is Some, hovered == Some(w.id), p);
    m.target_w == tw && m.target_color == tc
}

/// No two shown positions name workspaces with the same id.
pub open spec fn distinct_shown_ids(ws: Seq<WorkspaceInfo>, shown: Seq<usize>) -> bool {
    forall|a: int, b: int| 0 <= a < b < shown.len() ==> #[trigger] ws[shown[a] as int].id != #[trigger] ws[
        shown[b] as int].id
}

proof fn lemma_dots_first(
    mem: Map<u64, DotMemory>,
    ws: Seq<WorkspaceInfo>,
    shown: Seq<usize>,
    hovered: Option<u64>,
    p: DotPalette,
    n: int,
)
    requires
        0 <= n <= shown.len(),
        distinct_shown_ids(ws, shown),
    ensures
        ({
            let (m, d) = dots_upto(mem, ws, shown, hovered, p, n);
            &&& forall|x: u64| #[trigger] m.contains_key(x) ==> mem.contains_key(x)
                || shown.map_values(|i: usize| ws[i as int].id).contains(x)
            &&& forall|k: int| 0 <= k < n ==> m.contains_key(#[trigger] ws[shown[k] as int].id)
                && aims_at(m[ws[shown[k] as int].id], ws[shown[k] as int], hovered, p)
            &&& d.len() == n
            &&& forall|k: int| 0 <= k < n ==> #[trigger] d[k] == dot_render_of(
                ws[shown[k] as int],
                hovered,
                p,
                m[ws[shown[k] as int].id],
            )
        }),
    decreases n,
{
    if n > 0 {
        lemma_dots_first(mem, ws, shown, hovered, p, n - 1);
        let w = ws[shown[n - 1] as int];
        assert(shown.map_values(|i: usize| ws[i as int].id)[n - 1] == w.id);
        let (m0, d0) = dots_upto(mem, ws, shown, hovered, p, n - 1);
        let (m, d) = dots_upto(mem, ws, shown, hovered, p, n);
        assert forall|k: int| 0 <= k < n implies m.contains_key(#[trigger] ws[shown[k] as int].id)
            && aims_at(m[ws[shown[k] as int].id], ws[shown[k] as int], hovered, p) by {
            if k < n - 1 {
                assert(ws[shown[k] as int].id != ws[shown[n - 1] as int].id);
            }
        }
        assert forall|k: int| 0 <= k < n implies #[trigger] d[k] == dot_render_of(
            ws[shown[k] as int],
            hovered,
            p,
            m[ws[shown[k] as int].id],
        ) by {
            if k < n - 1 {
                assert(ws[shown[k] as int].id != ws[shown[n - 1] as int].id);
                assert(d[k] == d0[k]);
            }
        }
    }
}

proof fn lemma_dots_again(
    m1: Map<u64, DotMemory>,
    ws: Seq<WorkspaceInfo>,
    shown: Seq<usize>,
    hovered: Option<u64>,
    p: DotPalette,
    n: int,
)
    requires
        0 <= n <= shown.len(),
        forall|k: int| 0 <= k < shown.len() ==> m1.contains_key(#[trigger] ws[shown[k] as int].id) && aims_at(
            m1[ws[shown[k] as int].id],
            ws[shown[k] as int],
            hovered,
            p,
        ),
    ensures
        dots_upto(m1, ws, shown, hovered, p, n).0 == m1,
        dots_upto(m1, ws, shown, hovered, p, n).1 == Seq::new(
            n as nat,
            |k: int| dot_render_of(ws[shown[k] as int], hovered, p, m1[ws[shown[k] as int].id]),
        ),
    decreases n,
{
    if n > 0 {
        lemma_dots_again(m1, ws, shown, hovered, p, n - 1);
        let w = ws[shown[n - 1] as int];
        assert(m1.contains_key(w.id) && aims_at(m1[w.id], w, hovered, p));
        assert(m1.insert(w.id, m1[w.id]) =~= m1);
        assert(dots_upto(m1, ws, shown, hovered, p, n).1 =~= Seq::new(
            n as nat,
            |k: int| dot_render_of(ws[shown[k] as int], hovered, p, m1[ws[shown[k] as int].id]),
        ));
    } else {
        assert(dots_upto(m1, ws, shown, hovered, p, n).1 =~= Seq::new(
            n as nat,
            |k: int| dot_render_of(ws[shown[k] as int], hovered, p, m1[ws[shown[k] as int].id]),
        ));
    }
}

/// Rendering the same shown workspaces a second time, with the same hover
/// and palette, leaves the whole memory map as the first render left it
/// and draws every dot the same way. Shown workspaces are told apart by
/// their ids.
pub proof fn law_render_settles(
    mem: Map<u64, DotMemory>,
    ws: Seq<WorkspaceInfo>,
    shown: Seq<usize>,
    hovered: Option<u64>,
    p: DotPalette,
)
    requires
        forall|k: int| 0 <= k < shown.len() ==> #[trigger] shown[k] < ws.len(),
        distinct_shown_ids(ws, shown),
    ensures
        ({
            let alive = shown.map_values(|i: usize| ws[i as int].id).to_set();
            let (m1, d1) = dots_upto(mem.restrict(alive), ws, shown, hovered, p, shown.len() as int);
            let (m2, d2) = dots_upto(m1.restrict(alive), ws, shown, hovered, p, shown.len() as int);
            m2 == m1 && d2 == d1
        }),
{
    let ids = shown.map_values(|i: usize| ws[i as int].id);
    let alive = ids.to_set();
    let m0 = mem.restrict(alive);
    let n = shown.len() as int;
    lemma_dots_first(m0, ws, shown, hovered, p, n);
    let (m1, d1) = dots_upto(m0, ws, shown, hovered, p, n);
    assert forall|x: u64| m1.contains_key(x) implies alive.contains(x) by {
        if !m0.contains_key(x) {
            assert(ids.contains(x));
        }
    }
    assert(m1.restrict(alive) =~= m1);
    lemma_dots_again(m1, ws, shown, hovered, p, n);
    assert(d1 =~= Seq::new(n as nat, |k: int| dot_render_of(ws[shown[k] as int], hovered, p, m1[ws[shown[k] as int].id])));
}

// ── the panel's dots ────────────────────────────────────────────────────

/// What the panel does for one shown workspace's dot.
#[derive(Clone, Copy, Debug, PartialEq, Eq, Structural)]
pub struct DotUpdate {
    pub id: u64,
    /// A new dot fades in.
    pub is_new: bool,
    /// The state classes are set again (the state changed or is new).
    pub restyle: bool,
    pub state: DotState,
}

pub open spec fn dot_state_spec(w: WorkspaceInfo) -> DotState {
    DotState {
        kind: if w.is_active {
            DotKind::Active
        } else if w.active_window_id is Some {
            DotKind::Windows
        } else {
            DotKind::Empty
        },
        urgent: w.is_urgent,
    }
}

pub open spec fn dot_updates_upto(m: Map<u64, DotState>, ws: Seq<WorkspaceInfo>, n: int) -> (Map<u64, DotState>, Seq<DotUpdate>)
    decreases n,
{
    if n <= 0 {
        (m, Seq::<DotUpdate>::empty())
    } else {
        let (m1, u) = dot_updates_upto(m, ws, n - 1);
        let w = ws[n - 1];
        let st = dot_state_spec(w);
        let old = if m1.contains_key(w.id) { Some(m1[w.id]) } else { None };
        (m1.insert(w.id, st), u.push(DotUpdate { id: w.id, is_new: old is None, restyle: old != Some(st), state: st }))
    }
}

/// How long a leaving dot fades out before its widget is removed, in
/// milliseconds.
pub const DOT_FADE_MS: u64 = 220;

/// What the panel does with the dot of a workspace no longer shown: its
/// opacity is set at once (the opacity transition fades it), and the
/// widget is removed from the container `remove_after_ms` later.
#[derive(Clone, Copy, Debug, PartialEq, Eq, Structural)]
pub struct DotFade {
    pub id: u64,
    /// Opacity in percent.
    pub opacity: u8,
    pub remove_after_ms: u64,
}

pub open spec fn fade_ids(fs: Seq<DotFade>) -> Seq<u64> {
    fs.map_values(|f: DotFade| f.id)
}

/// Plans the panel's dots for the shown workspaces, given the states of
/// the dots it has (by workspace id): the dots of workspaces no longer
/// shown fade out to opacity 0 and are removed `DOT_FADE_MS` later; then
/// each shown workspace's dot is created or kept, and restyled when its
/// state changed.
pub fn plan_dots(dots: &mut IdMap<DotState>, shown: &Vec<WorkspaceInfo>) -> (r: (Vec<DotFade>, Vec<DotUpdate>))
    ensures
        ({
            let alive = shown@.map_values(|w: WorkspaceInfo| w.id).to_set();
            let (m, u) = dot_updates_upto(old(dots).view().restrict(alive), shown@, shown@.len() as int);
            &&& fade_ids(r.0@).to_set() == old(dots).view().dom().filter(|id: u64| !alive.contains(id))
            &&& fade_ids(r.0@).no_duplicates()
            &&& forall|i: int| 0 <= i < r.0@.len() ==> (#[trigger] r.0@[i]).opacity == 0
                && r.0@[i].remove_after_ms == DOT_FADE_MS
            &&& final(dots).view() == m
            &&& r.1@ == u
        }),
{
    let mut alive: Vec<u64> = Vec::new();
    for k in 0..shown.len()
        invariant
            alive@ == shown@.take(k as int).map_values(|w: WorkspaceInfo| w.id),
    {
        alive.push(shown[k].id);
        assert(shown@.take(k + 1).map_values(|w: WorkspaceInfo| w.id) =~= shown@.take(k as int).map_values(
            |w: WorkspaceInfo| w.id,
        ).push(shown@[k as int].id));
    }
    assert(shown@.take(shown@.len() as int) =~= shown@);
    let keys = dots.keys();
    let ghost dom0 = dots.view().dom();
    let mut removed: Vec<u64> = Vec::new();
    for k in 0..keys.len()
        invariant
            keys@.to_set() == dom0,
            keys@.no_duplicates(),
            removed@.no_duplicates(),
            alive@ == shown@.map_values(|w: WorkspaceInfo| w.id),
            forall|x: u64| #[trigger] removed@.contains(x) == (keys@.take(k as int).contains(x) && !alive@.contains(x)),
    {
        let ghost before = removed@;
        let gone = !vec_contains_u64(&alive, keys[k]);
        proof {
            if keys@.take(k as int).contains(keys@[k as int]) {
                let j = choose|j: int| 0 <= j < k && keys@.take(k as int)[j] == keys@[k as int];
                assert(keys@[j] == keys@[k as int]);
            }
            assert(!before.contains(keys@[k as int]));
        }
        if gone {
            removed.push(keys[k]);
            proof {
                assert forall|i: int, j: int| 0 <= i < j < removed@.len() implies removed@[i] != removed@[j] by {
                    if j == before.len() {
                        assert(removed@[i] == before[i]);
                        assert(before.contains(before[i]));
                    } else {
                        assert(before[i] != before[j]);
                    }
                }
            }
        }
        proof {
            assert forall|x: u64| #[trigger] removed@.contains(x) == (keys@.take(k + 1).contains(x) && !alive@.contains(x)) by {
                broadcast use vstd::seq_lib::group_seq_properties;
                assert(keys@.take(k + 1) =~= keys@.take(k as int).push(keys@[k as int]));
                if gone {
                    assert(removed@ =~= before.push(keys@[k as int]));
                    if removed@.contains(x) && !before.contains(x) {
                        let j = choose|j: int| 0 <= j < removed@.len() && removed@[j] == x;
                        assert(j == before.len());
                    }
                    if before.contains(x) {
                        let j = choose|j: int| 0 <= j < before.len() && before[j] == x;
                        assert(removed@[j] == x);
                    }
                    if x == keys@[k as int] {
                        assert(removed@[before.len() as int] == x);
                    }
                } else {
                    assert(removed@ == before);
                }
                if keys@.take(k + 1).contains(x) && !keys@.take(k as int).contains(x) {
                    assert(x == keys@[k as int]);
                }
            }
        }
    }
    proof {
        assert(keys@.take(keys@.len() as int) =~= keys@);
        assert(removed@.to_set() =~= dom0.filter(|id: u64| !alive@.to_set().contains(id)));
    }
    dots.retain_ids(&alive);
    let ghost start = dots.view();
    let mut ups: Vec<DotUpdate> = Vec::new();
    for k in 0..shown.len()
        invariant
            ({
                let (m, u) = dot_updates_upto(start, shown@, k as int);
                dots.view() == m && ups@ == u
            }),
    {
        let w = &shown[k];
        let st = dot_state(w);
        assert(st == dot_state_spec(*w));
        let old = dots.get(w.id);
        let is_new = old.is_none();
        let restyle = match old {
            Some(o) => o != st,
            None => true,
        };
        dots.set(w.id, st);
        ups.push(DotUpdate { id: w.id, is_new, restyle, state: st });
    }
    let mut fades: Vec<DotFade> = Vec::new();
    for k in 0..removed.len()
        invariant
            fade_ids(fades@) == removed@.take(k as int),
            forall|i: int| 0 <= i < fades@.len() ==> (#[trigger] fades@[i]).opacity == 0
                && fades@[i].remove_after_ms == DOT_FADE_MS,
    {
        let ghost before = fades@;
        fades.push(DotFade { id: removed[k], opacity: 0, remove_after_ms: DOT_FADE_MS });
        assert(fades@ =~= before.push(DotFade { id: removed@[k as int], opacity: 0, remove_after_ms: DOT_FADE_MS }));
        assert(fade_ids(fades@) =~= fade_ids(before).push(removed@[k as int]));
        assert(removed@.take(k + 1) =~= removed@.take(k as int).push(removed@[k as int]));
        assert(fade_ids(fades@) =~= removed@.take(k + 1));
    }
    assert(removed@.take(removed@.len() as int) =~= removed@);
    assert(fade_ids(fades@) == removed@);
    (fades, ups)
}

/// No two workspaces share an id.
pub open spec fn distinct_workspace_ids(ws: Seq<WorkspaceInfo>) -> bool {
    forall|a: int, b: int| 0 <= a < b < ws.len() ==> #[trigger] ws[a].id != #[trigger] ws[b].id
}

proof fn lemma_dot_updates_map(m: Map<u64, DotState>, ws: Seq<WorkspaceInfo>, n: int)
    requires
        0 <= n <= ws.len(),
        distinct_workspace_ids(ws),
    ensures
        forall|k: u64| #[trigger] dot_updates_upto(m, ws, n).0.contains_key(k) ==> m.contains_key(k)
            || ws.map_values(|w: WorkspaceInfo| w.id).contains(k),
        forall|i: int| 0 <= i < n ==> dot_updates_upto(m, ws, n).0.contains_key(#[trigger] ws[i].id)
            && dot_updates_upto(m, ws, n).0[ws[i].id] == dot_state_spec(ws[i]),
    decreases n,
{
    if n > 0 {
        lemma_dot_updates_map(m, ws, n - 1);
        let w = ws[n - 1];
        assert(ws.map_values(|w: WorkspaceInfo| w.id)[n - 1] == w.id);
        assert forall|i: int| 0 <= i < n implies dot_updates_upto(m, ws, n).0.contains_key(#[trigger] ws[i].id)
            && dot_updates_upto(m, ws, n).0[ws[i].id] == dot_state_spec(ws[i]) by {
            if i < n - 1 {
                assert(ws[i].id != ws[n - 1].id);
            }
        }
    }
}

proof fn lemma_dot_updates_quiet(m: Map<u64, DotState>, ws: Seq<WorkspaceInfo>, n: int)
    requires
        0 <= n <= ws.len(),
        forall|i: int| 0 <= i < ws.len() ==> m.contains_key(#[trigger] ws[i].id) && m[ws[i].id] == dot_state_spec(ws[i]),
    ensures
        dot_updates_upto(m, ws, n).0 == m,
        dot_updates_upto(m, ws, n).1.len() == n,
        forall|k: int| 0 <= k < n ==> !(#[trigger] dot_updates_upto(m, ws, n).1[k]).is_new
            && !dot_updates_upto(m, ws, n).1[k].restyle,
    decreases n,
{
    if n > 0 {
        lemma_dot_updates_quiet(m, ws, n - 1);
        let w = ws[n - 1];
        assert(m.contains_key(w.id));
        assert(m.insert(w.id, dot_state_spec(w)) =~= m);
    }
}

/// Planning the same shown workspaces a second time changes nothing: no
/// dot is removed, none is new, none is restyled, and the states kept stay
/// as they are; the dot widgets are kept across updates. Workspaces are
/// told apart by their ids.
pub proof fn law_plan_dots_settles(dots: Map<u64, DotState>, shown: Seq<WorkspaceInfo>)
    requires
        distinct_workspace_ids(shown),
    ensures
        ({
            let alive = shown.map_values(|w: WorkspaceInfo| w.id).to_set();
            let m1 = dot_updates_upto(dots.restrict(alive), shown, shown.len() as int).0;
            let (m2, u2) = dot_updates_upto(m1.restrict(alive), shown, shown.len() as int);
            &&& m1.dom().filter(|id: u64| !alive.contains(id)) == Set::<u64>::empty()
            &&& m2 == m1
            &&& u2.len() == shown.len()
            &&& forall|k: int| 0 <= k < u2.len() ==> !(#[trigger] u2[k]).is_new && !u2[k].restyle
        }),
{
    let ids = shown.map_values(|w: WorkspaceInfo| w.id);
    let alive = ids.to_set();
    let m0 = dots.restrict(alive);
    lemma_dot_updates_map(m0, shown, shown.len() as int);
    let m1 = dot_updates_upto(m0, shown, shown.len() as int).0;
    assert forall|k: u64| m1.contains_key(k) implies alive.contains(k) by {
        if !m0.contains_key(k) {
            assert(ids.contains(k));
        }
    }
    assert(m1.dom().filter(|id: u64| !alive.contains(id)) =~= Set::<u64>::empty());
    assert(m1.restrict(alive) =~= m1);
    lemma_dot_updates_quiet(m1, shown, shown.len() as int);
}

// ── the order the capsule bar keeps the workspaces in ───────────────────

/// Workspace `a`'s (output, index) key sorts strictly before `b`'s: no
/// output first, outputs by name, then by index.
pub open spec fn key_lt(a: WorkspaceInfo, b: WorkspaceInfo) -> bool {
    match (a.output, b.output) {
        (None, Some(_)) => true,
        (Some(_), None) => false,
        (None, None) => a.idx < b.idx,
        (Some(x), Some(y)) => crate::input::lex_lt(x@, y@) || (x@ == y@ && a.idx < b.idx),
    }
}

pub open spec fn key_eq(a: WorkspaceInfo, b: WorkspaceInfo) -> bool {
    a.idx == b.idx && match (a.output, b.output) {
        (None, None) => true,
        (Some(x), Some(y)) => x@ == y@,
        _ => false,
    }
}

/// Position `a` comes before `b` in the stable sort by key.
pub open spec fn sorted_before(ws: Seq<WorkspaceInfo>, a: int, b: int) -> bool {
    key_lt(ws[a], ws[b]) || (key_eq(ws[a], ws[b]) && a < b)
}

proof fn lemma_key_order(a: WorkspaceInfo, b: WorkspaceInfo, c: WorkspaceInfo)
    ensures
        key_lt(a, b) || key_eq(a, b) || key_lt(b, a),
        !(key_lt(a, b) && key_lt(b, a)),
        !(key_lt(a, b) && key_eq(a, b)),
        key_lt(a, b) && key_lt(b, c) ==> key_lt(a, c),
        key_lt(a, b) && key_eq(b, c) ==> key_lt(a, c),
        key_eq(a, b) && key_lt(b, c) ==> key_lt(a, c),
        key_eq(a, b) ==> key_eq(b, a),
        key_eq(a, b) && key_eq(b, c) ==> key_eq(a, c),
{
    match (a.output, b.output) {
        (Some(x), Some(y)) => {
            crate::input::lemma_lex_total(x@, y@);
            crate::input::lemma_lex_asym(x@, y@);
            if x@ == y@ {
                crate::input::lemma_lex_asym(x@, x@);
            }
        },
        _ => {},
    }
    match (a.output, b.output, c.output) {
        (Some(x), Some(y), Some(z)) => {
            if crate::input::lex_lt(x@, y@) && crate::input::lex_lt(y@, z@) {
                crate::input::lemma_lex_trans(x@, y@, z@);
            }
        },
        _ => {},
    }
}

fn key_less(a: &WorkspaceInfo, b: &WorkspaceInfo) -> (r: bool)
    ensures
        r == key_lt(*a, *b),
{
    match (&a.output, &b.output) {
        (None, Some(_)) => true,
        (Some(_), None) => false,
        (None, None) => a.idx < b.idx,
        (Some(x), Some(y)) => {
            let xc = chars_of(x.as_str());
            let yc = chars_of(y.as_str());
            crate::input::lex_less(&xc, &yc) || (eq_chars(&xc, &yc) && a.idx < b.idx)
        },
    }
}

/// The positions of the workspaces sorted by (output, index), stably: the
/// order the workspace list is kept in.
pub fn sort_workspaces(workspaces: &Vec<WorkspaceInfo>) -> (r: Vec<usize>)
    ensures
        r@.len() == workspaces@.len(),
        forall|a: int| 0 <= a < r@.len() ==> #[trigger] r@[a] < workspaces@.len(),
        forall|j: int| 0 <= j < workspaces@.len() ==> #[trigger] r@.contains(j as usize),
        forall|a: int, b: int|
            0 <= a < b < r@.len() ==> sorted_before(workspaces@, #[trigger] r@[a] as int, #[trigger] r@[b] as int),
{
    let mut r: Vec<usize> = Vec::new();
    for i in 0..workspaces.len()
        invariant
            r@.len() == i,
            forall|a: int| 0 <= a < r@.len() ==> #[trigger] r@[a] < i,
            forall|j: int| 0 <= j < i ==> #[trigger] r@.contains(j as usize),
            forall|a: int, b: int|
                0 <= a < b < r@.len() ==> sorted_before(workspaces@, #[trigger] r@[a] as int, #[trigger] r@[b] as int),
    {
        let mut p: usize = 0;
        while p < r.len() && !key_less(&workspaces[i], &workspaces[r[p]])
            invariant
                p <= r@.len(),
                i < workspaces@.len(),
                forall|a: int| 0 <= a < r@.len() ==> #[trigger] r@[a] < i,
                forall|a: int| 0 <= a < p ==> !key_lt(workspaces@[i as int], workspaces@[#[trigger] r@[a] as int]),
            decreases r@.len() - p,
        {
            p = p + 1;
        }
        let ghost old_r = r@;
        let ghost wi = workspaces@[i as int];
        proof {
            assert forall|a: int| p <= a < old_r.len() implies key_lt(wi, workspaces@[#[trigger] old_r[a] as int]) by {
                let wp = workspaces@[old_r[p as int] as int];
                assert(key_lt(wi, wp));
                if a > p {
                    let wa = workspaces@[old_r[a] as int];
                    assert(sorted_before(workspaces@, old_r[p as int] as int, old_r[a] as int));
                    lemma_key_order(wi, wp, wa);
                }
            }
        }
        r.insert(p, i);
        proof {
            old_r.insert_ensures(p as int, i);
            assert forall|a: int, b: int| 0 <= a < b < r@.len() implies sorted_before(
                workspaces@,
                #[trigger] r@[a] as int,
                #[trigger] r@[b] as int,
            ) by {
                if b < p {
                    assert(r@[a] == old_r[a] && r@[b] == old_r[b]);
                } else if b == p {
                    assert(r@[a] == old_r[a]);
                    let wa = workspaces@[old_r[a] as int];
                    lemma_key_order(wa, wi, wi);
                    lemma_key_order(wi, wa, wa);
                } else if a < p {
                    assert(r@[a] == old_r[a] && r@[b] == old_r[b - 1]);
                } else if a == p {
                    assert(r@[b] == old_r[b - 1]);
                } else {
                    assert(r@[a] == old_r[a - 1] && r@[b] == old_r[b - 1]);
                }
            }
            assert forall|j: int| 0 <= j < i + 1 implies #[trigger] r@.contains(j as usize) by {
                if j < i {
                    assert(old_r.contains(j as usize));
                    let a = choose|a: int| 0 <= a < old_r.len() && old_r[a] == j as usize;
                    if a < p {
                        assert(r@[a] == j as usize);
                    } else {
                        assert(r@[a + 1] == j as usize);
                    }
                } else {
                    assert(r@[p as int] == i);
                }
            }
            assert forall|a: int| 0 <= a < r@.len() implies #[trigger] r@[a] < i + 1 by {
                if a < p {
                    assert(r@[a] == old_r[a]);
                } else if a > p {
                    assert(r@[a] == old_r[a - 1]);
                }
            }
        }
    }
    r
}

} // verus!
