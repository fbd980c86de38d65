//! Bluetooth indicator: the adapter state read from rfkill and from a
//! long-lived `bluetoothctl` session, and the icon and colour it maps to.

use vstd::prelude::*;

use crate::bytes::{ascii_bytes, ascii_vec, bytes_contain, bytes_find, is_ascii_seq};
use crate::text::{chars_of, eq_chars, has_prefix, lines, split_lines, starts_with, trim, trimmed};

verus! {

/// The three states the indicator shows.
#[derive(Clone, Copy, Debug, PartialEq, Eq, Structural)]
pub enum BtState {
    Off,
    On,
    Connected,
}

/// The state shown before any `bluetoothctl` event: off unless the adapter
/// is powered, connected when a device was reported connected. `connected`
/// is only asked for when the adapter is powered.
pub fn initial_bt_state(powered: bool, connected: bool) -> (r: BtState)
    ensures
        !powered ==> r == BtState::Off,
        powered && connected ==> r == BtState::Connected,
        powered && !connected ==> r == BtState::On,
{
    if !powered {
        BtState::Off
    } else if connected {
        BtState::Connected
    } else {
        BtState::On
    }
}

/// One `/sys/class/rfkill/*` entry: the contents of its `type`, `state`
/// and `hard` files (empty when unreadable).
#[derive(Clone, Debug, PartialEq, Eq)]
pub struct RfkillEntry {
    pub kind: String,
    pub state: String,
    pub hard: String,
}

/// Whether the first rfkill entry of type `bluetooth` is soft-enabled and
/// not hard-blocked.
pub open spec fn bt_powered_spec(entries: Seq<(Seq<char>, Seq<char>, Seq<char>)>) -> bool
    decreases entries.len(),
{
    if entries.len() == 0 {
        false
    } else if trim(entries[0].0) == "bluetooth"@ {
        trim(entries[0].1) == "1"@ && trim(entries[0].2) != "1"@
    } else {
        bt_powered_spec(entries.drop_first())
    }
}

pub open spec fn rfkill_view(entries: Seq<RfkillEntry>) -> Seq<(Seq<char>, Seq<char>, Seq<char>)> {
    entries.map_values(|e: RfkillEntry| (e.kind@, e.state@, e.hard@))
}

/// `true` when the first Bluetooth rfkill switch is on.
pub fn is_bt_powered(entries: &Vec<RfkillEntry>) -> (r: bool)
    ensures
        r == bt_powered_spec(rfkill_view(entries@)),
{
    let bt = chars_of("bluetooth");
    let one = chars_of("1");
    let mut i: usize = 0;
    assert(rfkill_view(entries@).skip(0) =~= rfkill_view(entries@));
    while i < entries.len()
        invariant
            i <= entries.len(),
            bt@ == "bluetooth"@,
            one@ == "1"@,
            bt_powered_spec(rfkill_view(entries@)) == bt_powered_spec(
                rfkill_view(entries@).skip(i as int),
            ),
        decreases entries.len() - i,
    {
        let ghost rest = rfkill_view(entries@).skip(i as int);
        proof {
            assert(rest[0] == (entries@[i as int].kind@, entries@[i as int].state@, entries@[i as int].hard@));
            assert(rest.drop_first() =~= rfkill_view(entries@).skip(i + 1));
        }
        let e = &entries[i];
        let kind = trimmed(&chars_of(e.kind.as_str()));
        if eq_chars(&kind, &bt) {
            let st = trimmed(&chars_of(e.state.as_str()));
            let hard = trimmed(&chars_of(e.hard.as_str()));
            return eq_chars(&st, &one) && !eq_chars(&hard, &one);
        }
        i = i + 1;
    }
    proof {
        assert(rfkill_view(entries@).skip(i as int) =~= Seq::<(Seq<char>, Seq<char>, Seq<char>)>::empty());
    }
    false
}

/// Whether `bluetoothctl devices Connected` listed a device: some output
/// line starts with `Device`.
pub fn has_connected_device(output: &str) -> (r: bool)
    ensures
        r == exists|i: int| 0 <= i < lines(output@).len() && #[trigger] starts_with(lines(output@)[i], "Device"@),
{
    let ls = split_lines(&chars_of(output));
    let dev = chars_of("Device");
    let mut i: usize = 0;
    while i < ls.len()
        invariant
            i <= ls.len(),
            crate::text::views(ls@) == lines(output@),
            dev@ == "Device"@,
            forall|k: int| 0 <= k < i ==> !#[trigger] starts_with(lines(output@)[k], "Device"@),
        decreases ls.len() - i,
    {
        assert(ls@[i as int]@ == lines(output@)[i as int]);
        if has_prefix(&ls[i], &dev) {
            return true;
        }
        i = i + 1;
    }
    false
}

// ── bluetoothctl event stream ───────────────────────────────────────────

/// How one line of `bluetoothctl` output moves the state. `Powered`
/// changes win over `Connected` changes; a line that changes nothing keeps
/// the state.
pub open spec fn bt_step(state: BtState, line: Seq<u8>) -> BtState {
    if bytes_contain(line, ascii_bytes("Powered: yes"@)) && state == BtState::Off {
        BtState::On
    } else if bytes_contain(line, ascii_bytes("Powered: no"@)) && state != BtState::Off {
        BtState::Off
    } else if bytes_contain(line, ascii_bytes("Connected: yes"@)) && state != BtState::Connected {
        BtState::Connected
    } else if bytes_contain(line, ascii_bytes("Connected: no"@)) && state == BtState::Connected {
        BtState::On
    } else {
        state
    }
}

/// The state after a run of lines.
pub open spec fn bt_run(state: BtState, lines: Seq<Seq<u8>>) -> BtState
    decreases lines.len(),
{
    if lines.len() == 0 {
        state
    } else {
        bt_step(bt_run(state, lines.drop_last()), lines.last())
    }
}

/// The states announced while a run of lines is applied: one entry per
/// line that changed the state, holding the new state.
pub open spec fn bt_changes(state: BtState, lines: Seq<Seq<u8>>) -> Seq<BtState>
    decreases lines.len(),
{
    if lines.len() == 0 {
        Seq::<BtState>::empty()
    } else {
        let before = bt_run(state, lines.drop_last());
        let after = bt_step(before, lines.last());
        if after != before {
            bt_changes(state, lines.drop_last()).push(after)
        } else {
            bt_changes(state, lines.drop_last())
        }
    }
}

/// The states announced for a run of lines end in the state the run ends
/// in (nothing is announced when the run ends where it began), the first
/// differs from the starting state, and none repeats the one before it.
pub proof fn law_bt_changes_track_state(state: BtState, lines: Seq<Seq<u8>>)
    ensures
        bt_changes(state, lines).len() == 0 ==> bt_run(state, lines) == state,
        bt_changes(state, lines).len() > 0 ==> bt_changes(state, lines).last() == bt_run(state, lines),
        bt_changes(state, lines).len() > 0 ==> bt_changes(state, lines)[0] != state,
        forall|k: int|
            0 < k < bt_changes(state, lines).len() ==> #[trigger] bt_changes(state, lines)[k] != bt_changes(
                state,
                lines,
            )[k - 1],
    decreases lines.len(),
{
    if lines.len() > 0 {
        let prefix = lines.drop_last();
        law_bt_changes_track_state(state, prefix);
        let before = bt_run(state, prefix);
        let after = bt_step(before, lines.last());
        let c0 = bt_changes(state, prefix);
        if after != before {
            let c = c0.push(after);
            assert(bt_changes(state, lines) == c);
            assert forall|k: int| 0 < k < c.len() implies #[trigger] c[k] != c[k - 1] by {
                if k < c0.len() {
                    assert(c[k] == c0[k] && c[k - 1] == c0[k - 1]);
                } else {
                    assert(c[k] == after);
                    assert(c[k - 1] == c0.last());
                }
            }
            if c0.len() > 0 {
                assert(c[0] == c0[0]);
            }
        }
    }
}

/// Literal patterns must be ASCII for their bytes to be their characters.
proof fn lemma_patterns_ascii()
    ensures
        is_ascii_seq("Powered: yes"@),
        is_ascii_seq("Powered: no"@),
        is_ascii_seq("Connected: yes"@),
        is_ascii_seq("Connected: no"@),
{
    reveal_strlit("Powered: yes");
    reveal_strlit("Powered: no");
    reveal_strlit("Connected: yes");
    reveal_strlit("Connected: no");
}

/// Applies one line of `bluetoothctl` output.
pub fn bt_apply_line(state: BtState, line: &Vec<u8>) -> (r: BtState)
    ensures
        r == bt_step(state, line@),
{
    proof {
        lemma_patterns_ascii();
    }
    if state == BtState::Off && bytes_find(line, &ascii_vec("Powered: yes")) {
        BtState::On
    } else if state != BtState::Off && bytes_find(line, &ascii_vec("Powered: no")) {
        BtState::Off
    } else if state != BtState::Connected && bytes_find(line, &ascii_vec("Connected: yes")) {
        BtState::Connected
    } else if state == BtState::Connected && bytes_find(line, &ascii_vec("Connected: no")) {
        BtState::On
    } else {
        state
    }
}

/// Applies completed lines in order. Gives the final state and the states
/// to announce, one per line that changed the state.
pub fn bt_apply_lines(state: BtState, lines: &Vec<Vec<u8>>) -> (r: (BtState, Vec<BtState>))
    ensures
        r.0 == bt_run(state, lines@.map_values(|l: Vec<u8>| l@)),
        r.1@ == bt_changes(state, lines@.map_values(|l: Vec<u8>| l@)),
{
    let ghost ls = lines@.map_values(|l: Vec<u8>| l@);
    let mut cur = state;
    let mut sent: Vec<BtState> = Vec::new();
    proof {
        assert(ls.take(0) =~= Seq::<Seq<u8>>::empty());
    }
    for i in 0..lines.len()
        invariant
            ls == lines@.map_values(|l: Vec<u8>| l@),
            cur == bt_run(state, ls.take(i as int)),
            sent@ == bt_changes(state, ls.take(i as int)),
    {
        let ghost t = ls.take(i + 1);
        proof {
            assert(t.drop_last() =~= ls.take(i as int));
            assert(t.last() == lines@[i as int]@);
        }
        let next = bt_apply_line(cur, &lines[i]);
        if next != cur {
            sent.push(next);
        }
        cur = next;
    }
    proof {
        assert(ls.take(lines.len() as int) =~= ls);
    }
    (cur, sent)
}

// ── restarting the monitor ──────────────────────────────────────────────

/// A `bluetoothctl` run longer than this (in ms) counts as healthy: the
/// restart delay starts over at 1 s.
pub const BT_STEADY_RUN_MS: u64 = 5000;

/// The delay (in s) slept before restarting `bluetoothctl` after it exited
/// having run for `ran_ms` milliseconds: 1 s after a healthy run, else the
/// current delay. After the sleep the delay doubles (`next_backoff`).
pub fn backoff_after_exit(ran_ms: u64, backoff_secs: u64) -> (r: u64)
    ensures
        r == (if ran_ms > BT_STEADY_RUN_MS { 1 } else { backoff_secs }),
{
    if ran_ms > BT_STEADY_RUN_MS {
        1
    } else {
        backoff_secs
    }
}

// ── icon and colour ─────────────────────────────────────────────────────

/// The icon file for each state.
pub fn bt_icon(state: BtState) -> (r: &'static str)
    ensures
        state == BtState::Off ==> r@ == "bluetooth-off.svg"@,
        state == BtState::On ==> r@ == "bluetooth-on.svg"@,
        state == BtState::Connected ==> r@ == "bluetooth-connected.svg"@,
{
    match state {
        BtState::Off => "bluetooth-off.svg",
        BtState::On => "bluetooth-on.svg",
        BtState::Connected => "bluetooth-connected.svg",
    }
}

/// Theme colours the indicator uses.
#[derive(Clone, Copy, Debug, PartialEq, Eq, Structural)]
pub enum BtColor {
    /// `fg_dark`: off.
    Dim,
    /// `fg`: on, nothing connected.
    Normal,
    /// `blue`: a device is connected.
    Blue,
}

pub fn bt_color(state: BtState) -> (r: BtColor)
    ensures
        state == BtState::Off <==> r == BtColor::Dim,
        state == BtState::On <==> r == BtColor::Normal,
        state == BtState::Connected <==> r == BtColor::Blue,
{
    match state {
        BtState::Off => BtColor::Dim,
        BtState::On => BtColor::Normal,
        BtState::Connected => BtColor::Blue,
    }
}

/// The icon state of the panel widget: off when unpowered, connected when
/// at least one device is connected, on otherwise.
pub fn bt_icon_state(powered: bool, connected_devices: usize) -> (r: BtState)
    ensures
        !powered ==> r == BtState::Off,
        powered && connected_devices > 0 ==> r == BtState::Connected,
        powered && connected_devices == 0 ==> r == BtState::On,
{
    if !powered {
        BtState::Off
    } else if connected_devices > 0 {
        BtState::Connected
    } else {
        BtState::On
    }
}

/// The CSS class for each state.
pub fn bt_class(state: BtState) -> (r: &'static str)
    ensures
        state == BtState::Off ==> r@ == "bluetooth-off"@,
        state == BtState::On ==> r@ == "bluetooth-on"@,
        state == BtState::Connected ==> r@ == "bluetooth-connected"@,
{
    match state {
        BtState::Off => "bluetooth-off",
        BtState::On => "bluetooth-on",
        BtState::Connected => "bluetooth-connected",
    }
}

/// The symbolic icon name for each state.
pub fn bt_icon_name(state: BtState) -> (r: &'static str)
    ensures
        state == BtState::Off ==> r@ == "bluetooth-off-symbolic"@,
        state == BtState::On ==> r@ == "bluetooth-on-symbolic"@,
        state == BtState::Connected ==> r@ == "bluetooth-connected-symbolic"@,
{
    match state {
        BtState::Off => "bluetooth-off-symbolic",
        BtState::On => "bluetooth-on-symbolic",
        BtState::Connected => "bluetooth-connected-symbolic",
    }
}

// ── the panel's device list ─────────────────────────────────────────────

/// A paired device.
#[derive(Clone, Debug, PartialEq, Eq)]
pub struct BtDevice {
    pub name: String,
    pub mac: String,
    pub connected: bool,
}

/// What the device list shows.
#[derive(Clone, Debug, PartialEq, Eq)]
pub enum DeviceList {
    /// A single line of text.
    Placeholder(&'static str),
    /// One row per device, in this order (positions into the device list).
    Rows(Vec<usize>),
}

/// Device `a` is listed before `b`: connected devices first, then by the
/// lower-cased name.
pub open spec fn device_lt(da: BtDevice, db: BtDevice) -> bool {
    (da.connected && !db.connected) || (da.connected == db.connected && crate::input::lex_lt(
        crate::appicon::unicode_lower(da.name@),
        crate::appicon::unicode_lower(db.name@),
    ))
}

pub open spec fn device_eq(da: BtDevice, db: BtDevice) -> bool {
    da.connected == db.connected && crate::appicon::unicode_lower(da.name@) == crate::appicon::unicode_lower(db.name@)
}

/// Position `a` comes before `b` in the stable sort.
pub open spec fn listed_before(ds: Seq<BtDevice>, a: int, b: int) -> bool {
    device_lt(ds[a], ds[b]) || (device_eq(ds[a], ds[b]) && a < b)
}

proof fn lemma_device_order(a: BtDevice, b: BtDevice, c: BtDevice)
    ensures
        device_lt(a, b) || device_eq(a, b) || device_lt(b, a),
        !(device_lt(a, b) && device_lt(b, a)),
        !(device_lt(a, b) && device_eq(a, b)),
        device_lt(a, b) && device_lt(b, c) ==> device_lt(a, c),
{
    let la = crate::appicon::unicode_lower(a.name@);
    let lb = crate::appicon::unicode_lower(b.name@);
    let lc = crate::appicon::unicode_lower(c.name@);
    crate::input::lemma_lex_total(la, lb);
    crate::input::lemma_lex_asym(la, lb);
    crate::input::lemma_lex_asym(la, la);
    if crate::input::lex_lt(la, lb) && crate::input::lex_lt(lb, lc) {
        crate::input::lemma_lex_trans(la, lb, lc);
    }
}

/// The device list: a placeholder when Bluetooth is off or nothing is
/// paired; otherwise every device, connected ones first, then by the lower-
/// cased name, stably.
pub fn device_list(powered: bool, devices: &Vec<BtDevice>) -> (r: DeviceList)
    ensures
        !powered ==> (r matches DeviceList::Placeholder(t) && t@ == "Bluetooth is off"@),
        powered && devices@.len() == 0 ==> (r matches DeviceList::Placeholder(t) && t@ == "No paired devices"@),
        powered && devices@.len() > 0 ==> (r matches DeviceList::Rows(v) && v@.len() == devices@.len() && (forall|a: int|
            0 <= a < v@.len() ==> #[trigger] v@[a] < devices@.len()) && (forall|j: int|
            0 <= j < devices@.len() ==> #[trigger] v@.contains(j as usize)) && forall|a: int, b: int|
            0 <= a < b < v@.len() ==> listed_before(devices@, #[trigger] v@[a] as int, #[trigger] v@[b] as int)),
{
    if !powered {
        return DeviceList::Placeholder("Bluetooth is off");
    }
    if devices.len() == 0 {
        return DeviceList::Placeholder("No paired devices");
    }
    let mut lowers: Vec<Vec<char>> = Vec::new();
    for i in 0..devices.len()
        invariant
            lowers@.len() == i,
            forall|k: int| 0 <= k < i ==> #[trigger] lowers@[k]@ == crate::appicon::unicode_lower(devices@[k].name@),
    {
        let l = crate::appicon::to_lowercase(devices[i].name.as_str());
        lowers.push(chars_of(l.as_str()));
    }
    let mut r: Vec<usize> = Vec::new();
    for i in 0..devices.len()
        invariant
            lowers@.len() == devices@.len(),
            forall|k: int| 0 <= k < devices@.len() ==> #[trigger] lowers@[k]@ == crate::appicon::unicode_lower(devices@[k].name@),
            r@.len() == i,
            forall|a: int| 0 <= a < r@.len() ==> #[trigger] r@[a] < i,
            forall|j: int| 0 <= j < i ==> #[trigger] r@.contains(j as usize),
            forall|a: int, b: int|
                0 <= a < b < r@.len() ==> listed_before(devices@, #[trigger] r@[a] as int, #[trigger] r@[b] as int),
    {
        let mut p: usize = 0;
        while p < r.len() && !device_less(&devices[i], &lowers[i], &devices[r[p]], &lowers[r[p]])
            invariant
                p <= r@.len(),
                i < devices@.len(),
                lowers@.len() == devices@.len(),
                forall|k: int| 0 <= k < devices@.len() ==> #[trigger] lowers@[k]@ == crate::appicon::unicode_lower(devices@[k].name@),
                forall|a: int| 0 <= a < r@.len() ==> #[trigger] r@[a] < i,
                forall|a: int| 0 <= a < p ==> !device_lt(devices@[i as int], devices@[#[trigger] r@[a] as int]),
            decreases r@.len() - p,
        {
            p = p + 1;
        }
        let ghost old_r = r@;
        let ghost di = devices@[i as int];
        proof {
            assert forall|a: int| p <= a < old_r.len() implies device_lt(di, devices@[#[trigger] old_r[a] as int]) by {
                let dp = devices@[old_r[p as int] as int];
                if a > p {
                    let da = devices@[old_r[a] as int];
                    assert(listed_before(devices@, old_r[p as int] as int, old_r[a] as int));
                    lemma_device_order(di, dp, da);
                    if device_eq(dp, da) {
                        assert(crate::appicon::unicode_lower(dp.name@) == crate::appicon::unicode_lower(da.name@));
                    }
                }
            }
        }
        r.insert(p, i);
        proof {
            old_r.insert_ensures(p as int, i);
            assert forall|a: int, b: int| 0 <= a < b < r@.len() implies listed_before(
                devices@,
                #[trigger] r@[a] as int,
                #[trigger] r@[b] as int,
            ) by {
                if b < p {
                    assert(r@[a] == old_r[a] && r@[b] == old_r[b]);
                } else if b == p {
                    assert(r@[a] == old_r[a]);
                    let da = devices@[old_r[a] as int];
                    lemma_device_order(da, di, di);
                } else if a < p {
                    assert(r@[a] == old_r[a] && r@[b] == old_r[b - 1]);
                } else if a == p {
                    assert(r@[b] == old_r[b - 1]);
                } else {
                    assert(r@[a] == old_r[a - 1] && r@[b] == old_r[b - 1]);
                }
            }
            assert forall|j: int| 0 <= j < i + 1 implies #[trigger] r@.contains(j as usize) by {
                if j < i {
                    assert(old_r.contains(j as usize));
                    let a = choose|a: int| 0 <= a < old_r.len() && old_r[a] == j as usize;
                    if a < p {
                        assert(r@[a] == j as usize);
                    } else {
                        assert(r@[a + 1] == j as usize);
                    }
                } else {
                    assert(r@[p as int] == i);
                }
            }
            assert forall|a: int| 0 <= a < r@.len() implies #[trigger] r@[a] < i + 1 by {
                if a < p {
                    assert(r@[a] == old_r[a]);
                } else if a > p {
                    assert(r@[a] == old_r[a - 1]);
                }
            }
        }
    }
    DeviceList::Rows(r)
}

fn device_less(a: &BtDevice, la: &Vec<char>, b: &BtDevice, lb: &Vec<char>) -> (r: bool)
    requires
        la@ == crate::appicon::unicode_lower(a.name@),
        lb@ == crate::appicon::unicode_lower(b.name@),
    ensures
        r == device_lt(*a, *b),
{
    (a.connected && !b.connected) || (a.connected == b.connected && crate::input::lex_less(la, lb))
}

/// A row's label (the name, or the address for an unnamed device) and its
/// button: disconnect a connected device, connect the others.
pub fn device_row(dev: &BtDevice) -> (r: (String, &'static str))
    ensures
        r.0@ == (if dev.name@.len() == 0 { dev.mac@ } else { dev.name@ }),
        dev.connected ==> r.1 == "Disconnect",
        !dev.connected ==> r.1 == "Connect",
{
    let label = if dev.name.as_str().is_empty() {
        crate::text::owned(dev.mac.as_str())
    } else {
        crate::text::owned(dev.name.as_str())
    };
    (label, if dev.connected {
        "Disconnect"
    } else {
        "Connect"
    })
}

} // verus!
