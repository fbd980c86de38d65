//! The small indicators: the input method, the WireGuard toggle, network
//! traffic, GPU load, and the mutually exclusive CSS classes the panel
//! widgets switch between.

use vstd::prelude::*;

use crate::text::{
    chars_of, contains, dec, has_prefix, has_substring, lines, pad_left, parse_unsigned,
    push_dec, push_dec_padded, split_lines, starts_with, str_contains, str_eq, str_starts_with,
    trim, trim_eq, trimmed, views,
};

verus! {

// ── CSS classes ─────────────────────────────────────────────────────────

/// A change to a widget's CSS classes.
#[derive(Clone, Debug, PartialEq, Eq)]
pub enum ClassOp {
    Remove(String),
    Add(String),
}

/// The classes after the operations, in order.
pub open spec fn apply_class_ops(classes: Set<Seq<char>>, ops: Seq<ClassOp>) -> Set<Seq<char>>
    decreases ops.len(),
{
    if ops.len() == 0 {
        classes
    } else {
        let c = match ops.last() {
            ClassOp::Remove(s) => apply_class_ops(classes, ops.drop_last()).remove(s@),
            ClassOp::Add(s) => apply_class_ops(classes, ops.drop_last()).insert(s@),
        };
        c
    }
}

/// The operations that switch a widget to `class` among the mutually
/// exclusive `all`: remove each other class of `all`, then add `class`.
pub fn exclusive_class_ops(class: &str, all: &Vec<&str>) -> (r: Vec<ClassOp>)
    ensures
        forall|cs: Set<Seq<char>>, x: Seq<char>| #[trigger] apply_class_ops(cs, r@).contains(x) == (x == class@
            || (cs.contains(x) && !(exists|i: int| 0 <= i < all@.len() && #[trigger] all@[i]@ == x))),
{
    let mut ops: Vec<ClassOp> = Vec::new();
    for i in 0..all.len()
        invariant
            forall|cs: Set<Seq<char>>, x: Seq<char>| #[trigger] apply_class_ops(cs, ops@).contains(x) == (cs.contains(x)
                && !(exists|k: int| 0 <= k < i && #[trigger] all@[k]@ == x && x != class@)),
    {
        if !str_eq(all[i], class) {
            let ghost before = ops@;
            ops.push(ClassOp::Remove(crate::text::owned(all[i])));
            proof {
                assert(ops@.drop_last() =~= before);
                assert forall|cs: Set<Seq<char>>, x: Seq<char>| #[trigger] apply_class_ops(cs, ops@).contains(x) == (cs.contains(x)
                    && !(exists|k: int| 0 <= k < i + 1 && #[trigger] all@[k]@ == x && x != class@)) by {
                    assert(apply_class_ops(cs, before).contains(x) == (cs.contains(x) && !(exists|k: int| 0 <= k < i && #[trigger] all@[k]@ == x && x != class@)));
                    if x == all@[i as int]@ {
                        assert(0 <= i < i + 1 && all@[i as int]@ == x && x != class@);
                    }
                }
            }
        } else {
            proof {
                assert forall|cs: Set<Seq<char>>, x: Seq<char>| #[trigger] apply_class_ops(cs, ops@).contains(x) == (cs.contains(x)
                    && !(exists|k: int| 0 <= k < i + 1 && #[trigger] all@[k]@ == x && x != class@)) by {
                    assert(apply_class_ops(cs, ops@).contains(x) == (cs.contains(x) && !(exists|k: int| 0 <= k < i && #[trigger] all@[k]@ == x && x != class@)));
                    if exists|k: int| 0 <= k < i + 1 && #[trigger] all@[k]@ == x && x != class@ {
                        let k = choose|k: int| 0 <= k < i + 1 && #[trigger] all@[k]@ == x && x != class@;
                        assert(k != i);
                    }
                }
            }
        }
    }
    let ghost before = ops@;
    ops.push(ClassOp::Add(crate::text::owned(class)));
    proof {
        assert(ops@.drop_last() =~= before);
        assert forall|cs: Set<Seq<char>>, x: Seq<char>| #[trigger] apply_class_ops(cs, ops@).contains(x) == (x == class@
            || (cs.contains(x) && !(exists|i: int| 0 <= i < all@.len() && #[trigger] all@[i]@ == x))) by {
            assert(apply_class_ops(cs, before).contains(x) == (cs.contains(x) && !(exists|k: int| 0 <= k < all@.len() && #[trigger] all@[k]@ == x && x != class@)));
            if x != class@ {
                if exists|k: int| 0 <= k < all@.len() && #[trigger] all@[k]@ == x {
                    let k = choose|k: int| 0 <= k < all@.len() && #[trigger] all@[k]@ == x;
                    assert(0 <= k < all@.len() && all@[k]@ == x && x != class@);
                }
            }
        }
    }
    ops
}

/// After switching to a class of the exclusive set, exactly that class of
/// the set is on the widget, and the widget's other classes are as they
/// were.
pub proof fn law_exclusive_class(cs: Set<Seq<char>>, ops: Seq<ClassOp>, class: Seq<char>, all: Seq<Seq<char>>)
    requires
        all.contains(class),
        forall|x: Seq<char>| #[trigger] apply_class_ops(cs, ops).contains(x) == (x == class || (cs.contains(x) && !all.contains(x))),
    ensures
        forall|x: Seq<char>| all.contains(x) ==> (#[trigger] apply_class_ops(cs, ops).contains(x) <==> x == class),
        forall|x: Seq<char>| !all.contains(x) ==> (#[trigger] apply_class_ops(cs, ops).contains(x) <==> cs.contains(x)),
{
}

/// The class of a widget's capsule: none inside a group, which draws its
/// own.
pub fn capsule_class(grouped: bool) -> (r: Option<&'static str>)
    ensures
        grouped ==> r is None,
        !grouped ==> r == Some("bar-capsule"),
{
    if grouped {
        None
    } else {
        Some("bar-capsule")
    }
}

// ── input method ────────────────────────────────────────────────────────

#[derive(Clone, Copy, Debug, PartialEq, Eq, Structural)]
pub enum InputMethod {
    Chinese,
    English,
    Unknown,
}

/// The input method from the output of `fcitx5-remote -n`: Pinyin and
/// Rime are Chinese, the keyboard layouts English.
pub open spec fn input_method_of(output: Seq<char>) -> InputMethod {
    let im = trim(output);
    if starts_with(im, "pinyin"@) || starts_with(im, "rime"@) {
        InputMethod::Chinese
    } else if starts_with(im, "keyboard"@) {
        InputMethod::English
    } else {
        InputMethod::Unknown
    }
}

/// Pinyin and Rime (the trimmed name starts with `pinyin` or `rime`) are
/// Chinese, the plain keyboard (`keyboard...`) English, anything else
/// unknown.
pub proof fn law_input_methods(output: Seq<char>)
    ensures
        starts_with(trim(output), "pinyin"@) || starts_with(trim(output), "rime"@) ==> input_method_of(output)
            == InputMethod::Chinese,
        !starts_with(trim(output), "pinyin"@) && !starts_with(trim(output), "rime"@) && starts_with(
            trim(output),
            "keyboard"@,
        ) ==> input_method_of(output) == InputMethod::English,
        !starts_with(trim(output), "pinyin"@) && !starts_with(trim(output), "rime"@) && !starts_with(
            trim(output),
            "keyboard"@,
        ) ==> input_method_of(output) == InputMethod::Unknown,
{
}

pub fn query_fcitx(output: &str) -> (r: InputMethod)
    ensures
        r == input_method_of(output@),
{
    let im = crate::text::string_of(&trimmed(&chars_of(output)));
    if str_starts_with(im.as_str(), "pinyin") || str_starts_with(im.as_str(), "rime") {
        InputMethod::Chinese
    } else if str_starts_with(im.as_str(), "keyboard") {
        InputMethod::English
    } else {
        InputMethod::Unknown
    }
}

/// The label and the panel's class of an input method.
pub fn im_label(im: InputMethod) -> (r: (&'static str, &'static str))
    ensures
        im == InputMethod::Chinese ==> r == ("中", "fcitx-chinese"),
        im == InputMethod::English ==> r == ("EN", "fcitx-english"),
        im == InputMethod::Unknown ==> r == ("?", "fcitx-unknown"),
{
    match im {
        InputMethod::Chinese => ("中", "fcitx-chinese"),
        InputMethod::English => ("EN", "fcitx-english"),
        InputMethod::Unknown => ("?", "fcitx-unknown"),
    }
}

// ── WireGuard ───────────────────────────────────────────────────────────

/// An active connection line of `nmcli -t -f NAME,TYPE con show --active`
/// that is the configured WireGuard connection.
pub open spec fn wg_line(line: Seq<char>, connection: Seq<char>) -> bool {
    contains(line, "wireguard"@) && starts_with(line, connection)
}

/// Whether the connection is active, from nmcli's list of active
/// connections.
pub fn query_active(nmcli_output: &str, connection: &str) -> (r: bool)
    ensures
        r == exists|i: int| 0 <= i < lines(nmcli_output@).len() && wg_line(#[trigger] lines(nmcli_output@)[i], connection@),
{
    let ls = split_lines(&chars_of(nmcli_output));
    let key = chars_of("wireguard");
    let conn = chars_of(connection);
    for i in 0..ls.len()
        invariant
            views(ls@) == lines(nmcli_output@),
            key@ == "wireguard"@,
            conn@ == connection@,
            forall|k: int| 0 <= k < i ==> !wg_line(#[trigger] lines(nmcli_output@)[k], connection@),
    {
        assert(lines(nmcli_output@)[i as int] == ls@[i as int]@);
        if has_substring(&ls[i], &key) && has_prefix(&ls[i], &conn) {
            return true;
        }
    }
    false
}

/// A line of `nmcli monitor` that may change the connection's state.
pub fn monitor_line_triggers(line: &str, connection: &str) -> (r: bool)
    ensures
        r == (contains(line@, "connected"@) || contains(line@, "disconnected"@) || contains(line@, connection@)
            || contains(line@, "wireguard"@)),
{
    str_contains(line, "connected") || str_contains(line, "disconnected") || str_contains(line, connection)
        || str_contains(line, "wireguard")
}

/// The delay before restarting `nmcli monitor` after it failed to start:
/// doubled each time, at most 60 s.
pub fn next_backoff(secs: u64) -> (r: u64)
    ensures
        r == (if 2 * secs > 60 { 60 } else { 2 * secs }),
{
    if secs > 30 {
        60
    } else {
        2 * secs
    }
}

/// The nmcli action a click runs: down when active, up otherwise.
pub fn toggle_action(active: bool) -> (r: &'static str)
    ensures
        active ==> r == "down",
        !active ==> r == "up",
{
    if active {
        "down"
    } else {
        "up"
    }
}

/// The icon files of the bar and the icon names and classes of the panel.
pub fn wg_icon(active: bool) -> (r: (&'static str, &'static str, &'static str))
    ensures
        active ==> r == ("vpn-on.svg", "vpn-on-symbolic", "wireguard-on"),
        !active ==> r == ("vpn-off.svg", "vpn-off-symbolic", "wireguard-off"),
{
    if active {
        ("vpn-on.svg", "vpn-on-symbolic", "wireguard-on")
    } else {
        ("vpn-off.svg", "vpn-off-symbolic", "wireguard-off")
    }
}

/// Whether a state update rewrites the widget: always the first time,
/// afterwards only on a change.
pub fn needs_refresh(initialized: bool, shown: bool, new: bool) -> (r: bool)
    ensures
        r == (!initialized || shown != new),
{
    !initialized || shown != new
}

// ── network traffic ─────────────────────────────────────────────────────

/// The class of a formatted rate: dim when idle (`0 KB/s`).
pub fn rate_class(rate: &str) -> (r: &'static str)
    ensures
        rate@ == "0 KB/s"@ ==> r == "net-traffic-dim",
        rate@ != "0 KB/s"@ ==> r == "net-traffic-norm",
{
    if str_eq(rate, "0 KB/s") {
        "net-traffic-dim"
    } else {
        "net-traffic-norm"
    }
}

/// The download and upload labels: `↓ {rx}` and `↑ {tx}`.
pub fn traffic_labels(rx: &str, tx: &str) -> (r: (String, String))
    ensures
        r.0@ == "↓ "@ + rx@,
        r.1@ == "↑ "@ + tx@,
{
    let mut down = String::new();
    down.append("↓ ");
    down.append(rx);
    let mut up = String::new();
    up.append("↑ ");
    up.append(tx);
    (down, up)
}

// ── GPU load ────────────────────────────────────────────────────────────

/// The busy-percent files of a DRM device by vendor: AMD has
/// `gpu_busy_percent`; Intel that or `gt_busy_percent`.
pub fn busy_files(vendor: &str) -> (r: Option<Vec<&'static str>>)
    ensures
        trim(vendor@) == "0x1002"@ ==> r is Some && r->0@ == seq!["gpu_busy_percent"],
        trim(vendor@) == "0x8086"@ ==> r is Some && r->0@ == seq!["gpu_busy_percent", "gt_busy_percent"],
        trim(vendor@) != "0x1002"@ && trim(vendor@) != "0x8086"@ ==> r is None,
{
    proof {
        reveal_strlit("0x1002");
        reveal_strlit("0x8086");
        assert("0x1002"@ != "0x8086"@) by {
            assert("0x1002"@[2] != "0x8086"@[2]);
        }
    }
    if trim_eq(vendor, "0x1002") {
        let v = vec!["gpu_busy_percent"];
        assert(v@ =~= seq!["gpu_busy_percent"]);
        Some(v)
    } else if trim_eq(vendor, "0x8086") {
        let v = vec!["gpu_busy_percent", "gt_busy_percent"];
        assert(v@ =~= seq!["gpu_busy_percent", "gt_busy_percent"]);
        Some(v)
    } else {
        None
    }
}

/// What probing one `/sys/class/drm` entry found: whether it has a
/// `device` directory, the texts of its `class` and `vendor` files, and
/// for each of its vendor's `busy_files` whether it exists and reads.
#[derive(Clone, Debug, PartialEq, Eq)]
pub struct BusyProbe {
    pub is_dir: bool,
    pub class: String,
    pub vendor: String,
    pub readable: Vec<bool>,
}

pub open spec fn busy_candidate(p: BusyProbe) -> bool {
    p.is_dir && starts_with(trim(p.class@), "0x03"@) && (trim(p.vendor@) == "0x1002"@ || trim(p.vendor@) == "0x8086"@)
}

/// The number of busy files of a vendor.
pub open spec fn busy_file_count(vendor: Seq<char>) -> int {
    if trim(vendor) == "0x8086"@ {
        2
    } else {
        1
    }
}

/// The file read for a device: the first of its vendor's files that reads.
pub open spec fn busy_file_of(p: BusyProbe) -> Option<int> {
    if !busy_candidate(p) {
        None
    } else if p.readable@.len() > 0 && p.readable@[0] {
        Some(0)
    } else if busy_file_count(p.vendor@) == 2 && p.readable@.len() > 1 && p.readable@[1] {
        Some(1)
    } else {
        None
    }
}

/// The GPU-load source: the first DRM device that is a display device of
/// AMD or Intel with a busy file that reads; `(device, file)` where `file`
/// indexes its vendor's `busy_files`.
pub fn detect_gpu_busy(probes: &Vec<BusyProbe>) -> (r: Option<(usize, usize)>)
    ensures
        match r {
            Some((d, f)) => d < probes@.len() && busy_file_of(probes@[d as int]) == Some(f as int) && forall|k: int|
                0 <= k < d ==> busy_file_of(#[trigger] probes@[k]) is None,
            None => forall|k: int| 0 <= k < probes@.len() ==> busy_file_of(#[trigger] probes@[k]) is None,
        },
{
    for i in 0..probes.len()
        invariant
            forall|k: int| 0 <= k < i ==> busy_file_of(#[trigger] probes@[k]) is None,
    {
        let p = &probes[i];
        if p.is_dir && str_starts_with(crate::text::string_of(&trimmed(&chars_of(p.class.as_str()))).as_str(), "0x03") {
            let files = busy_files(p.vendor.as_str());
            proof {
                reveal_strlit("0x1002");
                reveal_strlit("0x8086");
                assert("0x1002"@ != "0x8086"@) by {
                    assert("0x1002"@[2] != "0x8086"@[2]);
                }
            }
            match files {
                Some(fs) => {
                    let n = if fs.len() < p.readable.len() {
                        fs.len()
                    } else {
                        p.readable.len()
                    };
                    let mut j: usize = 0;
                    while j < n
                        invariant
                            j <= n <= p.readable@.len(),
                            n <= fs@.len(),
                            fs@.len() == busy_file_count(p.vendor@),
                            busy_candidate(*p),
                            i < probes@.len(),
                            *p == probes@[i as int],
                            forall|k: int| 0 <= k < i ==> busy_file_of(#[trigger] probes@[k]) is None,
                            forall|k: int| 0 <= k < j ==> !#[trigger] p.readable@[k],
                        decreases n - j,
                    {
                        if p.readable[j] {
                            return Some((i, j));
                        }
                        j = j + 1;
                    }
                    assert(busy_file_of(probes@[i as int]) is None);
                },
                None => {},
            }
        }
    }
    None
}

/// The panel's GPU-load text: `{pct:>2}%`, or `--%` without a reading.
pub fn busy_text(pct: Option<u32>) -> (r: String)
    ensures
        match pct {
            Some(p) => r@ == pad_left(dec(p as nat), 2) + "%"@,
            None => r@ == "--%"@,
        },
{
    let mut s = String::new();
    match pct {
        Some(p) => {
            push_dec_padded(&mut s, p as u64, 2);
            s.append("%");
        },
        None => {
            s.append("--%");
        },
    }
    s
}

/// The panel's GPU-load class: critical from 80 %, warning from 60 %,
/// normal from 25 %, dim below or without a reading.
pub fn busy_class(pct: Option<u32>) -> (r: &'static str)
    ensures
        r == (match pct {
            Some(p) => if p >= 80 {
                "gpu-busy-crit"
            } else if p >= 60 {
                "gpu-busy-warn"
            } else if p >= 25 {
                "gpu-busy-norm"
            } else {
                "gpu-busy-dim"
            },
            None => "gpu-busy-dim",
        }),
{
    match pct {
        Some(p) => {
            if p >= 80 {
                "gpu-busy-crit"
            } else if p >= 60 {
                "gpu-busy-warn"
            } else if p >= 25 {
                "gpu-busy-norm"
            } else {
                "gpu-busy-dim"
            }
        },
        None => "gpu-busy-dim",
    }
}

} // verus!
