//! Wi-Fi indicator: the link state read from rfkill, sysfs and
//! `/proc/net/wireless`, the icon and colour bands it maps to, and the
//! panel's network list.

use vstd::prelude::*;

use crate::bluetooth::RfkillEntry;
use crate::text::{
    chars_of, dec, lines, owned, parse_u32, parse_unsigned, push_char, push_dec, split_lines,
    split_words, starts_with, str_eq, trim, trim_eq, trim_start, trimmed_start, views, words,
    has_prefix,
};

verus! {

// ── link state ──────────────────────────────────────────────────────────

/// The link state the bar widget shows.
#[derive(Clone, Copy, Debug, PartialEq, Eq, Structural)]
pub enum WifiLink {
    /// The radio is blocked by rfkill.
    Disabled,
    Disconnected,
    /// Connected, with the link quality in percent.
    Connected { signal: u32 },
}

/// A WLAN rfkill switch blocks the radio when it is soft-blocked (state
/// `0`) or hard-blocked (`hard` is `1`).
pub open spec fn wlan_blocked(e: RfkillEntry) -> bool {
    trim(e.kind@) == "wlan"@ && (trim(e.state@) == "0"@ || trim(e.hard@) == "1"@)
}

/// Whether some WLAN rfkill switch blocks the radio.
pub fn is_wifi_rfkill_blocked(entries: &Vec<RfkillEntry>) -> (r: bool)
    ensures
        r == exists|i: int| 0 <= i < entries@.len() && wlan_blocked(#[trigger] entries@[i]),
{
    for i in 0..entries.len()
        invariant
            forall|j: int| 0 <= j < i ==> !wlan_blocked(#[trigger] entries@[j]),
    {
        let e = &entries[i];
        if trim_eq(e.kind.as_str(), "wlan") {
            if trim_eq(e.state.as_str(), "0") {
                assert(wlan_blocked(entries@[i as int]));
                return true;
            }
            if trim_eq(e.hard.as_str(), "1") {
                assert(wlan_blocked(entries@[i as int]));
                return true;
            }
        }
    }
    false
}

/// `s.trim_end_matches('.')`.
pub open spec fn trim_end_dots(s: Seq<char>) -> Seq<char>
    decreases s.len(),
{
    if s.len() > 0 && s.last() == '.' {
        trim_end_dots(s.drop_last())
    } else {
        s
    }
}

fn trimmed_end_dots(s: &Vec<char>) -> (r: Vec<char>)
    ensures
        r@ == trim_end_dots(s@),
{
    let mut hi = s.len();
    assert(s@.subrange(0, hi as int) =~= s@);
    while hi > 0 && s[hi - 1] == '.'
        invariant
            hi <= s.len(),
            trim_end_dots(s@) == trim_end_dots(s@.subrange(0, hi as int)),
        decreases hi,
    {
        assert(s@.subrange(0, hi as int).drop_last() =~= s@.subrange(0, hi - 1));
        hi = hi - 1;
    }
    crate::text::slice_vec(s, 0, hi)
}

/// A `/proc/net/wireless` line for the interface: after leading blanks it
/// starts with the interface name and has at least three fields.
pub open spec fn signal_line(line: Seq<char>, iface: Seq<char>) -> bool {
    starts_with(trim_start(line), iface) && words(trim_start(line)).len() >= 3
}

/// The link quality on such a line: the third field without trailing dots,
/// as `u32` (0 when it does not parse), at most 100.
pub open spec fn line_signal(line: Seq<char>) -> u32 {
    let v = match parse_unsigned(trim_end_dots(words(trim_start(line))[2]), u32::MAX as nat) {
        Some(n) => n,
        None => 0,
    };
    if v > 100 {
        100
    } else {
        v as u32
    }
}

pub open spec fn signal_of(ls: Seq<Seq<char>>, iface: Seq<char>) -> u32
    decreases ls.len(),
{
    if ls.len() == 0 {
        0
    } else if signal_line(ls[0], iface) {
        line_signal(ls[0])
    } else {
        signal_of(ls.drop_first(), iface)
    }
}

/// The link quality of `iface` from the text of `/proc/net/wireless`: the
/// first matching line decides; 0 when there is none.
pub fn read_signal_strength(wireless: &str, iface: &str) -> (r: u32)
    ensures
        r == signal_of(lines(wireless@), iface@),
{
    let ls = split_lines(&chars_of(wireless));
    let name = chars_of(iface);
    let mut i: usize = 0;
    proof {
        assert(views(ls@).skip(0) =~= views(ls@));
    }
    while i < ls.len()
        invariant
            i <= ls.len(),
            views(ls@) == lines(wireless@),
            name@ == iface@,
            signal_of(lines(wireless@), iface@) == signal_of(views(ls@).skip(i as int), iface@),
        decreases ls.len() - i,
    {
        let ghost rest = views(ls@).skip(i as int);
        proof {
            assert(rest[0] == ls@[i as int]@);
            assert(rest.drop_first() =~= views(ls@).skip(i + 1));
        }
        let t = trimmed_start(&ls[i]);
        if has_prefix(&t, &name) {
            let parts = split_words(&t);
            if parts.len() >= 3 {
                proof {
                    assert(views(parts@)[2] == parts@[2]@);
                }
                let v = match parse_u32(&trimmed_end_dots(&parts[2])) {
                    Some(n) => n,
                    None => 0,
                };
                return if v > 100 {
                    100
                } else {
                    v
                };
            }
        }
        i = i + 1;
    }
    proof {
        assert(views(ls@).skip(i as int) =~= Seq::<Seq<char>>::empty());
    }
    0
}

/// The link state: disabled when rfkill blocks the radio; disconnected
/// without a wireless interface or when its `operstate` is not `up`;
/// otherwise connected with the quality read from `/proc/net/wireless`.
pub open spec fn wifi_link_of(blocked: bool, iface: Option<Seq<char>>, operstate: Seq<char>, wireless: Seq<char>) -> WifiLink {
    if blocked {
        WifiLink::Disabled
    } else {
        match iface {
            None => WifiLink::Disconnected,
            Some(name) => if trim(operstate) != "up"@ {
                WifiLink::Disconnected
            } else {
                WifiLink::Connected { signal: signal_of(lines(wireless), name) }
            },
        }
    }
}

/// The state from what was read: whether rfkill blocks the radio, the
/// first interface with a `wireless` directory, the text of its
/// `operstate` and of `/proc/net/wireless`.
pub fn wifi_state_from(blocked: bool, iface: Option<&str>, operstate: &str, wireless: &str) -> (r: WifiLink)
    ensures
        r == wifi_link_of(
            blocked,
            match iface {
                Some(s) => Some(s@),
                None => None,
            },
            operstate@,
            wireless@,
        ),
{
    if blocked {
        return WifiLink::Disabled;
    }
    match iface {
        None => WifiLink::Disconnected,
        Some(name) => {
            if !trim_eq(operstate, "up") {
                WifiLink::Disconnected
            } else {
                WifiLink::Connected { signal: read_signal_strength(wireless, name) }
            }
        },
    }
}

/// The bar icon: off when not connected or below 20 %; weak from 20 %,
/// fair from 40 %, good from 60 %, excellent from 80 %.
pub fn wifi_icon(state: &WifiLink) -> (r: &'static str)
    ensures
        match *state {
            WifiLink::Connected { signal } => if signal >= 80 {
                r == "wifi-excellent.svg"
            } else if signal >= 60 {
                r == "wifi-good.svg"
            } else if signal >= 40 {
                r == "wifi-fair.svg"
            } else if signal >= 20 {
                r == "wifi-weak.svg"
            } else {
                r == "wifi-off.svg"
            },
            _ => r == "wifi-off.svg",
        },
{
    match state {
        WifiLink::Connected { signal } => {
            if *signal >= 80 {
                "wifi-excellent.svg"
            } else if *signal >= 60 {
                "wifi-good.svg"
            } else if *signal >= 40 {
                "wifi-fair.svg"
            } else if *signal >= 20 {
                "wifi-weak.svg"
            } else {
                "wifi-off.svg"
            }
        },
        _ => "wifi-off.svg",
    }
}

#[derive(Clone, Copy, Debug, PartialEq, Eq, Structural)]
pub enum WifiColor {
    Dim,
    Fg,
    Yellow,
    Red,
}

/// The icon colour: dim when not connected, plain from 60 %, yellow from
/// 20 %, red below.
pub fn wifi_color(state: &WifiLink) -> (r: WifiColor)
    ensures
        match *state {
            WifiLink::Connected { signal } => if signal >= 60 {
                r == WifiColor::Fg
            } else if signal >= 20 {
                r == WifiColor::Yellow
            } else {
                r == WifiColor::Red
            },
            _ => r == WifiColor::Dim,
        },
{
    match state {
        WifiLink::Connected { signal } => {
            if *signal >= 60 {
                WifiColor::Fg
            } else if *signal >= 20 {
                WifiColor::Yellow
            } else {
                WifiColor::Red
            }
        },
        _ => WifiColor::Dim,
    }
}

// ── the panel widget ────────────────────────────────────────────────────

/// The network the machine is connected to.
#[derive(Clone, Debug, PartialEq, Eq)]
pub struct ConnectedNetwork {
    pub ssid: String,
    pub signal: i32,
}

/// A network in the scan list.
#[derive(Clone, Debug, PartialEq, Eq)]
pub struct KnownNetwork {
    pub ssid: String,
    pub signal: i32,
    /// A saved connection exists for it.
    pub known: bool,
    pub secured: bool,
}

/// The Wi-Fi state the panel shows.
#[derive(Clone, Debug, PartialEq, Eq)]
pub struct WifiState {
    pub enabled: bool,
    pub connected: Option<ConnectedNetwork>,
    pub networks: Vec<KnownNetwork>,
}

/// The signal band of a reading: 4 from 80 %, 3 from 60 %, 2 from 40 %,
/// 1 from 20 %, 0 below.
pub open spec fn signal_band(signal: int) -> int {
    if signal >= 80 {
        4
    } else if signal >= 60 {
        3
    } else if signal >= 40 {
        2
    } else if signal >= 20 {
        1
    } else {
        0
    }
}

pub open spec fn band_icon(band: int) -> &'static str {
    if band == 4 {
        "wifi-excellent-symbolic"
    } else if band == 3 {
        "wifi-good-symbolic"
    } else if band == 2 {
        "wifi-fair-symbolic"
    } else if band == 1 {
        "wifi-weak-symbolic"
    } else {
        "wifi-off-symbolic"
    }
}

/// The symbolic icon for a signal strength (the network list's rows).
pub fn icon_for_signal(signal: i32) -> (r: &'static str)
    ensures
        r == band_icon(signal_band(signal as int)),
{
    if signal >= 80 {
        "wifi-excellent-symbolic"
    } else if signal >= 60 {
        "wifi-good-symbolic"
    } else if signal >= 40 {
        "wifi-fair-symbolic"
    } else if signal >= 20 {
        "wifi-weak-symbolic"
    } else {
        "wifi-off-symbolic"
    }
}

/// The bar icon: off when disabled or not connected, else by signal.
pub open spec fn icon_of(state: WifiState) -> &'static str {
    if !state.enabled {
        "wifi-off-symbolic"
    } else {
        match state.connected {
            None => "wifi-off-symbolic",
            Some(c) => band_icon(signal_band(c.signal as int)),
        }
    }
}

pub fn icon_for(state: &WifiState) -> (r: &'static str)
    ensures
        r == icon_of(*state),
{
    if !state.enabled {
        return "wifi-off-symbolic";
    }
    match &state.connected {
        None => "wifi-off-symbolic",
        Some(c) => icon_for_signal(c.signal),
    }
}

/// The bar icon follows the signal in steps of 20: excellent from 80,
/// good from 60, fair from 40, weak from 20, off below 20 and whenever the
/// link is disabled or not connected. A stronger signal never shows a
/// lower step.
pub proof fn law_wifi_icon_bands(state: WifiState, signal: i32, stronger: i32)
    ensures
        !state.enabled || state.connected is None ==> icon_of(state)@ == "wifi-off-symbolic"@,
        state.enabled ==> (state.connected matches Some(c) ==> icon_of(state)@ == band_icon(
            signal_band(c.signal as int),
        )@),
        signal >= 80 ==> band_icon(signal_band(signal as int))@ == "wifi-excellent-symbolic"@,
        60 <= signal < 80 ==> band_icon(signal_band(signal as int))@ == "wifi-good-symbolic"@,
        40 <= signal < 60 ==> band_icon(signal_band(signal as int))@ == "wifi-fair-symbolic"@,
        20 <= signal < 40 ==> band_icon(signal_band(signal as int))@ == "wifi-weak-symbolic"@,
        signal < 20 ==> band_icon(signal_band(signal as int))@ == "wifi-off-symbolic"@,
        signal <= stronger ==> signal_band(signal as int) <= signal_band(stronger as int),
        0 <= signal_band(signal as int) <= 4,
{
}

/// The colour class: disconnected when disabled or not connected; high
/// from 60 %, mid from 20 %, low below.
pub open spec fn class_of(state: WifiState) -> &'static str {
    if !state.enabled {
        "wifi-disconnected"
    } else {
        match state.connected {
            None => "wifi-disconnected",
            Some(c) => if c.signal >= 60 {
                "wifi-high"
            } else if c.signal >= 20 {
                "wifi-mid"
            } else {
                "wifi-low"
            },
        }
    }
}

pub fn class_for(state: &WifiState) -> (r: &'static str)
    ensures
        r == class_of(*state),
{
    if !state.enabled {
        return "wifi-disconnected";
    }
    match &state.connected {
        None => "wifi-disconnected",
        Some(c) => {
            if c.signal >= 60 {
                "wifi-high"
            } else if c.signal >= 20 {
                "wifi-mid"
            } else {
                "wifi-low"
            }
        },
    }
}

/// The colour class follows the signal bands: an enabled, connected link is
/// `wifi-high` from 60, `wifi-mid` from 20 up to 59 and `wifi-low` below
/// 20; a disabled or unconnected one is `wifi-disconnected`. A stronger
/// signal never gives a weaker class.
pub proof fn law_wifi_class_bands(state: WifiState, other: i32)
    ensures
        !state.enabled || state.connected is None ==> class_of(state)@ == "wifi-disconnected"@,
        state.enabled ==> (state.connected matches Some(c) ==> {
            &&& c.signal >= 60 ==> class_of(state)@ == "wifi-high"@
            &&& 20 <= c.signal < 60 ==> class_of(state)@ == "wifi-mid"@
            &&& c.signal < 20 ==> class_of(state)@ == "wifi-low"@
        }),
        state.enabled ==> (state.connected matches Some(c) ==> ((other >= c.signal && class_of(state)@
            != "wifi-low"@) ==> class_of(
            WifiState { connected: Some(ConnectedNetwork { ssid: c.ssid, signal: other }), ..state },
        )@ != "wifi-low"@)),
{
    reveal_strlit("wifi-high");
    reveal_strlit("wifi-mid");
    reveal_strlit("wifi-low");
    assert("wifi-high"@[5] != "wifi-low"@[5]);
    assert("wifi-mid"@[5] != "wifi-low"@[5]);
}
/// Characters of the SSID the bar shows at most.
pub const SSID_BAR_MAX: usize = 16;

/// The SSID as the bar shows it: whole when it fits, else its first
/// `SSID_BAR_MAX - 1` characters and an ellipsis.
pub open spec fn truncated(s: Seq<char>) -> Seq<char> {
    if s.len() <= SSID_BAR_MAX {
        s
    } else {
        s.take(SSID_BAR_MAX - 1).push('…')
    }
}

pub fn truncate_ssid(s: &str) -> (r: String)
    ensures
        r@ == truncated(s@),
{
    let cs = chars_of(s);
    if cs.len() <= SSID_BAR_MAX {
        return owned(s);
    }
    let mut out = String::new();
    for i in 0..SSID_BAR_MAX - 1
        invariant
            cs@ == s@,
            cs@.len() > SSID_BAR_MAX,
            out@ == cs@.take(i as int),
    {
        push_char(&mut out, cs[i]);
        assert(cs@.take(i + 1) =~= cs@.take(i as int).push(cs@[i as int]));
    }
    push_char(&mut out, '…');
    out
}

/// The SSID of the connected network, if any.
pub open spec fn ssid_of(state: WifiState) -> Option<Seq<char>> {
    match state.connected {
        Some(c) => Some(c.ssid@),
        None => None,
    }
}

/// Whether two states look the same in the bar: same icon, class and
/// connected SSID.
pub fn bar_render_eq(a: &WifiState, b: &WifiState) -> (r: bool)
    ensures
        r == (icon_of(*a)@ == icon_of(*b)@ && class_of(*a)@ == class_of(*b)@ && ssid_of(*a) == ssid_of(*b)),
{
    let same_ssid = match (&a.connected, &b.connected) {
        (Some(x), Some(y)) => str_eq(x.ssid.as_str(), y.ssid.as_str()),
        (None, None) => true,
        _ => false,
    };
    str_eq(icon_for(a), icon_for(b)) && str_eq(class_for(a), class_for(b)) && same_ssid
}

/// The SSID label of the bar: the truncated SSID, or hidden (`None`) when
/// not connected or the SSID is empty.
pub fn ssid_label(state: &WifiState) -> (r: Option<String>)
    ensures
        match state.connected {
            Some(c) => if c.ssid@.len() == 0 {
                r is None
            } else {
                r is Some && r->0@ == truncated(c.ssid@)
            },
            None => r is None,
        },
{
    match &state.connected {
        Some(c) => {
            if c.ssid.as_str().is_empty() {
                None
            } else {
                Some(truncate_ssid(c.ssid.as_str()))
            }
        },
        None => None,
    }
}

/// One row of the panel's network list.
#[derive(Clone, Debug, PartialEq, Eq)]
pub struct WifiRow {
    /// The machine is connected to this network: the row is styled apart
    /// and clicking it does nothing.
    pub connected: bool,
    pub icon: &'static str,
    /// `{signal}%`.
    pub signal_text: String,
}

pub open spec fn signal_text_of(signal: int) -> Seq<char> {
    if signal < 0 {
        seq!['-'] + dec((-signal) as nat) + "%"@
    } else {
        dec(signal as nat) + "%"@
    }
}

fn signal_text(signal: i32) -> (r: String)
    ensures
        r@ == signal_text_of(signal as int),
{
    let mut s = String::new();
    if signal < 0 {
        push_char(&mut s, '-');
        let m: u64 = ((-(signal as i64)) as u64);
        push_dec(&mut s, m);
    } else {
        push_dec(&mut s, signal as u64);
    }
    s.append("%");
    proof {
        if signal < 0 {
            assert(s@ =~= seq!['-'] + dec((-signal) as nat) + "%"@);
        }
    }
    s
}

/// The rows of the network list, one per scanned network in order.
pub fn popover_rows(state: &WifiState) -> (r: Vec<WifiRow>)
    ensures
        r@.len() == state.networks@.len(),
        forall|i: int| 0 <= i < r@.len() ==> {
            let n = #[trigger] state.networks@[i];
            &&& r@[i].connected == (ssid_of(*state) == Some(n.ssid@))
            &&& r@[i].icon == band_icon(signal_band(n.signal as int))
            &&& r@[i].signal_text@ == signal_text_of(n.signal as int)
        },
{
    let mut rows: Vec<WifiRow> = Vec::new();
    for i in 0..state.networks.len()
        invariant
            rows@.len() == i,
            forall|k: int| 0 <= k < i ==> {
                let n = #[trigger] state.networks@[k];
                &&& rows@[k].connected == (ssid_of(*state) == Some(n.ssid@))
                &&& rows@[k].icon == band_icon(signal_band(n.signal as int))
                &&& rows@[k].signal_text@ == signal_text_of(n.signal as int)
            },
    {
        let n = &state.networks[i];
        let connected = match &state.connected {
            Some(c) => str_eq(c.ssid.as_str(), n.ssid.as_str()),
            None => false,
        };
        rows.push(WifiRow { connected, icon: icon_for_signal(n.signal), signal_text: signal_text(n.signal) });
    }
    rows
}

/// What the list shows when it holds no network.
pub fn empty_list_text(state: &WifiState) -> (r: Option<&'static str>)
    ensures
        state.networks@.len() > 0 ==> r is None,
        state.networks@.len() == 0 && state.enabled ==> r == Some("No networks found"),
        state.networks@.len() == 0 && !state.enabled ==> r == Some("Wi-Fi disabled"),
{
    if state.networks.len() > 0 {
        None
    } else if state.enabled {
        Some("No networks found")
    } else {
        Some("Wi-Fi disabled")
    }
}

} // verus!
