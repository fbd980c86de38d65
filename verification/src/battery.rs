//! Battery widget: the colour band of a battery state, the popover texts,
//! and which parts of the widget an update rewrites.

use vstd::prelude::*;

use crate::text::{chars_of, dec, eq_chars, push_dec, trim, trimmed};

verus! {

#[derive(Clone, Copy, Debug, PartialEq, Eq, Structural)]
pub enum BatteryStatus {
    Charging,
    Discharging,
    Full,
    NotCharging,
    Unknown,
}

/// The status named by the text of a battery's `status` file.
pub open spec fn status_of(text: Seq<char>) -> BatteryStatus {
    let t = trim(text);
    if t == "Charging"@ {
        BatteryStatus::Charging
    } else if t == "Discharging"@ {
        BatteryStatus::Discharging
    } else if t == "Full"@ {
        BatteryStatus::Full
    } else if t == "Not charging"@ {
        BatteryStatus::NotCharging
    } else {
        BatteryStatus::Unknown
    }
}

/// The status file's words, with surrounding white space ignored:
/// `Charging`, `Discharging`, `Full`, `Not charging`; anything else is
/// unknown.
pub proof fn law_status_words(text: Seq<char>)
    ensures
        trim(text) == "Charging"@ ==> status_of(text) == BatteryStatus::Charging,
        trim(text) == "Discharging"@ ==> status_of(text) == BatteryStatus::Discharging,
        trim(text) == "Full"@ ==> status_of(text) == BatteryStatus::Full,
        trim(text) == "Not charging"@ ==> status_of(text) == BatteryStatus::NotCharging,
        trim(text) != "Charging"@ && trim(text) != "Discharging"@ && trim(text) != "Full"@ && trim(text)
            != "Not charging"@ ==> status_of(text) == BatteryStatus::Unknown,
{
    reveal_strlit("Charging");
    reveal_strlit("Discharging");
    reveal_strlit("Full");
    reveal_strlit("Not charging");
    assert("Charging"@.len() != "Discharging"@.len());
    assert("Charging"@.len() != "Full"@.len());
    assert("Charging"@.len() != "Not charging"@.len());
    assert("Discharging"@.len() != "Full"@.len());
    assert("Discharging"@.len() != "Not charging"@.len());
    assert("Full"@.len() != "Not charging"@.len());
}

/// Reads a battery's `status` file.
pub fn parse_status(text: &str) -> (r: BatteryStatus)
    ensures
        r == status_of(text@),
{
    let t = trimmed(&chars_of(text));
    if eq_chars(&t, &chars_of("Charging")) {
        BatteryStatus::Charging
    } else if eq_chars(&t, &chars_of("Discharging")) {
        BatteryStatus::Discharging
    } else if eq_chars(&t, &chars_of("Full")) {
        BatteryStatus::Full
    } else if eq_chars(&t, &chars_of("Not charging")) {
        BatteryStatus::NotCharging
    } else {
        BatteryStatus::Unknown
    }
}

/// What the battery reports.
#[derive(Clone, Copy, Debug, PartialEq, Eq, Structural)]
pub struct BatteryState {
    /// Whether a battery was found at all.
    pub present: bool,
    pub status: BatteryStatus,
    pub capacity_pct: u32,
    pub time_remaining_minutes: Option<u32>,
    pub cycles: Option<u32>,
    pub health_pct: Option<u32>,
}

impl BatteryState {
    /// No battery.
    pub fn absent() -> (r: Self)
        ensures
            !r.present,
            r.status == BatteryStatus::Unknown,
            r.capacity_pct == 0,
            r.time_remaining_minutes is None,
            r.cycles is None,
            r.health_pct is None,
    {
        BatteryState {
            present: false,
            status: BatteryStatus::Unknown,
            capacity_pct: 0,
            time_remaining_minutes: None,
            cycles: None,
            health_pct: None,
        }
    }
}

/// The colour bands of the battery icon and label.
#[derive(Clone, Copy, Debug, PartialEq, Eq, Structural)]
pub enum BatteryBand {
    Charging,
    Crit,
    Low,
    Norm,
    Full,
}

/// Charging wins over everything, then full; at most 10 % is critical and
/// at most 20 % low; a battery that is not charging at 90 % or more counts
/// as full.
pub open spec fn band_of(status: BatteryStatus, pct: u32) -> BatteryBand {
    if status == BatteryStatus::Charging {
        BatteryBand::Charging
    } else if status == BatteryStatus::Full {
        BatteryBand::Full
    } else if pct <= 10 {
        BatteryBand::Crit
    } else if pct <= 20 {
        BatteryBand::Low
    } else if status == BatteryStatus::NotCharging && pct >= 90 {
        BatteryBand::Full
    } else {
        BatteryBand::Norm
    }
}

/// Charging always shows as charging and a full battery as full, whatever
/// the capacity reads; otherwise 10 % or less is critical and 20 % or less
/// low.
pub proof fn law_status_bands(status: BatteryStatus, pct: u32)
    ensures
        status == BatteryStatus::Charging ==> band_of(status, pct) == BatteryBand::Charging,
        status == BatteryStatus::Full ==> band_of(status, pct) == BatteryBand::Full,
        status != BatteryStatus::Charging && status != BatteryStatus::Full && pct <= 10 ==> band_of(status, pct)
            == BatteryBand::Crit,
        status != BatteryStatus::Charging && status != BatteryStatus::Full && 10 < pct <= 20 ==> band_of(
            status,
            pct,
        ) == BatteryBand::Low,
{
}

pub fn battery_band(state: &BatteryState) -> (r: BatteryBand)
    ensures
        r == band_of(state.status, state.capacity_pct),
{
    if state.status == BatteryStatus::Charging {
        BatteryBand::Charging
    } else if state.status == BatteryStatus::Full {
        BatteryBand::Full
    } else if state.capacity_pct <= 10 {
        BatteryBand::Crit
    } else if state.capacity_pct <= 20 {
        BatteryBand::Low
    } else if state.status == BatteryStatus::NotCharging && state.capacity_pct >= 90 {
        BatteryBand::Full
    } else {
        BatteryBand::Norm
    }
}

/// The CSS class of a band.
pub fn band_class(b: BatteryBand) -> (r: &'static str)
    ensures
        b == BatteryBand::Charging ==> r == "battery-charging",
        b == BatteryBand::Crit ==> r == "battery-crit",
        b == BatteryBand::Low ==> r == "battery-low",
        b == BatteryBand::Norm ==> r == "battery-norm",
        b == BatteryBand::Full ==> r == "battery-full",
{
    match b {
        BatteryBand::Charging => "battery-charging",
        BatteryBand::Crit => "battery-crit",
        BatteryBand::Low => "battery-low",
        BatteryBand::Norm => "battery-norm",
        BatteryBand::Full => "battery-full",
    }
}

/// The class for a state.
pub fn class_for(state: &BatteryState) -> (r: &'static str)
    ensures
        r == (match band_of(state.status, state.capacity_pct) {
            BatteryBand::Charging => "battery-charging",
            BatteryBand::Crit => "battery-crit",
            BatteryBand::Low => "battery-low",
            BatteryBand::Norm => "battery-norm",
            BatteryBand::Full => "battery-full",
        }),
{
    band_class(battery_band(state))
}

/// The icon file: the charging variant while charging.
pub fn battery_icon(charging: bool) -> (r: &'static str)
    ensures
        charging ==> r == "battery-charging.svg",
        !charging ==> r == "battery.svg",
{
    if charging {
        "battery-charging.svg"
    } else {
        "battery.svg"
    }
}

/// The text of a status.
pub fn fmt_status(status: BatteryStatus) -> (r: &'static str)
    ensures
        status == BatteryStatus::Charging ==> r == "Charging",
        status == BatteryStatus::Discharging ==> r == "Discharging",
        status == BatteryStatus::Full ==> r == "Full",
        status == BatteryStatus::NotCharging ==> r == "Not charging",
        status == BatteryStatus::Unknown ==> r == "Unknown",
{
    match status {
        BatteryStatus::Charging => "Charging",
        BatteryStatus::Discharging => "Discharging",
        BatteryStatus::Full => "Full",
        BatteryStatus::NotCharging => "Not charging",
        BatteryStatus::Unknown => "Unknown",
    }
}

/// `{h}h {m}m` with at least one hour, `{m}m` below that, and a dash when
/// the time is unknown or zero.
pub open spec fn time_remaining_text(minutes: Option<u32>) -> Seq<char> {
    match minutes {
        Some(m) if m > 0 => if m / 60 > 0 {
            dec((m / 60) as nat) + "h "@ + dec((m % 60) as nat) + "m"@
        } else {
            dec((m % 60) as nat) + "m"@
        },
        _ => "—"@,
    }
}

pub fn fmt_time_remaining(minutes: Option<u32>) -> (r: String)
    ensures
        r@ == time_remaining_text(minutes),
{
    let mut s = String::new();
    match minutes {
        Some(m) if m > 0 => {
            let h = m / 60;
            let mm = m % 60;
            if h > 0 {
                push_dec(&mut s, h as u64);
                s.append("h ");
                push_dec(&mut s, mm as u64);
                s.append("m");
            } else {
                push_dec(&mut s, mm as u64);
                s.append("m");
            }
        },
        _ => {
            s.append("—");
        },
    }
    s
}

/// What an update of the widget writes.
#[derive(Clone, Debug, PartialEq, Eq)]
pub enum BatteryRefresh {
    /// Nothing observable changed.
    Unchanged,
    /// No battery: the widget is hidden.
    Hide,
    /// The widget is shown with these texts; the icon and the percent label
    /// are set only when `icon` / `label` hold a value.
    Show {
        icon: Option<&'static str>,
        label: Option<String>,
        class: &'static str,
        status_line: String,
        time_line: String,
        cycles_line: String,
        health_line: String,
    },
}

pub open spec fn status_text(status: BatteryStatus) -> Seq<char> {
    match status {
        BatteryStatus::Charging => "Charging"@,
        BatteryStatus::Discharging => "Discharging"@,
        BatteryStatus::Full => "Full"@,
        BatteryStatus::NotCharging => "Not charging"@,
        BatteryStatus::Unknown => "Unknown"@,
    }
}

/// `{n}`, or a dash when unknown.
pub open spec fn opt_text(v: Option<u32>, suffix: Seq<char>) -> Seq<char> {
    match v {
        Some(n) => dec(n as nat) + suffix,
        None => "—"@,
    }
}

/// The popover lines: status and percent, time remaining, charge cycles
/// and health.
pub open spec fn popover_lines(state: BatteryState) -> (Seq<char>, Seq<char>, Seq<char>, Seq<char>) {
    (
        status_text(state.status) + " — "@ + dec(state.capacity_pct as nat) + "%"@,
        "Time remaining: "@ + time_remaining_text(state.time_remaining_minutes),
        "Cycles: "@ + opt_text(state.cycles, ""@),
        "Health: "@ + opt_text(state.health_pct, "%"@),
    )
}

fn push_opt(s: &mut String, v: Option<u32>, suffix: &str)
    ensures
        final(s)@ == old(s)@ + opt_text(v, suffix@),
{
    match v {
        Some(n) => {
            push_dec(s, n as u64);
            s.append(suffix);
        },
        None => {
            s.append("—");
        },
    }
}

/// The percent label: `{pct}%`.
pub fn percent_text(pct: u32) -> (r: String)
    ensures
        r@ == dec(pct as nat) + "%"@,
{
    let mut s = String::new();
    push_dec(&mut s, pct as u64);
    s.append("%");
    s
}

/// What an update from `last` to `state` writes: nothing when the state is
/// unchanged; hiding when there is no battery; otherwise the class and the
/// popover lines, the icon when charging started or stopped or the widget
/// was hidden, and the percent label when it changed or the widget was
/// hidden.
pub fn battery_refresh(last: &BatteryState, state: &BatteryState) -> (r: BatteryRefresh)
    ensures
        *state == *last ==> r is Unchanged,
        *state != *last && !state.present ==> r is Hide,
        *state != *last && state.present ==> ({
            let charging = state.status == BatteryStatus::Charging;
            let was = last.status == BatteryStatus::Charging;
            let lines = popover_lines(*state);
            &&& r matches BatteryRefresh::Show { icon, label, class, status_line, time_line, cycles_line, health_line }
            &&& (if charging != was || !last.present {
                icon == Some(if charging { "battery-charging.svg" } else { "battery.svg" })
            } else {
                icon is None
            })
            &&& (if state.capacity_pct != last.capacity_pct || !last.present {
                label is Some && label->0@ == dec(state.capacity_pct as nat) + "%"@
            } else {
                label is None
            })
            &&& class == (match band_of(state.status, state.capacity_pct) {
                BatteryBand::Charging => "battery-charging",
                BatteryBand::Crit => "battery-crit",
                BatteryBand::Low => "battery-low",
                BatteryBand::Norm => "battery-norm",
                BatteryBand::Full => "battery-full",
            })
            &&& status_line@ == lines.0
            &&& time_line@ == lines.1
            &&& cycles_line@ == lines.2
            &&& health_line@ == lines.3
        }),
{
    if *state == *last {
        return BatteryRefresh::Unchanged;
    }
    if !state.present {
        return BatteryRefresh::Hide;
    }
    let charging = state.status == BatteryStatus::Charging;
    let was = last.status == BatteryStatus::Charging;
    let icon = if charging != was || !last.present {
        Some(battery_icon(charging))
    } else {
        None
    };
    let label = if state.capacity_pct != last.capacity_pct || !last.present {
        Some(percent_text(state.capacity_pct))
    } else {
        None
    };
    let mut status_line = String::new();
    status_line.append(fmt_status(state.status));
    status_line.append(" — ");
    push_dec(&mut status_line, state.capacity_pct as u64);
    status_line.append("%");
    let mut time_line = String::new();
    time_line.append("Time remaining: ");
    let t = fmt_time_remaining(state.time_remaining_minutes);
    time_line.append(t.as_str());
    let mut cycles_line = String::new();
    cycles_line.append("Cycles: ");
    push_opt(&mut cycles_line, state.cycles, "");
    let mut health_line = String::new();
    health_line.append("Health: ");
    push_opt(&mut health_line, state.health_pct, "%");
    BatteryRefresh::Show {
        icon,
        label,
        class: class_for(state),
        status_line,
        time_line,
        cycles_line,
        health_line,
    }
}

} // verus!
