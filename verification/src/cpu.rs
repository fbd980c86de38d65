//! CPU usage, memory usage and CPU temperature: the procfs/sysfs text
//! parsers, the integer arithmetic on the counters, and the colour bands.

use vstd::prelude::*;

use crate::text::{
    chars_of, dec, eq_chars, lines, pad_left, parse_i64, parse_i64_spec, parse_u64, parse_unsigned,
    push_dec_padded, split_lines, split_words, starts_with, strip_prefix, trim, trimmed, views, words,
};

verus! {

// ── /proc/stat ──────────────────────────────────────────────────────────

/// Raw CPU time counters from the aggregate `cpu` line of `/proc/stat`.
#[derive(Clone, Copy, Debug, PartialEq, Eq, Structural)]
pub struct CpuTimes {
    pub user: u64,
    pub nice: u64,
    pub system: u64,
    pub idle: u64,
    pub iowait: u64,
    pub irq: u64,
    pub softirq: u64,
    pub steal: u64,
}

pub open spec fn total_spec(t: CpuTimes) -> int {
    t.user + t.nice + t.system + t.idle + t.iowait + t.irq + t.softirq + t.steal
}

pub open spec fn idle_spec(t: CpuTimes) -> int {
    t.idle + t.iowait
}

impl CpuTimes {
    pub fn zero() -> (r: Self)
        ensures
            total_spec(r) == 0,
            r.user == 0 && r.nice == 0 && r.system == 0 && r.idle == 0 && r.iowait == 0 && r.irq
                == 0 && r.softirq == 0 && r.steal == 0,
    {
        CpuTimes { user: 0, nice: 0, system: 0, idle: 0, iowait: 0, irq: 0, softirq: 0, steal: 0 }
    }

    /// Sum of all eight counters.
    pub fn total(&self) -> (r: u64)
        requires
            total_spec(*self) <= u64::MAX,
        ensures
            r == total_spec(*self),
    {
        self.user + self.nice + self.system + self.idle + self.iowait + self.irq + self.softirq
            + self.steal
    }

    /// Idle plus iowait time.
    pub fn idle_total(&self) -> (r: u64)
        requires
            idle_spec(*self) <= u64::MAX,
        ensures
            r == idle_spec(*self),
    {
        self.idle + self.iowait
    }
}

/// The values of the words that parse as `u64`, in order (the others are
/// skipped).
pub open spec fn parsed_u64s(ws: Seq<Seq<char>>) -> Seq<nat>
    decreases ws.len(),
{
    if ws.len() == 0 {
        Seq::<nat>::empty()
    } else {
        let p = parsed_u64s(ws.drop_last());
        match parse_unsigned(ws.last(), u64::MAX as nat) {
            Some(v) => p.push(v),
            None => p,
        }
    }
}

/// The numbers on a line that starts with `cpu ` (with the space).
pub open spec fn cpu_line_values(line: Seq<char>) -> Seq<nat> {
    parsed_u64s(words(line.subrange(4, line.len() as int)))
}

pub open spec fn is_cpu_line(line: Seq<char>) -> bool {
    starts_with(line, "cpu "@) && cpu_line_values(line).len() >= 8
}

/// The counters of the first aggregate line that carries at least eight
/// numbers.
pub open spec fn cpu_values_of(ls: Seq<Seq<char>>) -> Option<Seq<nat>>
    decreases ls.len(),
{
    if ls.len() == 0 {
        None
    } else if is_cpu_line(ls[0]) {
        Some(cpu_line_values(ls[0]))
    } else {
        cpu_values_of(ls.drop_first())
    }
}

pub open spec fn times_from(v: Seq<nat>) -> CpuTimes {
    CpuTimes {
        user: v[0] as u64,
        nice: v[1] as u64,
        system: v[2] as u64,
        idle: v[3] as u64,
        iowait: v[4] as u64,
        irq: v[5] as u64,
        softirq: v[6] as u64,
        steal: v[7] as u64,
    }
}

fn parse_u64_words(ws: &Vec<Vec<char>>) -> (r: Vec<u64>)
    ensures
        r@.map_values(|x: u64| x as nat) == parsed_u64s(views(ws@)),
        forall|i: int| 0 <= i < r@.len() ==> r@[i] <= u64::MAX,
{
    let mut r: Vec<u64> = Vec::new();
    let ghost vs = views(ws@);
    proof {
        assert(vs.take(0) =~= Seq::<Seq<char>>::empty());
    }
    for i in 0..ws.len()
        invariant
            vs == views(ws@),
            r@.map_values(|x: u64| x as nat) == parsed_u64s(vs.take(i as int)),
    {
        proof {
            assert(vs.take(i + 1).drop_last() =~= vs.take(i as int));
            assert(vs.take(i + 1).last() == ws@[i as int]@);
        }
        let ghost before = r@;
        match parse_u64(&ws[i]) {
            Some(v) => {
                r.push(v);
                assert(r@.map_values(|x: u64| x as nat) =~= before.map_values(|x: u64| x as nat).push(
                    v as nat,
                ));
            },
            None => {},
        }
    }
    proof {
        assert(vs.take(ws.len() as int) =~= vs);
    }
    r
}

/// The aggregate CPU counters in the text of `/proc/stat`: the first line
/// starting with `cpu ` that carries at least eight numbers gives the
/// first eight of them; all zero when there is none.
pub fn parse_cpu_times(stat: &str) -> (r: CpuTimes)
    ensures
        match cpu_values_of(lines(stat@)) {
            Some(v) => r == times_from(v),
            None => r == CpuTimes::zero_spec(),
        },
{
    let ls = split_lines(&chars_of(stat));
    let prefix = chars_of("cpu ");
    let mut i: usize = 0;
    proof {
        assert(views(ls@).skip(0) =~= views(ls@));
    }
    while i < ls.len()
        invariant
            i <= ls.len(),
            views(ls@) == lines(stat@),
            prefix@ == "cpu "@,
            cpu_values_of(lines(stat@)) == cpu_values_of(views(ls@).skip(i as int)),
        decreases ls.len() - i,
    {
        let ghost rest = views(ls@).skip(i as int);
        proof {
            assert(rest[0] == ls@[i as int]@);
            assert(rest.drop_first() =~= views(ls@).skip(i + 1));
        }
        match strip_prefix(&ls[i], &prefix) {
            Some(tail) => {
                proof {
                    reveal_strlit("cpu ");
                }
                let vals = parse_u64_words(&split_words(&tail));
                if vals.len() >= 8 {
                    proof {
                        assert(tail@ == ls@[i as int]@.subrange(4, ls@[i as int]@.len() as int));
                        assert(vals@.map_values(|x: u64| x as nat)[0] == vals@[0] as nat);
                    }
                    return CpuTimes {
                        user: vals[0],
                        nice: vals[1],
                        system: vals[2],
                        idle: vals[3],
                        iowait: vals[4],
                        irq: vals[5],
                        softirq: vals[6],
                        steal: vals[7],
                    };
                }
                proof {
                    assert(tail@ == ls@[i as int]@.subrange(4, ls@[i as int]@.len() as int));
                }
            },
            None => {},
        }
        i = i + 1;
    }
    proof {
        assert(views(ls@).skip(i as int) =~= Seq::<Seq<char>>::empty());
    }
    CpuTimes::zero()
}

impl CpuTimes {
    pub open spec fn zero_spec() -> CpuTimes {
        CpuTimes { user: 0, nice: 0, system: 0, idle: 0, iowait: 0, irq: 0, softirq: 0, steal: 0 }
    }
}

// ── usage between two samples ───────────────────────────────────────────

pub open spec fn sat_sub(a: int, b: int) -> int {
    if a >= b {
        a - b
    } else {
        0
    }
}

/// Busy and total ticks between two samples: the total delta and the idle
/// delta are taken with saturating subtraction; no ticks elapsed gives
/// `(0, 0)`.
pub open spec fn usage_ticks_spec(prev: CpuTimes, cur: CpuTimes) -> (int, int) {
    let dt = sat_sub(total_spec(cur), total_spec(prev));
    let di = sat_sub(idle_spec(cur), idle_spec(prev));
    if dt == 0 {
        (0, 0)
    } else {
        (dt - di, dt)
    }
}

/// `(busy, total)` ticks between two samples of the counters.
pub fn usage_ticks(prev: &CpuTimes, cur: &CpuTimes) -> (r: (u64, u64))
    requires
        total_spec(*prev) <= u64::MAX,
        total_spec(*cur) <= u64::MAX,
        sat_sub(total_spec(*cur), total_spec(*prev)) > 0 ==> sat_sub(
            idle_spec(*cur),
            idle_spec(*prev),
        ) <= sat_sub(total_spec(*cur), total_spec(*prev)),
    ensures
        r.0 == usage_ticks_spec(*prev, *cur).0,
        r.1 == usage_ticks_spec(*prev, *cur).1,
        r.0 <= r.1,
{
    let dt = cur.total().saturating_sub(prev.total());
    if dt == 0 {
        return (0, 0);
    }
    let di = cur.idle_total().saturating_sub(prev.idle_total());
    (dt - di, dt)
}

/// `part / whole` as a percentage rounded half away from zero; 0 when
/// `whole` is 0.
pub open spec fn percent_rounded(part: int, whole: int) -> int {
    if whole == 0 {
        0
    } else {
        (200 * part + whole) / (2 * whole)
    }
}

pub fn percent_of(part: u64, whole: u64) -> (r: u32)
    requires
        part <= whole,
    ensures
        r == percent_rounded(part as int, whole as int),
        r <= 100,
{
    if whole == 0 {
        return 0;
    }
    let p = part as u128;
    let w = whole as u128;
    let q = (200 * p + w) / (2 * w);
    proof {
        assert((200 * p + w) / (2 * w) <= 100) by (nonlinear_arith)
            requires
                p <= w,
                w > 0,
        ;
    }
    q as u32
}

/// Colour band of a utilisation reading.
#[derive(Clone, Copy, Debug, PartialEq, Eq, Structural)]
pub enum Band {
    Dim,
    Norm,
    Warn,
    Crit,
}

/// CPU usage bands: critical from 80 %, warning from 60 %, normal from
/// 25 %, dim below; decided on the exact ratio `busy / total`. No elapsed
/// ticks read as 0 %.
pub open spec fn cpu_band_spec(busy: int, total: int) -> Band {
    if total == 0 {
        Band::Dim
    } else if 100 * busy >= 80 * total {
        Band::Crit
    } else if 100 * busy >= 60 * total {
        Band::Warn
    } else if 100 * busy >= 25 * total {
        Band::Norm
    } else {
        Band::Dim
    }
}

/// CPU usage bands by share of busy ticks: critical from 80 %, warning
/// from 60 %, normal from 25 %, dim below and when no tick elapsed. More
/// busy ticks out of the same total never give a lower band.
pub proof fn law_cpu_usage_bands(busy: int, more: int, total: int)
    requires
        0 <= busy <= more <= total,
    ensures
        total == 0 ==> cpu_band_spec(busy, total) == Band::Dim,
        total > 0 && 100 * busy >= 80 * total ==> cpu_band_spec(busy, total) == Band::Crit,
        total > 0 && 60 * total <= 100 * busy < 80 * total ==> cpu_band_spec(busy, total) == Band::Warn,
        total > 0 && 25 * total <= 100 * busy < 60 * total ==> cpu_band_spec(busy, total) == Band::Norm,
        total > 0 && 100 * busy < 25 * total ==> cpu_band_spec(busy, total) == Band::Dim,
        band_rank(cpu_band_spec(busy, total)) <= band_rank(cpu_band_spec(more, total)),
{
}

/// The order of the bands, from dim to critical.
pub open spec fn band_rank(b: Band) -> int {
    match b {
        Band::Dim => 0,
        Band::Norm => 1,
        Band::Warn => 2,
        Band::Crit => 3,
    }
}

pub fn cpu_usage_band(busy: u64, total: u64) -> (r: Band)
    ensures
        r == cpu_band_spec(busy as int, total as int),
{
    let b = busy as u128;
    let t = total as u128;
    if t == 0 {
        Band::Dim
    } else if 100 * b >= 80 * t {
        Band::Crit
    } else if 100 * b >= 60 * t {
        Band::Warn
    } else if 100 * b >= 25 * t {
        Band::Norm
    } else {
        Band::Dim
    }
}

pub fn cpu_usage_class(b: Band) -> (r: &'static str)
    ensures
        b == Band::Crit ==> r@ == "cpu-usage-crit"@,
        b == Band::Warn ==> r@ == "cpu-usage-warn"@,
        b == Band::Norm ==> r@ == "cpu-usage-norm"@,
        b == Band::Dim ==> r@ == "cpu-usage-dim"@,
{
    match b {
        Band::Crit => "cpu-usage-crit",
        Band::Warn => "cpu-usage-warn",
        Band::Norm => "cpu-usage-norm",
        Band::Dim => "cpu-usage-dim",
    }
}

/// `format!("{:>2}%", pct)`.
pub fn percent_label(pct: u32) -> (r: String)
    ensures
        r@ == pad_left(dec(pct as nat), 2) + "%"@,
{
    let mut s = String::new();
    push_dec_padded(&mut s, pct as u64, 2);
    s.append("%");
    s
}

// ── /proc/meminfo ───────────────────────────────────────────────────────

/// The first word of `rest` as a `u64`, or 0.
pub open spec fn first_u64_or_zero(rest: Seq<char>) -> nat {
    let ws = words(rest);
    if ws.len() > 0 {
        match parse_unsigned(ws[0], u64::MAX as nat) {
            Some(v) => v,
            None => 0,
        }
    } else {
        0
    }
}

/// Scanning `/proc/meminfo` lines with `(MemTotal, MemAvailable)` seen so
/// far; stops once both are non-zero.
pub open spec fn meminfo_scan(ls: Seq<Seq<char>>, total: nat, avail: nat) -> (nat, nat)
    decreases ls.len(),
{
    if ls.len() == 0 {
        (total, avail)
    } else {
        let l = ls[0];
        let (t, a) = if starts_with(l, "MemTotal:"@) {
            (first_u64_or_zero(l.subrange(9, l.len() as int)), avail)
        } else if starts_with(l, "MemAvailable:"@) {
            (total, first_u64_or_zero(l.subrange(13, l.len() as int)))
        } else {
            (total, avail)
        };
        if t > 0 && a > 0 {
            (t, a)
        } else {
            meminfo_scan(ls.drop_first(), t, a)
        }
    }
}

fn first_u64_or_zero_exec(rest: &Vec<char>) -> (r: u64)
    ensures
        r == first_u64_or_zero(rest@),
{
    let ws = split_words(rest);
    if ws.len() > 0 {
        assert(views(ws@)[0] == ws@[0]@);
        match parse_u64(&ws[0]) {
            Some(v) => v,
            None => 0,
        }
    } else {
        0
    }
}

/// `(MemTotal, MemAvailable)` in kB from the text of `/proc/meminfo`.
pub fn parse_meminfo(meminfo: &str) -> (r: (u64, u64))
    ensures
        r.0 == meminfo_scan(lines(meminfo@), 0, 0).0,
        r.1 == meminfo_scan(lines(meminfo@), 0, 0).1,
{
    let ls = split_lines(&chars_of(meminfo));
    let p_total = chars_of("MemTotal:");
    let p_avail = chars_of("MemAvailable:");
    proof {
        reveal_strlit("MemTotal:");
        reveal_strlit("MemAvailable:");
        assert(views(ls@).skip(0) =~= views(ls@));
    }
    let mut total: u64 = 0;
    let mut avail: u64 = 0;
    let mut i: usize = 0;
    while i < ls.len()
        invariant
            i <= ls.len(),
            views(ls@) == lines(meminfo@),
            p_total@ == "MemTotal:"@,
            p_avail@ == "MemAvailable:"@,
            "MemTotal:"@.len() == 9,
            "MemAvailable:"@.len() == 13,
            meminfo_scan(lines(meminfo@), 0, 0) == meminfo_scan(
                views(ls@).skip(i as int),
                total as nat,
                avail as nat,
            ),
        decreases ls.len() - i,
    {
        let ghost rest = views(ls@).skip(i as int);
        proof {
            assert(rest[0] == ls@[i as int]@);
            assert(rest.drop_first() =~= views(ls@).skip(i + 1));
        }
        match strip_prefix(&ls[i], &p_total) {
            Some(tail) => {
                total = first_u64_or_zero_exec(&tail);
            },
            None => {
                match strip_prefix(&ls[i], &p_avail) {
                    Some(tail) => {
                        avail = first_u64_or_zero_exec(&tail);
                    },
                    None => {},
                }
            },
        }
        if total > 0 && avail > 0 {
            return (total, avail);
        }
        i = i + 1;
    }
    proof {
        assert(views(ls@).skip(i as int) =~= Seq::<Seq<char>>::empty());
    }
    (total, avail)
}

/// Memory in use as a rounded percentage: `(total - available) / total`;
/// 0 when the total is unknown.
pub fn mem_used_percent(total: u64, available: u64) -> (r: u32)
    requires
        total > 0 ==> available <= total,
    ensures
        r == percent_rounded(if total == 0 {
            0
        } else {
            total - available
        }, total as int),
{
    if total == 0 {
        return 0;
    }
    percent_of(total - available, total)
}

/// Memory colours: red from 90 %, orange from 75 %, plain below; on the
/// exact ratio of used to total memory. An unknown total reads as 0 %.
pub open spec fn mem_band_spec(used: int, total: int) -> Band {
    if total == 0 {
        Band::Norm
    } else if 100 * used >= 90 * total {
        Band::Crit
    } else if 100 * used >= 75 * total {
        Band::Warn
    } else {
        Band::Norm
    }
}

/// Memory bands by share in use: critical from 90 %, warning from 75 %,
/// normal below and when the total is unknown. More memory in use out of
/// the same total never gives a lower band.
pub proof fn law_mem_bands(used: int, more: int, total: int)
    requires
        0 <= used <= more <= total,
    ensures
        total == 0 ==> mem_band_spec(used, total) == Band::Norm,
        total > 0 && 100 * used >= 90 * total ==> mem_band_spec(used, total) == Band::Crit,
        total > 0 && 75 * total <= 100 * used < 90 * total ==> mem_band_spec(used, total) == Band::Warn,
        total > 0 && 100 * used < 75 * total ==> mem_band_spec(used, total) == Band::Norm,
        band_rank(mem_band_spec(used, total)) <= band_rank(mem_band_spec(more, total)),
{
}

pub fn mem_band(used: u64, total: u64) -> (r: Band)
    ensures
        r == mem_band_spec(used as int, total as int),
{
    let u = used as u128;
    let t = total as u128;
    if t == 0 {
        Band::Norm
    } else if 100 * u >= 90 * t {
        Band::Crit
    } else if 100 * u >= 75 * t {
        Band::Warn
    } else {
        Band::Norm
    }
}

// ── CPU temperature ─────────────────────────────────────────────────────

/// Integer division rounding toward zero, as Rust's `/` on integers.
pub open spec fn trunc_div(a: int, b: int) -> int {
    if a >= 0 {
        a / b
    } else {
        -((-a) / b)
    }
}

/// `(millideg / 1000) as u32` for a millidegree reading.
pub open spec fn celsius_of(millideg: int) -> u32 {
    (trunc_div(millideg, 1000) % 0x1_0000_0000) as u32
}

/// Degrees Celsius from a hwmon/thermal `temp` file: the trimmed text
/// parsed as `i64` millidegrees, divided by 1000 toward zero and cast to
/// `u32` (wrapping, as `as` does); `None` when the text does not parse.
pub fn celsius_from_millideg(text: &str) -> (r: Option<u32>)
    ensures
        match parse_i64_spec(trim(text@)) {
            Some(m) => r == Some(celsius_of(m)),
            None => r is None,
        },
{
    let t = trimmed(&chars_of(text));
    let m = match parse_i64(&t) {
        Some(m) => m,
        None => return None,
    };
    let mag: u64 = if m >= 0 {
        m as u64
    } else {
        ((-(m + 1)) as u64) + 1
    };
    let q = mag / 1000;
    let low = q % 0x1_0000_0000;
    if m >= 0 {
        Some(low as u32)
    } else {
        let r = (0x1_0000_0000 - low) % 0x1_0000_0000;
        proof {
            assert(mag as int == -(m as int));
            assert(trunc_div(m as int, 1000) == -(q as int));
            assert((-(q as int)) % 0x1_0000_0000 == r) by (nonlinear_arith)
                requires
                    low == q % 0x1_0000_0000,
                    r == (0x1_0000_0000 - low) % 0x1_0000_0000,
                    q >= 0,
            ;
        }
        Some(r as u32)
    }
}

/// Temperature colours of the capsule bar.
#[derive(Clone, Copy, Debug, PartialEq, Eq, Structural)]
pub enum TempColor {
    Red,
    Orange,
    Yellow,
    Fg,
}

/// Red from 88 °C, orange from 75 °C, yellow from 62 °C.
pub fn temp_color(celsius: u32) -> (r: TempColor)
    ensures
        celsius >= 88 ==> r == TempColor::Red,
        75 <= celsius < 88 ==> r == TempColor::Orange,
        62 <= celsius < 75 ==> r == TempColor::Yellow,
        celsius < 62 ==> r == TempColor::Fg,
{
    if celsius >= 88 {
        TempColor::Red
    } else if celsius >= 75 {
        TempColor::Orange
    } else if celsius >= 62 {
        TempColor::Yellow
    } else {
        TempColor::Fg
    }
}

/// The panel bar's three temperature classes, on the rounded reading: hot
/// from 88 °C, warm from 62 °C (the 62–74 and 75–87 °C tiers share it),
/// cool below.
pub fn temp_class(celsius: i32) -> (r: &'static str)
    ensures
        celsius >= 88 ==> r@ == "cpu-temp-hot"@,
        62 <= celsius < 88 ==> r@ == "cpu-temp-warm"@,
        celsius < 62 ==> r@ == "cpu-temp-cool"@,
{
    if celsius >= 88 {
        "cpu-temp-hot"
    } else if celsius >= 62 {
        "cpu-temp-warm"
    } else {
        "cpu-temp-cool"
    }
}

/// The hwmon labels tried, in order, for each CPU package sensor driver.
pub open spec fn temp_labels_spec(driver: Seq<char>) -> Option<Seq<Seq<char>>> {
    if driver == "coretemp"@ {
        Some(seq!["Package id 0"@])
    } else if driver == "k10temp"@ {
        Some(seq!["Tctl"@, "Tdie"@])
    } else if driver == "macsmc"@ {
        Some(seq!["Heatpipe Temp"@, "Charge Regulator Temp"@])
    } else {
        None
    }
}

/// The hwmon labels tried, in order, for a driver name; `None` for drivers
/// that are not CPU package sensors. After the labels, `temp1_input` is
/// the fallback for every known driver.
pub fn temp_labels_for(driver: &str) -> (r: Option<Vec<&'static str>>)
    ensures
        match temp_labels_spec(driver@) {
            Some(ls) => r is Some && r->0@.map_values(|s: &'static str| s@) == ls,
            None => r is None,
        },
{
    let d = chars_of(driver);
    if eq_chars(&d, &chars_of("coretemp")) {
        let mut v: Vec<&'static str> = Vec::new();
        v.push("Package id 0");
        assert(v@.map_values(|s: &'static str| s@) =~= seq!["Package id 0"@]);
        Some(v)
    } else if eq_chars(&d, &chars_of("k10temp")) {
        let mut v: Vec<&'static str> = Vec::new();
        v.push("Tctl");
        v.push("Tdie");
        assert(v@.map_values(|s: &'static str| s@) =~= seq!["Tctl"@, "Tdie"@]);
        Some(v)
    } else if eq_chars(&d, &chars_of("macsmc")) {
        let mut v: Vec<&'static str> = Vec::new();
        v.push("Heatpipe Temp");
        v.push("Charge Regulator Temp");
        assert(v@.map_values(|s: &'static str| s@) =~= seq!["Heatpipe Temp"@, "Charge Regulator Temp"@]);
        Some(v)
    } else {
        None
    }
}

/// Which `tempN_input` (1-based) carries the label `target`: the first
/// `N` in `1..=labels.len()` whose trimmed label equals `target` and whose
/// input file exists. `labels[N-1]` holds the label text (if readable) and
/// whether the input exists.
pub fn find_label_index(labels: &Vec<(Option<String>, bool)>, target: &str) -> (r: Option<usize>)
    ensures
        r matches Some(n) ==> 1 <= n <= labels@.len() && label_hit(labels@[n - 1], target@)
            && forall|j: int| 0 <= j < n - 1 ==> !label_hit(#[trigger] labels@[j], target@),
        r is None ==> forall|j: int| 0 <= j < labels@.len() ==> !label_hit(#[trigger] labels@[j], target@),
{
    let t = chars_of(target);
    let mut i: usize = 0;
    while i < labels.len()
        invariant
            i <= labels.len(),
            t@ == target@,
            forall|j: int| 0 <= j < i ==> !label_hit(#[trigger] labels@[j], target@),
        decreases labels.len() - i,
    {
        let hit = match &labels[i].0 {
            Some(l) => labels[i].1 && eq_chars(&trimmed(&chars_of(l.as_str())), &t),
            None => false,
        };
        if hit {
            return Some(i + 1);
        }
        i = i + 1;
    }
    None
}

pub open spec fn label_hit(e: (Option<String>, bool), target: Seq<char>) -> bool {
    e.1 && (e.0 matches Some(l) && trim(l@) == target)
}

// ── choosing the temperature source ─────────────────────────────────────

/// What probing one `/sys/class/hwmon` entry found: the text of its
/// `name` file, the label text (if readable) and whether the input exists
/// for `temp1` to `temp20`, and whether `temp1_input` exists.
#[derive(Clone, Debug, PartialEq, Eq)]
pub struct HwmonProbe {
    pub name: String,
    pub labels: Vec<(Option<String>, bool)>,
    pub temp1_input: bool,
}

/// What probing one `/sys/class/thermal` entry found: its file name, the
/// text of its `type` file, and whether its `temp` file exists.
#[derive(Clone, Debug, PartialEq, Eq)]
pub struct ZoneProbe {
    pub name: String,
    pub kind: String,
    pub has_temp: bool,
}

/// Where the temperature is read.
#[derive(Clone, Copy, Debug, PartialEq, Eq, Structural)]
pub enum TempSource {
    /// `tempN_input` (N counted from 1) of the `hwmon`-th hwmon entry.
    Hwmon { hwmon: usize, input: usize },
    /// The `temp` file of the `zone`-th thermal zone.
    ThermalZone { zone: usize },
}

/// The first position whose label matches `target`.
pub open spec fn first_label(labels: Seq<(Option<String>, bool)>, target: Seq<char>) -> Option<int> {
    if exists|j: int| 0 <= j < labels.len() && label_hit(#[trigger] labels[j], target) {
        Some(choose|j: int| 0 <= j < labels.len() && label_hit(#[trigger] labels[j], target) && forall|k: int| 0 <= k < j ==> !label_hit(#[trigger] labels[k], target))
    } else {
        None
    }
}

/// The input picked by the labels tried in order.
pub open spec fn pick_by_labels(labels: Seq<(Option<String>, bool)>, targets: Seq<Seq<char>>) -> Option<int>
    decreases targets.len(),
{
    if targets.len() == 0 {
        None
    } else {
        match first_label(labels, targets[0]) {
            Some(j) => Some(j + 1),
            None => pick_by_labels(labels, targets.drop_first()),
        }
    }
}

/// A known CPU sensor driver's input: by its labels, else `temp1_input`.
pub open spec fn hwmon_input(p: HwmonProbe) -> Option<int> {
    match temp_labels_spec(trim(p.name@)) {
        None => None,
        Some(ts) => match pick_by_labels(p.labels@, ts) {
            Some(n) => Some(n),
            None => if p.temp1_input { Some(1) } else { None },
        },
    }
}

pub open spec fn zone_ok(z: ZoneProbe, pkg_only: bool) -> bool {
    z.has_temp && (pkg_only ==> trim(z.kind@) == "x86_pkg_temp"@)
}

/// Zone `a` sorts before zone `b`: by name, then by position.
pub open spec fn zone_before(zs: Seq<ZoneProbe>, a: int, b: int) -> bool {
    crate::input::lex_lt(zs[a].name@, zs[b].name@) || (zs[a].name@ == zs[b].name@ && a < b)
}

/// Zone `i` is the first by name among the usable zones.
pub open spec fn first_zone(zs: Seq<ZoneProbe>, pkg_only: bool, i: int) -> bool {
    &&& 0 <= i < zs.len()
    &&& zone_ok(zs[i], pkg_only)
    &&& forall|j: int| 0 <= j < zs.len() && j != i && zone_ok(#[trigger] zs[j], pkg_only) ==> zone_before(zs, i, j)
}

fn first_zone_exec(zones: &Vec<ZoneProbe>, pkg_only: bool) -> (r: Option<usize>)
    ensures
        match r {
            Some(i) => first_zone(zones@, pkg_only, i as int),
            None => forall|j: int| 0 <= j < zones@.len() ==> !zone_ok(#[trigger] zones@[j], pkg_only),
        },
{
    let mut best: Option<usize> = None;
    for j in 0..zones.len()
        invariant
            match best {
                Some(b) => b < j && zone_ok(zones@[b as int], pkg_only) && forall|k: int|
                    0 <= k < j && k != b && zone_ok(#[trigger] zones@[k], pkg_only) ==> zone_before(zones@, b as int, k),
                None => forall|k: int| 0 <= k < j ==> !zone_ok(#[trigger] zones@[k], pkg_only),
            },
    {
        let z = &zones[j];
        let ok = z.has_temp && (!pkg_only || crate::text::trim_eq(z.kind.as_str(), "x86_pkg_temp"));
        if ok {
            match best {
                None => {
                    best = Some(j);
                },
                Some(b) => {
                    let zn = chars_of(z.name.as_str());
                    let bn = chars_of(zones[b].name.as_str());
                    if crate::input::lex_less(&zn, &bn) {
                        proof {
                            let nj = zones@[j as int].name@;
                            let nb = zones@[b as int].name@;
                            assert forall|k: int| 0 <= k < j + 1 && k != j && zone_ok(#[trigger] zones@[k], pkg_only) implies zone_before(zones@, j as int, k) by {
                                let nk = zones@[k].name@;
                                if k == b {
                                } else {
                                    assert(zone_before(zones@, b as int, k));
                                    if crate::input::lex_lt(nb, nk) {
                                        crate::input::lemma_lex_trans(nj, nb, nk);
                                    }
                                }
                            }
                        }
                        best = Some(j);
                    } else {
                        proof {
                            let nj = zones@[j as int].name@;
                            let nb = zones@[b as int].name@;
                            crate::input::lemma_lex_total(nb, nj);
                            assert(zone_before(zones@, b as int, j as int));
                        }
                    }
                },
            }
        }
    }
    best
}

/// The temperature source: the first hwmon entry of a known CPU sensor
/// driver that has an input (see `hwmon_input`); else the first thermal
/// zone by name of type `x86_pkg_temp` with a `temp` file; else the first
/// zone by name with a `temp` file.
pub fn detect_temp_source(hwmons: &Vec<HwmonProbe>, zones: &Vec<ZoneProbe>) -> (r: Option<TempSource>)
    ensures
        match r {
            Some(TempSource::Hwmon { hwmon, input }) => hwmon < hwmons@.len() && hwmon_input(hwmons@[hwmon as int])
                == Some(input as int) && forall|k: int| 0 <= k < hwmon ==> hwmon_input(#[trigger] hwmons@[k]) is None,
            Some(TempSource::ThermalZone { zone }) => (forall|k: int| 0 <= k < hwmons@.len() ==> hwmon_input(#[trigger] hwmons@[k]) is None)
                && (first_zone(zones@, true, zone as int) || ((forall|j: int| 0 <= j < zones@.len() ==> !zone_ok(#[trigger] zones@[j], true))
                && first_zone(zones@, false, zone as int))),
            None => (forall|k: int| 0 <= k < hwmons@.len() ==> hwmon_input(#[trigger] hwmons@[k]) is None)
                && forall|j: int| 0 <= j < zones@.len() ==> !zone_ok(#[trigger] zones@[j], false),
        },
{
    for i in 0..hwmons.len()
        invariant
            forall|k: int| 0 <= k < i ==> hwmon_input(#[trigger] hwmons@[k]) is None,
    {
        match hwmon_input_exec(&hwmons[i]) {
            Some(n) => {
                assert(hwmon_input(hwmons@[i as int]) == Some(n as int));
                return Some(TempSource::Hwmon { hwmon: i, input: n });
            },
            None => {},
        }
    }
    match first_zone_exec(zones, true) {
        Some(z) => Some(TempSource::ThermalZone { zone: z }),
        None => match first_zone_exec(zones, false) {
            Some(z) => Some(TempSource::ThermalZone { zone: z }),
            None => None,
        },
    }
}

proof fn lemma_first_label(labels: Seq<(Option<String>, bool)>, target: Seq<char>, j: int)
    requires
        0 <= j <= labels.len(),
        forall|k: int| 0 <= k < j ==> !label_hit(#[trigger] labels[k], target),
        j < labels.len() ==> label_hit(labels[j], target),
    ensures
        j == labels.len() ==> first_label(labels, target) is None,
        j < labels.len() ==> first_label(labels, target) == Some(j),
{
    if j < labels.len() {
        assert(label_hit(labels[j], target));
        let c = choose|c: int| 0 <= c < labels.len() && label_hit(#[trigger] labels[c], target) && forall|k: int| 0 <= k < c ==> !label_hit(#[trigger] labels[k], target);
        assert(0 <= j < labels.len() && label_hit(labels[j], target) && forall|k: int| 0 <= k < j ==> !label_hit(#[trigger] labels[k], target));
        if c < j {
        } else if c > j {
            assert(!label_hit(labels[j], target));
        }
    }
}

fn hwmon_input_exec(p: &HwmonProbe) -> (r: Option<usize>)
    ensures
        r matches Some(n) ==> hwmon_input(*p) == Some(n as int),
        r is None ==> hwmon_input(*p) is None,
{
    let name = crate::text::string_of(&trimmed(&chars_of(p.name.as_str())));
    let targets = match temp_labels_for(name.as_str()) {
        Some(ts) => ts,
        None => return None,
    };
    let ghost ts = targets@.map_values(|s: &'static str| s@);
    assert(temp_labels_spec(trim(p.name@)) == Some(ts));
    let mut k: usize = 0;
    assert(ts.skip(0) =~= ts);
    while k < targets.len()
        invariant
            k <= targets@.len(),
            ts == targets@.map_values(|s: &'static str| s@),
            temp_labels_spec(trim(p.name@)) == Some(ts),
            pick_by_labels(p.labels@, ts) == pick_by_labels(p.labels@, ts.skip(k as int)),
        decreases targets@.len() - k,
    {
        let ghost rest = ts.skip(k as int);
        assert(rest[0] == targets@[k as int]@);
        assert(rest.drop_first() =~= ts.skip(k + 1));
        match find_label_index(&p.labels, targets[k]) {
            Some(n) => {
                proof {
                    lemma_first_label(p.labels@, targets@[k as int]@, n - 1);
                    assert(first_label(p.labels@, rest[0]) == Some(n - 1));
                    assert(pick_by_labels(p.labels@, rest) == Some(n as int));
                    assert(pick_by_labels(p.labels@, ts) == Some(n as int));
                    assert(temp_labels_spec(trim(p.name@)) == Some(ts));
                    assert(hwmon_input(*p) == Some(n as int));
                }
                return Some(n);
            },
            None => {
                proof {
                    lemma_first_label(p.labels@, targets@[k as int]@, p.labels@.len() as int);
                }
            },
        }
        k = k + 1;
    }
    assert(ts.skip(k as int) =~= Seq::<Seq<char>>::empty());
    if p.temp1_input {
        Some(1)
    } else {
        None
    }
}

/// `format!("{}°C", celsius)`.
pub open spec fn celsius_text(c: int) -> Seq<char> {
    (if c < 0 { seq!['-'] + dec((-c) as nat) } else { dec(c as nat) }) + "°C"@
}

pub fn celsius_label(celsius: i32) -> (r: String)
    ensures
        r@ == celsius_text(celsius as int),
{
    let mut s = String::new();
    if celsius < 0 {
        crate::text::push_char(&mut s, '-');
        let m: u64 = (-(celsius as i64)) as u64;
        crate::text::push_dec(&mut s, m);
    } else {
        crate::text::push_dec(&mut s, celsius as u64);
    }
    s.append("°C");
    proof {
        if celsius < 0 {
            assert(s@ =~= (seq!['-'] + dec((-celsius) as nat)) + "°C"@);
        }
    }
    s
}

} // verus!
