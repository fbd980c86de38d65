//! Power draw: which sources the machine has (system battery, RAPL energy
//! domains, a GPU with hwmon power or energy files), the integer
//! arithmetic on the energy counters, and the segments the widget shows.

use vstd::prelude::*;

use crate::text::{
    chars_of, contains, has_prefix, has_substring, lines, parse_u64, parse_unsigned, split_lines,
    starts_with, str_ends_with, str_starts_with, trim, trim_eq, trimmed, views, ends_with,
};

verus! {

// ── CPU vendor ──────────────────────────────────────────────────────────

#[derive(Clone, Copy, Debug, PartialEq, Eq, Structural)]
pub enum CpuVendor {
    Intel,
    Amd,
    Apple,
    Unknown,
}

/// What a `/proc/cpuinfo` line decides: a `vendor_id` line naming Intel or
/// AMD; other lines decide nothing.
pub open spec fn vendor_of_line(line: Seq<char>) -> Option<CpuVendor> {
    if starts_with(line, "vendor_id"@) {
        if contains(line, "GenuineIntel"@) {
            Some(CpuVendor::Intel)
        } else if contains(line, "AuthenticAMD"@) {
            Some(CpuVendor::Amd)
        } else {
            None
        }
    } else {
        None
    }
}

/// A `vendor_id` line names Intel when it mentions `GenuineIntel`, else
/// AMD when it mentions `AuthenticAMD`; no other line decides anything.
pub proof fn law_vendor_lines(line: Seq<char>)
    ensures
        !starts_with(line, "vendor_id"@) ==> vendor_of_line(line) is None,
        starts_with(line, "vendor_id"@) && contains(line, "GenuineIntel"@) ==> vendor_of_line(line)
            == Some(CpuVendor::Intel),
        starts_with(line, "vendor_id"@) && !contains(line, "GenuineIntel"@) && contains(line, "AuthenticAMD"@)
            ==> vendor_of_line(line) == Some(CpuVendor::Amd),
        starts_with(line, "vendor_id"@) && !contains(line, "GenuineIntel"@) && !contains(line, "AuthenticAMD"@)
            ==> vendor_of_line(line) is None,
{
}

/// The verdict of the first deciding line.
pub open spec fn first_vendor(ls: Seq<Seq<char>>) -> Option<CpuVendor>
    decreases ls.len(),
{
    if ls.len() == 0 {
        None
    } else {
        match vendor_of_line(ls[0]) {
            Some(v) => Some(v),
            None => first_vendor(ls.drop_first()),
        }
    }
}

/// Intel or AMD from the first `vendor_id` line that names one; otherwise
/// Apple when the Apple battery exists or the text mentions `Apple`;
/// otherwise unknown.
pub open spec fn cpu_vendor_of(cpuinfo: Seq<char>, apple_battery: bool) -> CpuVendor {
    match first_vendor(lines(cpuinfo)) {
        Some(v) => v,
        None => if apple_battery || contains(cpuinfo, "Apple"@) {
            CpuVendor::Apple
        } else {
            CpuVendor::Unknown
        },
    }
}

/// The CPU vendor from the text of `/proc/cpuinfo` and whether
/// `/sys/class/power_supply/macsmc-battery` exists.
pub fn detect_cpu_vendor(cpuinfo: &str, apple_battery: bool) -> (r: CpuVendor)
    ensures
        r == cpu_vendor_of(cpuinfo@, apple_battery),
{
    let text = chars_of(cpuinfo);
    let ls = split_lines(&text);
    let key = chars_of("vendor_id");
    let intel = chars_of("GenuineIntel");
    let amd = chars_of("AuthenticAMD");
    let mut i: usize = 0;
    proof {
        assert(views(ls@).skip(0) =~= views(ls@));
    }
    while i < ls.len()
        invariant
            i <= ls.len(),
            views(ls@) == lines(cpuinfo@),
            key@ == "vendor_id"@,
            intel@ == "GenuineIntel"@,
            amd@ == "AuthenticAMD"@,
            first_vendor(lines(cpuinfo@)) == first_vendor(views(ls@).skip(i as int)),
        decreases ls.len() - i,
    {
        let ghost rest = views(ls@).skip(i as int);
        proof {
            assert(rest[0] == ls@[i as int]@);
            assert(rest.drop_first() =~= views(ls@).skip(i + 1));
        }
        if has_prefix(&ls[i], &key) {
            if has_substring(&ls[i], &intel) {
                return CpuVendor::Intel;
            } else if has_substring(&ls[i], &amd) {
                return CpuVendor::Amd;
            }
        }
        i = i + 1;
    }
    proof {
        assert(views(ls@).skip(i as int) =~= Seq::<Seq<char>>::empty());
    }
    if apple_battery || has_substring(&text, &chars_of("Apple")) {
        CpuVendor::Apple
    } else {
        CpuVendor::Unknown
    }
}

/// The icon file of a CPU vendor; none for an unknown vendor, which is
/// labelled `CPU` instead.
pub fn cpu_vendor_icon(v: CpuVendor) -> (r: Option<&'static str>)
    ensures
        v == CpuVendor::Amd ==> r == Some("amd-cpu.svg"),
        v == CpuVendor::Intel ==> r == Some("intel-cpu.svg"),
        v == CpuVendor::Apple ==> r == Some("apple-chip.svg"),
        v == CpuVendor::Unknown ==> r is None,
{
    match v {
        CpuVendor::Amd => Some("amd-cpu.svg"),
        CpuVendor::Intel => Some("intel-cpu.svg"),
        CpuVendor::Apple => Some("apple-chip.svg"),
        CpuVendor::Unknown => None,
    }
}

// ── sysfs values ────────────────────────────────────────────────────────

/// A sysfs file's value as `u64`: the trimmed text parsed.
pub fn sysfs_u64_value(text: &str) -> (r: Option<u64>)
    ensures
        match parse_unsigned(trim(text@), u64::MAX as nat) {
            Some(v) => r == Some(v as u64),
            None => r is None,
        },
{
    parse_u64(&trimmed(&chars_of(text)))
}

// ── battery ─────────────────────────────────────────────────────────────

/// A system battery reports `power_now`, or both `current_now` and
/// `voltage_now` (peripheral batteries, such as a mouse's, do not).
pub fn is_system_battery(power_now: bool, current_now: bool, voltage_now: bool) -> (r: bool)
    ensures
        r == (power_now || (current_now && voltage_now)),
{
    power_now || (current_now && voltage_now)
}

/// The names under `/sys/class/power_supply` tried first, in order.
pub fn known_battery_names() -> (r: Vec<&'static str>)
    ensures
        r@.len() == 3,
        r@[0] == "BAT0",
        r@[1] == "BAT1",
        r@[2] == "macsmc-battery",
{
    let mut v: Vec<&'static str> = Vec::new();
    v.push("BAT0");
    v.push("BAT1");
    v.push("macsmc-battery");
    v
}

/// Where the battery was found.
#[derive(Clone, Copy, Debug, PartialEq, Eq, Structural)]
pub enum BatterySource {
    /// The `i`-th of `known_battery_names`.
    Known(usize),
    /// The `i`-th scanned entry of `/sys/class/power_supply`.
    Scanned(usize),
}

/// A scanned power-supply entry is the battery when its `type` file reads
/// `Battery` and it is a system battery.
pub open spec fn scanned_battery(e: (String, bool)) -> bool {
    trim(e.0@) == "Battery"@ && e.1
}

/// The battery to report: the first known name that exists as a system
/// battery (`known[i]`), else the first scanned entry whose `type` text
/// (`scanned[i].0`) is `Battery` and that is a system battery
/// (`scanned[i].1`).
pub fn detect_battery(known: &Vec<bool>, scanned: &Vec<(String, bool)>) -> (r: Option<BatterySource>)
    ensures
        match r {
            Some(BatterySource::Known(i)) => i < known@.len() && known@[i as int] && forall|j: int|
                0 <= j < i ==> !#[trigger] known@[j],
            Some(BatterySource::Scanned(i)) => (forall|j: int| 0 <= j < known@.len() ==> !#[trigger] known@[j])
                && i < scanned@.len() && scanned_battery(scanned@[i as int]) && forall|j: int|
                0 <= j < i ==> !scanned_battery(#[trigger] scanned@[j]),
            None => (forall|j: int| 0 <= j < known@.len() ==> !#[trigger] known@[j]) && forall|j: int|
                0 <= j < scanned@.len() ==> !scanned_battery(#[trigger] scanned@[j]),
        },
{
    for i in 0..known.len()
        invariant
            forall|j: int| 0 <= j < i ==> !#[trigger] known@[j],
    {
        if known[i] {
            return Some(BatterySource::Known(i));
        }
    }
    for i in 0..scanned.len()
        invariant
            forall|j: int| 0 <= j < known@.len() ==> !#[trigger] known@[j],
            forall|j: int| 0 <= j < i ==> !scanned_battery(#[trigger] scanned@[j]),
    {
        if scanned[i].1 && trim_eq(scanned[i].0.as_str(), "Battery") {
            return Some(BatterySource::Scanned(i));
        }
    }
    None
}

/// Whether the battery charges: its `status` file reads `Charging`.
pub fn is_charging(status: &str) -> (r: bool)
    ensures
        r == (trim(status@) == "Charging"@),
{
    trim_eq(status, "Charging")
}

/// Battery power in picowatts: `power_now` (µW) when it reads, else
/// `current_now` (µA) times `voltage_now` (µV) when both read, else 0.
pub open spec fn battery_power_pw_spec(power_now: Option<u64>, current_now: Option<u64>, voltage_now: Option<u64>) -> int {
    match power_now {
        Some(uw) => uw * 1_000_000,
        None => match (current_now, voltage_now) {
            (Some(ua), Some(uv)) => ua * uv,
            _ => 0,
        },
    }
}

pub fn battery_power_pw(power_now: Option<u64>, current_now: Option<u64>, voltage_now: Option<u64>) -> (r: u128)
    ensures
        r == battery_power_pw_spec(power_now, current_now, voltage_now),
{
    match power_now {
        Some(uw) => uw as u128 * 1_000_000,
        None => match (current_now, voltage_now) {
            (Some(ua), Some(uv)) => {
                proof {
                    assert(ua * uv <= 0xffff_ffff_ffff_ffff * 0xffff_ffff_ffff_ffff) by (nonlinear_arith)
                        requires
                            ua <= 0xffff_ffff_ffff_ffff,
                            uv <= 0xffff_ffff_ffff_ffff,
                    ;
                }
                ua as u128 * uv as u128
            },
            _ => 0,
        },
    }
}

// ── RAPL energy domains ─────────────────────────────────────────────────

/// The `/sys/class/powercap` entries that are RAPL domains (sub-domains
/// are top-level entries too).
pub fn is_rapl_entry(name: &str) -> (r: bool)
    ensures
        r == (starts_with(name@, "intel-rapl:"@) || starts_with(name@, "intel-rapl-mmio:"@)),
{
    str_starts_with(name, "intel-rapl:") || str_starts_with(name, "intel-rapl-mmio:")
}

#[derive(Clone, Copy, Debug, PartialEq, Eq, Structural)]
pub enum RaplKind {
    /// A CPU package domain.
    Package,
    /// The whole-platform (PSYS) domain.
    Psys,
}

/// The kind of a domain from the trimmed text of its `name` file.
pub open spec fn rapl_kind_of(name: Seq<char>) -> Option<RaplKind> {
    let n = trim(name);
    if starts_with(n, "package"@) {
        Some(RaplKind::Package)
    } else if starts_with(n, "psys"@) || starts_with(n, "platform"@) {
        Some(RaplKind::Psys)
    } else {
        None
    }
}

/// A RAPL domain whose name (trimmed) starts with `package` is a CPU
/// package; one starting with `psys` or `platform` is the platform
/// domain; other domains are not read.
pub proof fn law_rapl_names(name: Seq<char>)
    ensures
        starts_with(trim(name), "package"@) ==> rapl_kind_of(name) == Some(RaplKind::Package),
        !starts_with(trim(name), "package"@) && (starts_with(trim(name), "psys"@) || starts_with(
            trim(name),
            "platform"@,
        )) ==> rapl_kind_of(name) == Some(RaplKind::Psys),
        !starts_with(trim(name), "package"@) && !starts_with(trim(name), "psys"@) && !starts_with(
            trim(name),
            "platform"@,
        ) ==> rapl_kind_of(name) is None,
{
}

pub fn rapl_kind(name: &str) -> (r: Option<RaplKind>)
    ensures
        r == rapl_kind_of(name@),
{
    let t = string_of_trimmed(name);
    if str_starts_with(t.as_str(), "package") {
        Some(RaplKind::Package)
    } else if str_starts_with(t.as_str(), "psys") || str_starts_with(t.as_str(), "platform") {
        Some(RaplKind::Psys)
    } else {
        None
    }
}

fn string_of_trimmed(s: &str) -> (r: String)
    ensures
        r@ == trim(s@),
{
    crate::text::string_of(&trimmed(&chars_of(s)))
}

/// What the probe of one `/sys/class/powercap` entry found.
#[derive(Clone, Debug, PartialEq, Eq)]
pub struct RaplEntry {
    /// The entry's file name.
    pub name: String,
    /// `energy_uj` exists.
    pub energy_exists: bool,
    /// `energy_uj` can be read.
    pub energy_readable: bool,
    /// The text of the domain's `name` file (empty when unreadable).
    pub domain_name: String,
    /// The text of `max_energy_range_uj`, when it could be read.
    pub max_range: Option<String>,
}

/// A domain whose energy counter is sampled: the entry it came from and
/// the counter's wrap-around range (`u64::MAX` when unknown).
#[derive(Clone, Copy, Debug, PartialEq, Eq, Structural)]
pub struct RaplDomain {
    pub entry: usize,
    pub max_uj: u64,
}

/// The counter range from the text of `max_energy_range_uj`.
pub open spec fn max_range_of(text: Option<String>) -> u64 {
    match text {
        Some(t) => match parse_unsigned(trim(t@), u64::MAX as nat) {
            Some(v) => v as u64,
            None => u64::MAX,
        },
        None => u64::MAX,
    }
}

/// An entry is a domain of kind `k` when it is a RAPL entry whose energy
/// counter exists and reads and whose name gives kind `k`.
pub open spec fn rapl_entry_kind(e: RaplEntry, k: RaplKind) -> bool {
    &&& starts_with(e.name@, "intel-rapl:"@) || starts_with(e.name@, "intel-rapl-mmio:"@)
    &&& e.energy_exists
    &&& e.energy_readable
    &&& rapl_kind_of(e.domain_name@) == Some(k)
}

/// The domains of kind `k`, in the order of the entries.
pub open spec fn rapl_domains(es: Seq<RaplEntry>, k: RaplKind) -> Seq<RaplDomain>
    decreases es.len(),
{
    if es.len() == 0 {
        Seq::<RaplDomain>::empty()
    } else {
        let rest = rapl_domains(es.drop_last(), k);
        if rapl_entry_kind(es.last(), k) {
            rest.push(RaplDomain { entry: (es.len() - 1) as usize, max_uj: max_range_of(es.last().max_range) })
        } else {
            rest
        }
    }
}

fn max_range(text: &Option<String>) -> (r: u64)
    ensures
        r == max_range_of(*text),
{
    match text {
        Some(t) => match sysfs_u64_value(t.as_str()) {
            Some(v) => v,
            None => u64::MAX,
        },
        None => u64::MAX,
    }
}

/// The package and the PSYS domains among the powercap entries.
pub fn detect_rapl(entries: &Vec<RaplEntry>) -> (r: (Vec<RaplDomain>, Vec<RaplDomain>))
    ensures
        r.0@ == rapl_domains(entries@, RaplKind::Package),
        r.1@ == rapl_domains(entries@, RaplKind::Psys),
{
    let mut pkg: Vec<RaplDomain> = Vec::new();
    let mut psys: Vec<RaplDomain> = Vec::new();
    for i in 0..entries.len()
        invariant
            pkg@ == rapl_domains(entries@.take(i as int), RaplKind::Package),
            psys@ == rapl_domains(entries@.take(i as int), RaplKind::Psys),
    {
        proof {
            assert(entries@.take(i + 1).drop_last() =~= entries@.take(i as int));
            assert(entries@.take(i + 1).last() == entries@[i as int]);
        }
        let e = &entries[i];
        if is_rapl_entry(e.name.as_str()) && e.energy_exists && e.energy_readable {
            match rapl_kind(e.domain_name.as_str()) {
                Some(RaplKind::Package) => {
                    pkg.push(RaplDomain { entry: i, max_uj: max_range(&e.max_range) });
                },
                Some(RaplKind::Psys) => {
                    psys.push(RaplDomain { entry: i, max_uj: max_range(&e.max_range) });
                },
                None => {},
            }
        }
    }
    proof {
        assert(entries@.take(entries@.len() as int) =~= entries@);
    }
    (pkg, psys)
}

// ── energy counters ─────────────────────────────────────────────────────

/// Energy used between two readings of a counter that wraps at `max`.
pub open spec fn energy_delta_spec(cur: int, prev: int, max: int) -> int {
    if cur >= prev {
        cur - prev
    } else {
        cur + (max - prev)
    }
}

pub fn energy_delta(cur: u64, prev: u64, max: u64) -> (r: u64)
    requires
        cur < prev ==> prev <= max,
    ensures
        r == energy_delta_spec(cur as int, prev as int, max as int),
{
    if cur >= prev {
        cur - prev
    } else {
        cur + (max - prev)
    }
}

/// The readings of one counter in two snapshots, and whether the pair
/// can be used (both read, and a wrapped counter's earlier reading within
/// its range).
pub open spec fn pair_ok(cur: Option<u64>, prev: Option<u64>, max: u64) -> bool {
    match (cur, prev) {
        (Some(c), Some(p)) => c < p ==> p <= max,
        _ => true,
    }
}

/// Total energy in µJ used by the domains between two snapshots: the sum
/// of the deltas of the counters read in both.
pub open spec fn energy_total(ds: Seq<RaplDomain>, cur: Seq<Option<u64>>, prev: Seq<Option<u64>>) -> int
    decreases ds.len(),
{
    if ds.len() == 0 {
        0
    } else {
        let n = ds.len() - 1;
        energy_total(ds.drop_last(), cur.take(n), prev.take(n)) + match (cur[n], prev[n]) {
            (Some(c), Some(p)) => energy_delta_spec(c as int, p as int, ds[n].max_uj as int),
            _ => 0,
        }
    }
}

/// Energy used by `domains` between the snapshots `prev` and `cur`, which
/// hold each domain's counter reading (`None` when it could not be read).
pub fn domains_energy_uj(domains: &Vec<RaplDomain>, cur: &Vec<Option<u64>>, prev: &Vec<Option<u64>>) -> (r: u128)
    requires
        cur@.len() == domains@.len(),
        prev@.len() == domains@.len(),
        forall|i: int| 0 <= i < domains@.len() ==> pair_ok(#[trigger] cur@[i], prev@[i], domains@[i].max_uj),
    ensures
        r == energy_total(domains@, cur@, prev@),
{
    let mut total: u128 = 0;
    for i in 0..domains.len()
        invariant
            cur@.len() == domains@.len(),
            prev@.len() == domains@.len(),
            forall|j: int| 0 <= j < domains@.len() ==> pair_ok(#[trigger] cur@[j], prev@[j], domains@[j].max_uj),
            total == energy_total(domains@.take(i as int), cur@.take(i as int), prev@.take(i as int)),
            total <= i * 0xffff_ffff_ffff_ffff,
    {
        proof {
            assert(domains@.take(i + 1).drop_last() =~= domains@.take(i as int));
            assert(cur@.take(i + 1).take(i as int) =~= cur@.take(i as int));
            assert(prev@.take(i + 1).take(i as int) =~= prev@.take(i as int));
            assert(cur@.take(i + 1)[i as int] == cur@[i as int]);
            assert(prev@.take(i + 1)[i as int] == prev@[i as int]);
            assert(pair_ok(cur@[i as int], prev@[i as int], domains@[i as int].max_uj));
        }
        match (cur[i], prev[i]) {
            (Some(c), Some(p)) => {
                let d = energy_delta(c, p, domains[i].max_uj);
                total = total + d as u128;
            },
            _ => {},
        }
    }
    proof {
        assert(domains@.take(domains@.len() as int) =~= domains@);
        assert(cur@.take(domains@.len() as int) =~= cur@);
        assert(prev@.take(domains@.len() as int) =~= prev@);
    }
    total
}

// ── GPU ─────────────────────────────────────────────────────────────────

#[derive(Clone, Copy, Debug, PartialEq, Eq, Structural)]
pub enum GpuLabel {
    Nvidia,
    Amd,
    /// An Intel GPU on the integrated slot (`0000:00:02.x`).
    IGpu,
    /// Any other Intel GPU.
    Arc,
}

/// What a PCI display device is: its label, whether it is discrete, and
/// its rank (lower is preferred).
pub open spec fn gpu_kind_of(class: Seq<char>, vendor: Seq<char>, bus: Seq<char>) -> Option<(GpuLabel, bool, u32)> {
    if !starts_with(trim(class), "0x03"@) {
        None
    } else if trim(vendor) == "0x10de"@ {
        Some((GpuLabel::Nvidia, true, 1u32))
    } else if trim(vendor) == "0x1002"@ {
        Some((GpuLabel::Amd, true, 1u32))
    } else if trim(vendor) == "0x8086"@ && starts_with(bus, "0000:00:02."@) {
        Some((GpuLabel::IGpu, false, 4u32))
    } else if trim(vendor) == "0x8086"@ {
        Some((GpuLabel::Arc, true, 2u32))
    } else {
        None
    }
}

/// Only display controllers (class `0x03...`) are GPUs. NVIDIA
/// (`0x10de`) and AMD (`0x1002`) cards are discrete; an Intel (`0x8086`)
/// GPU on the integrated slot `0000:00:02.x` is the iGPU, any other Intel
/// GPU a discrete Arc card; other vendors are not read.
pub proof fn law_gpu_kinds(class: Seq<char>, vendor: Seq<char>, bus: Seq<char>)
    ensures
        !starts_with(trim(class), "0x03"@) ==> gpu_kind_of(class, vendor, bus) is None,
        starts_with(trim(class), "0x03"@) && trim(vendor) == "0x10de"@ ==> gpu_kind_of(class, vendor, bus)
            == Some((GpuLabel::Nvidia, true, 1u32)),
        starts_with(trim(class), "0x03"@) && trim(vendor) == "0x1002"@ ==> gpu_kind_of(class, vendor, bus)
            == Some((GpuLabel::Amd, true, 1u32)),
        starts_with(trim(class), "0x03"@) && trim(vendor) == "0x8086"@ && starts_with(bus, "0000:00:02."@)
            ==> gpu_kind_of(class, vendor, bus) == Some((GpuLabel::IGpu, false, 4u32)),
        starts_with(trim(class), "0x03"@) && trim(vendor) == "0x8086"@ && !starts_with(bus, "0000:00:02."@)
            ==> gpu_kind_of(class, vendor, bus) == Some((GpuLabel::Arc, true, 2u32)),
        starts_with(trim(class), "0x03"@) && trim(vendor) != "0x10de"@ && trim(vendor) != "0x1002"@ && trim(
            vendor,
        ) != "0x8086"@ ==> gpu_kind_of(class, vendor, bus) is None,
{
    reveal_strlit("0x10de");
    reveal_strlit("0x1002");
    reveal_strlit("0x8086");
    assert("0x10de"@[4] != "0x1002"@[4]);
    assert("0x10de"@[2] != "0x8086"@[2]);
    assert("0x1002"@[2] != "0x8086"@[2]);
}

/// Classifies a PCI device from the texts of its `class` and `vendor`
/// files and its bus address; `None` for devices that are not a GPU of a
/// known vendor.
pub fn gpu_kind(class: &str, vendor: &str, bus: &str) -> (r: Option<(GpuLabel, bool, u32)>)
    ensures
        r == gpu_kind_of(class@, vendor@, bus@),
{
    let c = string_of_trimmed(class);
    if !str_starts_with(c.as_str(), "0x03") {
        return None;
    }
    if trim_eq(vendor, "0x10de") {
        Some((GpuLabel::Nvidia, true, 1))
    } else if trim_eq(vendor, "0x1002") {
        Some((GpuLabel::Amd, true, 1))
    } else if trim_eq(vendor, "0x8086") && str_starts_with(bus, "0000:00:02.") {
        Some((GpuLabel::IGpu, false, 4))
    } else if trim_eq(vendor, "0x8086") {
        Some((GpuLabel::Arc, true, 2))
    } else {
        None
    }
}

/// A GPU's hwmon file that reports power: `power*_average` or
/// `power*_input`.
pub open spec fn is_power_file(name: Seq<char>) -> bool {
    starts_with(name, "power"@) && (ends_with(name, "_average"@) || ends_with(name, "_input"@))
}

/// A GPU's hwmon file that reports energy: `energy*_input`.
pub open spec fn is_energy_file(name: Seq<char>) -> bool {
    starts_with(name, "energy"@) && ends_with(name, "_input"@)
}

pub open spec fn first_index_where(files: Seq<(String, bool)>, power: bool, i: int) -> bool {
    &&& 0 <= i < files.len()
    &&& files[i].1
    &&& (if power { is_power_file(files[i].0@) } else { is_energy_file(files[i].0@) })
    &&& forall|j: int| 0 <= j < i ==> !(#[trigger] files[j].1 && (if power { is_power_file(files[j].0@) } else { is_energy_file(files[j].0@) }))
}

pub open spec fn none_where(files: Seq<(String, bool)>, power: bool) -> bool {
    forall|j: int| 0 <= j < files.len() ==> !(#[trigger] files[j].1 && (if power { is_power_file(files[j].0@) } else { is_energy_file(files[j].0@) }))
}

/// The power file and the energy file of a GPU: the first readable one of
/// each among the files of its hwmon directories, in scan order (each
/// entry is a file name and whether the file reads).
pub fn find_gpu_hwmon(files: &Vec<(String, bool)>) -> (r: (Option<usize>, Option<usize>))
    ensures
        match r.0 {
            Some(i) => first_index_where(files@, true, i as int),
            None => none_where(files@, true),
        },
        match r.1 {
            Some(i) => first_index_where(files@, false, i as int),
            None => none_where(files@, false),
        },
{
    let mut pf: Option<usize> = None;
    let mut ef: Option<usize> = None;
    for i in 0..files.len()
        invariant
            match pf {
                Some(k) => first_index_where(files@, true, k as int),
                None => forall|j: int| 0 <= j < i ==> !(#[trigger] files@[j].1 && is_power_file(files@[j].0@)),
            },
            match ef {
                Some(k) => first_index_where(files@, false, k as int),
                None => forall|j: int| 0 <= j < i ==> !(#[trigger] files@[j].1 && is_energy_file(files@[j].0@)),
            },
    {
        let name = files[i].0.as_str();
        let readable = files[i].1;
        if pf.is_none() && str_starts_with(name, "power") && (str_ends_with(name, "_average")
            || str_ends_with(name, "_input")) && readable {
            pf = Some(i);
        }
        if ef.is_none() && str_starts_with(name, "energy") && str_ends_with(name, "_input") && readable {
            ef = Some(i);
        }
    }
    (pf, ef)
}

/// The first index of the smallest rank among the devices that have one.
pub open spec fn first_min_rank(ranks: Seq<Option<u64>>, i: int) -> bool {
    &&& 0 <= i < ranks.len()
    &&& ranks[i] is Some
    &&& forall|j: int| 0 <= j < ranks.len() && #[trigger] ranks[j] is Some ==> ranks[i]->0 <= ranks[j]->0
    &&& forall|j: int| 0 <= j < i && #[trigger] ranks[j] is Some ==> ranks[i]->0 < ranks[j]->0
}

/// Picks the device with the lowest rank, the earliest on a tie; devices
/// without a rank are skipped.
pub fn pick_lowest_rank(ranks: &Vec<Option<u64>>) -> (r: Option<usize>)
    ensures
        match r {
            Some(i) => first_min_rank(ranks@, i as int),
            None => forall|j: int| 0 <= j < ranks@.len() ==> #[trigger] ranks@[j] is None,
        },
{
    let mut best: Option<usize> = None;
    for i in 0..ranks.len()
        invariant
            match best {
                Some(b) => b < i && ranks@[b as int] is Some && (forall|j: int|
                    0 <= j < i && #[trigger] ranks@[j] is Some ==> ranks@[b as int]->0 <= ranks@[j]->0)
                    && forall|j: int| 0 <= j < b && #[trigger] ranks@[j] is Some ==> ranks@[b as int]->0 < ranks@[j]->0,
                None => forall|j: int| 0 <= j < i ==> #[trigger] ranks@[j] is None,
            },
    {
        match ranks[i] {
            Some(r) => {
                let better = match best {
                    Some(b) => match ranks[b] {
                        Some(br) => r < br,
                        None => true,
                    },
                    None => true,
                };
                if better {
                    best = Some(i);
                }
            },
            None => {},
        }
    }
    best
}

/// What probing one PCI display device found.
#[derive(Clone, Copy, Debug, PartialEq, Eq, Structural)]
pub struct GpuProbe {
    pub label: GpuLabel,
    pub is_dgpu: bool,
    pub rank: u32,
    pub has_power_file: bool,
    pub has_energy_file: bool,
}

/// The rank a probed device competes with: none without a power or energy
/// file; one worse when only the energy file is there.
pub open spec fn probe_rank(p: GpuProbe) -> Option<u64> {
    if !p.has_power_file && !p.has_energy_file {
        None
    } else if p.has_power_file {
        Some(p.rank as u64)
    } else {
        Some((p.rank + 1) as u64)
    }
}

/// The GPU whose power the widget reports.
#[derive(Clone, Copy, Debug, PartialEq, Eq, Structural)]
pub struct GpuChoice {
    /// The probed device, or `None` for the NVIDIA driver found only
    /// through `/proc/driver/nvidia/gpus` (read with `nvidia-smi`).
    pub device: Option<usize>,
    pub label: GpuLabel,
    pub is_dgpu: bool,
}

/// Chooses the GPU among the probed devices (see `probe_rank`); without
/// one, the NVIDIA driver when `/proc/driver/nvidia/gpus` exists.
pub fn detect_gpu(probes: &Vec<GpuProbe>, nvidia_proc: bool) -> (r: Option<GpuChoice>)
    ensures
        match r {
            Some(GpuChoice { device: Some(i), label, is_dgpu }) => first_min_rank(
                probes@.map_values(|p: GpuProbe| probe_rank(p)),
                i as int,
            ) && label == probes@[i as int].label && is_dgpu == probes@[i as int].is_dgpu,
            Some(GpuChoice { device: None, label, is_dgpu }) => nvidia_proc && label == GpuLabel::Nvidia
                && is_dgpu && forall|j: int| 0 <= j < probes@.len() ==> probe_rank(#[trigger] probes@[j]) is None,
            None => !nvidia_proc && forall|j: int| 0 <= j < probes@.len() ==> probe_rank(#[trigger] probes@[j]) is None,
        },
{
    let mut ranks: Vec<Option<u64>> = Vec::new();
    for i in 0..probes.len()
        invariant
            ranks@ == probes@.take(i as int).map_values(|p: GpuProbe| probe_rank(p)),
    {
        let p = probes[i];
        let r = if !p.has_power_file && !p.has_energy_file {
            None
        } else if p.has_power_file {
            Some(p.rank as u64)
        } else {
            Some(p.rank as u64 + 1)
        };
        ranks.push(r);
        assert(probes@.take(i + 1).map_values(|p: GpuProbe| probe_rank(p)) =~= probes@.take(
            i as int,
        ).map_values(|p: GpuProbe| probe_rank(p)).push(probe_rank(probes@[i as int])));
    }
    assert(probes@.take(probes@.len() as int) =~= probes@);
    match pick_lowest_rank(&ranks) {
        Some(i) => Some(GpuChoice { device: Some(i), label: probes[i].label, is_dgpu: probes[i].is_dgpu }),
        None => {
            assert forall|j: int| 0 <= j < probes@.len() implies probe_rank(#[trigger] probes@[j]) is None by {
                assert(ranks@[j] is None);
            }
            if nvidia_proc {
                Some(GpuChoice { device: None, label: GpuLabel::Nvidia, is_dgpu: true })
            } else {
                None
            }
        },
    }
}

/// The icon file shown beside the GPU's watts; an integrated GPU has none
/// and is shown by its label.
pub fn gpu_icon(label: GpuLabel) -> (r: Option<&'static str>)
    ensures
        label == GpuLabel::Amd ==> r == Some("amd-radeon.svg"),
        label == GpuLabel::Nvidia ==> r == Some("nvidia-gpu.svg"),
        label == GpuLabel::Arc ==> r == Some("intel-arc-gpu.svg"),
        label == GpuLabel::IGpu ==> r is None,
{
    match label {
        GpuLabel::Amd => Some("amd-radeon.svg"),
        GpuLabel::Nvidia => Some("nvidia-gpu.svg"),
        GpuLabel::Arc => Some("intel-arc-gpu.svg"),
        GpuLabel::IGpu => None,
    }
}

/// The label text of a GPU.
pub fn gpu_label_text(label: GpuLabel) -> (r: &'static str)
    ensures
        label == GpuLabel::Amd ==> r == "AMD",
        label == GpuLabel::Nvidia ==> r == "NVIDIA",
        label == GpuLabel::Arc ==> r == "ARC",
        label == GpuLabel::IGpu ==> r == "iGPU",
{
    match label {
        GpuLabel::Amd => "AMD",
        GpuLabel::Nvidia => "NVIDIA",
        GpuLabel::Arc => "ARC",
        GpuLabel::IGpu => "iGPU",
    }
}

/// The GPU vendors the panel's GPU-draw widget has icons for.
#[derive(Clone, Copy, Debug, PartialEq, Eq, Structural)]
pub enum GpuVendor {
    Amd,
    Nvidia,
    Intel,
}

/// The vendor of the device the panel's GPU-draw widget shows: the lowest
/// rank among the classified devices, the earliest on a tie (no power file
/// is needed here); else NVIDIA when its driver is loaded.
pub fn detect_gpu_vendor(kinds: &Vec<Option<(GpuLabel, bool, u32)>>, nvidia_proc: bool) -> (r: Option<GpuVendor>)
    ensures
        ({
            let ranks = kinds@.map_values(|k: Option<(GpuLabel, bool, u32)>| kind_rank(k));
            match r {
                Some(v) => (exists|i: int| first_min_rank(ranks, i) && v == vendor_of_label(kind_label(kinds@[i])))
                    || (nvidia_proc && v == GpuVendor::Nvidia && forall|j: int| 0 <= j < kinds@.len() ==> #[trigger] kinds@[j] is None),
                None => !nvidia_proc && forall|j: int| 0 <= j < kinds@.len() ==> #[trigger] kinds@[j] is None,
            }
        }),
{
    let mut ranks: Vec<Option<u64>> = Vec::new();
    for i in 0..kinds.len()
        invariant
            ranks@ == kinds@.take(i as int).map_values(|k: Option<(GpuLabel, bool, u32)>| kind_rank(k)),
    {
        let r = match kinds[i] {
            Some(t) => Some(t.2 as u64),
            None => None,
        };
        ranks.push(r);
        assert(kinds@.take(i + 1).map_values(|k: Option<(GpuLabel, bool, u32)>| kind_rank(k)) =~= kinds@.take(
            i as int,
        ).map_values(|k: Option<(GpuLabel, bool, u32)>| kind_rank(k)).push(kind_rank(kinds@[i as int])));
    }
    assert(kinds@.take(kinds@.len() as int) =~= kinds@);
    match pick_lowest_rank(&ranks) {
        Some(i) => {
            let (label, _, _) = kinds[i].unwrap();
            Some(vendor_from_label(label))
        },
        None => {
            assert forall|j: int| 0 <= j < kinds@.len() implies #[trigger] kinds@[j] is None by {
                assert(ranks@[j] is None);
            }
            if nvidia_proc {
                Some(GpuVendor::Nvidia)
            } else {
                None
            }
        },
    }
}

pub open spec fn kind_rank(k: Option<(GpuLabel, bool, u32)>) -> Option<u64> {
    match k {
        Some(t) => Some(t.2 as u64),
        None => None,
    }
}

pub open spec fn kind_label(k: Option<(GpuLabel, bool, u32)>) -> GpuLabel {
    match k {
        Some(t) => t.0,
        None => GpuLabel::Nvidia,
    }
}

pub open spec fn vendor_of_label(l: GpuLabel) -> GpuVendor {
    match l {
        GpuLabel::Nvidia => GpuVendor::Nvidia,
        GpuLabel::Amd => GpuVendor::Amd,
        GpuLabel::IGpu => GpuVendor::Intel,
        GpuLabel::Arc => GpuVendor::Intel,
    }
}

fn vendor_from_label(l: GpuLabel) -> (r: GpuVendor)
    ensures
        r == vendor_of_label(l),
{
    match l {
        GpuLabel::Nvidia => GpuVendor::Nvidia,
        GpuLabel::Amd => GpuVendor::Amd,
        GpuLabel::IGpu => GpuVendor::Intel,
        GpuLabel::Arc => GpuVendor::Intel,
    }
}

/// The symbolic icon of a GPU vendor in the panel.
pub fn vendor_icon_name(v: GpuVendor) -> (r: &'static str)
    ensures
        v == GpuVendor::Amd ==> r == "amd-radeon-symbolic",
        v == GpuVendor::Nvidia ==> r == "nvidia-gpu-symbolic",
        v == GpuVendor::Intel ==> r == "intel-arc-gpu-symbolic",
{
    match v {
        GpuVendor::Amd => "amd-radeon-symbolic",
        GpuVendor::Nvidia => "nvidia-gpu-symbolic",
        GpuVendor::Intel => "intel-arc-gpu-symbolic",
    }
}

// ── what the widget shows ───────────────────────────────────────────────

/// One segment of the power widget; the widget draws a separator between
/// consecutive segments.
#[derive(Clone, Copy, Debug, PartialEq, Eq, Structural)]
pub enum PowerSegment {
    Battery,
    /// The discrete GPU with its icon.
    GpuIcon,
    /// The discrete GPU by its label.
    GpuLabel,
    /// The CPU package with the vendor's icon.
    CpuIcon,
    /// The CPU package labelled `CPU`.
    CpuLabel,
    Psys,
    /// Nothing could be measured.
    Nothing,
}

/// The segments, in order: battery; discrete GPU (icon if it has one, else
/// label); CPU package (icon for a known vendor, else label); PSYS; and
/// `Nothing` alone when none of them is there.
pub open spec fn power_segments_spec(has_battery: bool, has_dgpu: bool, gpu_has_icon: bool, has_cpu: bool, cpu_has_icon: bool, has_psys: bool) -> Seq<PowerSegment> {
    let s0 = if has_battery { seq![PowerSegment::Battery] } else { Seq::<PowerSegment>::empty() };
    let s1 = if has_dgpu { s0.push(if gpu_has_icon { PowerSegment::GpuIcon } else { PowerSegment::GpuLabel }) } else { s0 };
    let s2 = if has_cpu { s1.push(if cpu_has_icon { PowerSegment::CpuIcon } else { PowerSegment::CpuLabel }) } else { s1 };
    let s3 = if has_psys { s2.push(PowerSegment::Psys) } else { s2 };
    if s3.len() == 0 { seq![PowerSegment::Nothing] } else { s3 }
}

pub fn power_segments(has_battery: bool, has_dgpu: bool, gpu_has_icon: bool, has_cpu: bool, cpu_has_icon: bool, has_psys: bool) -> (r: Vec<PowerSegment>)
    ensures
        r@ == power_segments_spec(has_battery, has_dgpu, gpu_has_icon, has_cpu, cpu_has_icon, has_psys),
{
    let mut v: Vec<PowerSegment> = Vec::new();
    if has_battery {
        v.push(PowerSegment::Battery);
    }
    if has_dgpu {
        if gpu_has_icon {
            v.push(PowerSegment::GpuIcon);
        } else {
            v.push(PowerSegment::GpuLabel);
        }
    }
    if has_cpu {
        if cpu_has_icon {
            v.push(PowerSegment::CpuIcon);
        } else {
            v.push(PowerSegment::CpuLabel);
        }
    }
    if has_psys {
        v.push(PowerSegment::Psys);
    }
    if v.len() == 0 {
        v.push(PowerSegment::Nothing);
    }
    proof {
        let s0 = if has_battery { seq![PowerSegment::Battery] } else { Seq::<PowerSegment>::empty() };
        assert(s0 =~= (if has_battery { seq![PowerSegment::Battery] } else { Seq::<PowerSegment>::empty() }));
    }
    assert(v@ =~= power_segments_spec(has_battery, has_dgpu, gpu_has_icon, has_cpu, cpu_has_icon, has_psys));
    v
}

} // verus!
