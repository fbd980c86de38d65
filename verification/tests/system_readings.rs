use rs_bar::battery::{
    band_class, battery_band, parse_status, battery_icon, battery_refresh, class_for, fmt_status,
    fmt_time_remaining, percent_text, BatteryBand, BatteryRefresh, BatteryState, BatteryStatus,
};
use rs_bar::cpu::{
    celsius_from_millideg, celsius_label, cpu_usage_band, cpu_usage_class, detect_temp_source,
    find_label_index, mem_band, mem_used_percent, parse_cpu_times, parse_meminfo, percent_label,
    percent_of, temp_class, temp_color, temp_labels_for, usage_ticks, Band, CpuTimes, HwmonProbe,
    TempColor, TempSource, ZoneProbe,
};
use rs_bar::freq::{
    avg_freq_khz, cpu_number, insert_sorted, khz_to_ghz_str, layout_from_core_types,
    layout_from_max_freqs, push_sample, take_reading, weighted_avg_khz, CoreLayout, FreqDisplay,
    HISTORY_SIZE,
};
use rs_bar::power::{
    battery_power_pw, cpu_vendor_icon, detect_battery, detect_cpu_vendor, detect_gpu,
    detect_gpu_vendor, detect_rapl, domains_energy_uj, energy_delta, find_gpu_hwmon, gpu_icon,
    gpu_kind, gpu_label_text, is_charging, is_rapl_entry, is_system_battery, known_battery_names,
    pick_lowest_rank, power_segments, rapl_kind, sysfs_u64_value, vendor_icon_name, BatterySource,
    CpuVendor, GpuChoice, GpuLabel, GpuProbe, GpuVendor, PowerSegment, RaplDomain, RaplEntry,
    RaplKind,
};

// ── CPU usage and memory ────────────────────────────────────────────────

#[test]
fn cpu_times_from_proc_stat() {
    let stat = "cpu  10 20 30 400 5 6 7 8 9 10\ncpu0 1 2 3 4 5 6 7 8\nintr 1\n";
    let t = parse_cpu_times(stat);
    assert_eq!(
        t,
        CpuTimes { user: 10, nice: 20, system: 30, idle: 400, iowait: 5, irq: 6, softirq: 7, steal: 8 }
    );
    assert_eq!(t.total(), 486);
    assert_eq!(t.idle_total(), 405);
}

#[test]
fn cpu_times_missing_line_is_zero() {
    assert_eq!(parse_cpu_times("cpu0 1 2 3 4 5 6 7 8\n"), CpuTimes::zero());
    assert_eq!(parse_cpu_times("cpu  1 2 3\n"), CpuTimes::zero());
    assert_eq!(parse_cpu_times(""), CpuTimes::zero());
}

#[test]
fn usage_between_samples() {
    let prev = CpuTimes { user: 100, nice: 0, system: 50, idle: 800, iowait: 50, irq: 0, softirq: 0, steal: 0 };
    let cur = CpuTimes { user: 160, nice: 0, system: 70, idle: 810, iowait: 60, irq: 0, softirq: 0, steal: 0 };
    assert_eq!(usage_ticks(&prev, &cur), (80, 100));
    assert_eq!(usage_ticks(&cur, &cur), (0, 0));
    assert_eq!(usage_ticks(&cur, &prev), (0, 0));
}

#[test]
fn percent_rounds_half_up() {
    assert_eq!(percent_of(1, 8), 13);
    assert_eq!(percent_of(1, 3), 33);
    assert_eq!(percent_of(2, 3), 67);
    assert_eq!(percent_of(0, 0), 0);
    assert_eq!(percent_of(u64::MAX, u64::MAX), 100);
}

#[test]
fn cpu_bands_and_classes() {
    assert_eq!(cpu_usage_band(80, 100), Band::Crit);
    assert_eq!(cpu_usage_band(79, 100), Band::Warn);
    assert_eq!(cpu_usage_band(60, 100), Band::Warn);
    assert_eq!(cpu_usage_band(25, 100), Band::Norm);
    assert_eq!(cpu_usage_band(24, 100), Band::Dim);
    assert_eq!(cpu_usage_band(0, 0), Band::Dim);
    assert_eq!(cpu_usage_class(Band::Warn), "cpu-usage-warn");
    assert_eq!(cpu_usage_class(Band::Dim), "cpu-usage-dim");
    assert_eq!(percent_label(7), " 7%");
    assert_eq!(percent_label(100), "100%");
}

#[test]
fn meminfo_fields() {
    let text = "MemTotal:       16000000 kB\nMemFree:  100 kB\nMemAvailable:    4000000 kB\n";
    assert_eq!(parse_meminfo(text), (16000000, 4000000));
    assert_eq!(parse_meminfo("MemFree: 5 kB\n"), (0, 0));
    assert_eq!(mem_used_percent(16000000, 4000000), 75);
    assert_eq!(mem_used_percent(0, 0), 0);
    assert_eq!(mem_used_percent(3, 2), 33);
    assert_eq!(mem_band(90, 100), Band::Crit);
    assert_eq!(mem_band(75, 100), Band::Warn);
    assert_eq!(mem_band(74, 100), Band::Norm);
    assert_eq!(mem_band(0, 0), Band::Norm);
}

// ── temperature ─────────────────────────────────────────────────────────

#[test]
fn millidegrees_to_celsius() {
    assert_eq!(celsius_from_millideg("45500\n"), Some(45));
    assert_eq!(celsius_from_millideg(" 99999 "), Some(99));
    assert_eq!(celsius_from_millideg("-1500"), Some(u32::MAX));
    assert_eq!(celsius_from_millideg("warm"), None);
    assert_eq!(celsius_from_millideg(""), None);
}

#[test]
fn temperature_colours() {
    assert_eq!(temp_color(88), TempColor::Red);
    assert_eq!(temp_color(87), TempColor::Orange);
    assert_eq!(temp_color(75), TempColor::Orange);
    assert_eq!(temp_color(62), TempColor::Yellow);
    assert_eq!(temp_color(61), TempColor::Fg);
    assert_eq!(temp_class(90), "cpu-temp-hot");
    assert_eq!(temp_class(80), "cpu-temp-warm");
    assert_eq!(temp_class(62), "cpu-temp-warm");
    assert_eq!(temp_class(74), "cpu-temp-warm");
    assert_eq!(temp_class(61), "cpu-temp-cool");
    assert_eq!(temp_class(88), "cpu-temp-hot");
    assert_eq!(temp_class(-3), "cpu-temp-cool");
    assert_eq!(celsius_label(54), "54°C");
    assert_eq!(celsius_label(-4), "-4°C");
}

#[test]
fn sensor_labels_by_driver() {
    assert_eq!(temp_labels_for("coretemp"), Some(vec!["Package id 0"]));
    assert_eq!(temp_labels_for("k10temp"), Some(vec!["Tctl", "Tdie"]));
    assert_eq!(temp_labels_for("macsmc"), Some(vec!["Heatpipe Temp", "Charge Regulator Temp"]));
    assert_eq!(temp_labels_for("nvme"), None);
    let labels = vec![
        (Some("Core 0\n".to_string()), true),
        (Some(" Tdie\n".to_string()), false),
        (None, true),
        (Some("Tdie".to_string()), true),
    ];
    assert_eq!(find_label_index(&labels, "Tdie"), Some(4));
    assert_eq!(find_label_index(&labels, "Tctl"), None);
}

#[test]
fn temperature_source_prefers_known_hwmon() {
    let hwmons = vec![
        HwmonProbe { name: "nvme".to_string(), labels: vec![], temp1_input: true },
        HwmonProbe {
            name: "k10temp\n".to_string(),
            labels: vec![(Some("Tdie".to_string()), true), (Some("Tctl".to_string()), true)],
            temp1_input: true,
        },
    ];
    let zones = vec![ZoneProbe { name: "thermal_zone0".to_string(), kind: "acpitz".to_string(), has_temp: true }];
    assert_eq!(detect_temp_source(&hwmons, &zones), Some(TempSource::Hwmon { hwmon: 1, input: 2 }));
}

#[test]
fn temperature_source_falls_back_to_zones() {
    let hwmons = vec![HwmonProbe { name: "coretemp".to_string(), labels: vec![], temp1_input: false }];
    let zones = vec![
        ZoneProbe { name: "thermal_zone2".to_string(), kind: "acpitz".to_string(), has_temp: true },
        ZoneProbe { name: "thermal_zone1".to_string(), kind: "x86_pkg_temp\n".to_string(), has_temp: true },
        ZoneProbe { name: "thermal_zone0".to_string(), kind: "acpitz".to_string(), has_temp: true },
    ];
    assert_eq!(detect_temp_source(&hwmons, &zones), Some(TempSource::ThermalZone { zone: 1 }));
    let plain = vec![
        ZoneProbe { name: "thermal_zone2".to_string(), kind: "acpitz".to_string(), has_temp: true },
        ZoneProbe { name: "thermal_zone1".to_string(), kind: "acpitz".to_string(), has_temp: false },
        ZoneProbe { name: "thermal_zone10".to_string(), kind: "acpitz".to_string(), has_temp: true },
    ];
    assert_eq!(detect_temp_source(&hwmons, &plain), Some(TempSource::ThermalZone { zone: 2 }));
    assert_eq!(detect_temp_source(&vec![], &vec![]), None);
}

// ── frequency ───────────────────────────────────────────────────────────

#[test]
fn ghz_text_has_two_decimals() {
    assert_eq!(khz_to_ghz_str(1_234_567), "1.23");
    assert_eq!(khz_to_ghz_str(800_000), "0.80");
    assert_eq!(khz_to_ghz_str(5_009_999), "5.00");
    assert_eq!(khz_to_ghz_str(0), "0.00");
}

#[test]
fn cpu_directory_names() {
    assert_eq!(cpu_number("cpu12"), Some(12));
    assert_eq!(cpu_number("cpufreq"), None);
    assert_eq!(cpu_number("cpu"), None);
    assert_eq!(cpu_number("node0"), None);
}

#[test]
fn sorted_insertion() {
    let mut v = vec![];
    for x in [5u32, 1, 3, 3, 9, 0] {
        insert_sorted(&mut v, x);
    }
    assert_eq!(v, vec![0, 1, 3, 3, 5, 9]);
}

#[test]
fn layout_by_core_type() {
    let cpus = vec![
        (3u32, "0\n".to_string()),
        (0, "1\n".to_string()),
        (2, "0".to_string()),
        (1, "".to_string()),
    ];
    assert_eq!(layout_from_core_types(&cpus), CoreLayout::Hybrid { p_cpus: vec![0, 1], e_cpus: vec![2, 3] });
    let all_p = vec![(1u32, "1".to_string()), (0, "1".to_string())];
    assert_eq!(layout_from_core_types(&all_p), CoreLayout::Uniform { cpus: vec![0, 1] });
}

#[test]
fn layout_by_max_frequency() {
    let hybrid = vec![(0u32, 4_700_000u64), (1, 3_500_000), (2, 4_700_000), (3, 0)];
    assert_eq!(layout_from_max_freqs(&hybrid), CoreLayout::Hybrid { p_cpus: vec![0, 2], e_cpus: vec![1] });
    let close = vec![(0u32, 4_000_000u64), (1, 3_500_000)];
    assert_eq!(layout_from_max_freqs(&close), CoreLayout::Uniform { cpus: vec![0, 1] });
    let three = vec![(0u32, 1_000_000u64), (1, 2_000_000), (2, 3_000_000)];
    assert_eq!(layout_from_max_freqs(&three), CoreLayout::Uniform { cpus: vec![0, 1, 2] });
}

#[test]
fn frequency_averages() {
    assert_eq!(avg_freq_khz(&vec![Some(1_000_000), None, Some(2_000_001)]), 1_500_000);
    assert_eq!(avg_freq_khz(&vec![None]), 0);
    assert_eq!(weighted_avg_khz(4_000_000, 2, 2_000_000, 6), 2_500_000);
    assert_eq!(weighted_avg_khz(1, 0, 1, 0), 0);
}

#[test]
fn readings_per_layout() {
    let uniform = CoreLayout::Uniform { cpus: vec![0, 1] };
    let r = take_reading(&uniform, &vec![Some(2_000_000), Some(3_000_000)], &vec![]);
    assert_eq!(r.avg_khz, 2_500_000);
    assert_eq!(r.display, FreqDisplay::Single("2.50 GHz".to_string()));
    let hybrid = CoreLayout::Hybrid { p_cpus: vec![0, 1], e_cpus: vec![2, 3, 4, 5] };
    let r = take_reading(&hybrid, &vec![Some(4_200_000), Some(4_200_000)], &vec![Some(3_000_000); 4]);
    assert_eq!(r.avg_khz, 3_400_000);
    assert_eq!(r.display, FreqDisplay::Split("P:4.20".to_string(), "E:3.00".to_string()));
}

#[test]
fn history_keeps_the_newest_samples() {
    let mut h = vec![];
    for i in 0..30u64 {
        push_sample(&mut h, i);
        assert!(h.len() <= HISTORY_SIZE);
        assert_eq!(*h.last().unwrap(), i);
    }
    assert_eq!(h, (6..30).collect::<Vec<u64>>());
}

// ── power ───────────────────────────────────────────────────────────────

#[test]
fn cpu_vendor_from_cpuinfo() {
    assert_eq!(detect_cpu_vendor("processor: 0\nvendor_id\t: GenuineIntel\n", false), CpuVendor::Intel);
    assert_eq!(detect_cpu_vendor("vendor_id : AuthenticAMD\n", false), CpuVendor::Amd);
    assert_eq!(detect_cpu_vendor("CPU implementer : 0x61\n", true), CpuVendor::Apple);
    assert_eq!(detect_cpu_vendor("model name : Apple M2\n", false), CpuVendor::Apple);
    assert_eq!(detect_cpu_vendor("processor : 0\n", false), CpuVendor::Unknown);
    assert_eq!(cpu_vendor_icon(CpuVendor::Amd), Some("amd-cpu.svg"));
    assert_eq!(cpu_vendor_icon(CpuVendor::Unknown), None);
}

#[test]
fn sysfs_values_and_batteries() {
    assert_eq!(sysfs_u64_value("12345\n"), Some(12345));
    assert_eq!(sysfs_u64_value("n/a"), None);
    assert!(is_system_battery(true, false, false));
    assert!(is_system_battery(false, true, true));
    assert!(!is_system_battery(false, true, false));
    assert_eq!(known_battery_names(), vec!["BAT0", "BAT1", "macsmc-battery"]);
    assert!(is_charging("Charging\n"));
    assert!(!is_charging("Discharging"));
}

#[test]
fn battery_detection_order() {
    let scanned = vec![
        ("Mains".to_string(), true),
        ("Battery\n".to_string(), false),
        ("Battery".to_string(), true),
    ];
    assert_eq!(detect_battery(&vec![false, true, true], &scanned), Some(BatterySource::Known(1)));
    assert_eq!(detect_battery(&vec![false, false, false], &scanned), Some(BatterySource::Scanned(2)));
    assert_eq!(detect_battery(&vec![false, false, false], &vec![]), None);
}

#[test]
fn battery_power_in_picowatts() {
    assert_eq!(battery_power_pw(Some(12_000_000), Some(1), Some(1)), 12_000_000_000_000);
    assert_eq!(battery_power_pw(None, Some(1_000_000), Some(12_000_000)), 12_000_000_000_000);
    assert_eq!(battery_power_pw(None, Some(1_000_000), None), 0);
}

#[test]
fn rapl_domains() {
    assert!(is_rapl_entry("intel-rapl:0"));
    assert!(is_rapl_entry("intel-rapl-mmio:0"));
    assert!(!is_rapl_entry("dtpm"));
    assert_eq!(rapl_kind("package-0\n"), Some(RaplKind::Package));
    assert_eq!(rapl_kind("psys"), Some(RaplKind::Psys));
    assert_eq!(rapl_kind("platform"), Some(RaplKind::Psys));
    assert_eq!(rapl_kind("core"), None);
    let e = |name: &str, ok: bool, dn: &str, max: Option<&str>| RaplEntry {
        name: name.to_string(),
        energy_exists: ok,
        energy_readable: ok,
        domain_name: dn.to_string(),
        max_range: max.map(|s| s.to_string()),
    };
    let entries = vec![
        e("intel-rapl:0", true, "package-0\n", Some("262143328850\n")),
        e("intel-rapl:0:0", true, "core\n", Some("1")),
        e("intel-rapl:1", true, "psys\n", None),
        e("intel-rapl:2", false, "package-1", Some("5")),
        e("dtpm", true, "package-9", Some("5")),
    ];
    let (pkg, psys) = detect_rapl(&entries);
    assert_eq!(pkg, vec![RaplDomain { entry: 0, max_uj: 262143328850 }]);
    assert_eq!(psys, vec![RaplDomain { entry: 2, max_uj: u64::MAX }]);
}

#[test]
fn energy_counter_wraps_at_its_range() {
    assert_eq!(energy_delta(1500, 1000, 5000), 500);
    assert_eq!(energy_delta(100, 4900, 5000), 200);
    let domains = vec![RaplDomain { entry: 0, max_uj: 5000 }, RaplDomain { entry: 1, max_uj: 10 }];
    assert_eq!(domains_energy_uj(&domains, &vec![Some(100), Some(3)], &vec![Some(4900), None]), 200);
}

#[test]
fn gpu_classification() {
    assert_eq!(gpu_kind("0x030000\n", "0x10de\n", "0000:01:00.0"), Some((GpuLabel::Nvidia, true, 1)));
    assert_eq!(gpu_kind("0x030000", "0x1002", "0000:03:00.0"), Some((GpuLabel::Amd, true, 1)));
    assert_eq!(gpu_kind("0x030000", "0x8086", "0000:00:02.0"), Some((GpuLabel::IGpu, false, 4)));
    assert_eq!(gpu_kind("0x038000", "0x8086", "0000:04:00.0"), Some((GpuLabel::Arc, true, 2)));
    assert_eq!(gpu_kind("0x020000", "0x8086", "0000:04:00.0"), None);
    assert_eq!(gpu_kind("0x030000", "0x1af4", "0000:04:00.0"), None);
    assert_eq!(gpu_icon(GpuLabel::IGpu), None);
    assert_eq!(gpu_icon(GpuLabel::Arc), Some("intel-arc-gpu.svg"));
    assert_eq!(gpu_label_text(GpuLabel::IGpu), "iGPU");
}

#[test]
fn gpu_files_and_ranks() {
    let files = vec![
        ("name".to_string(), true),
        ("power1_average".to_string(), false),
        ("energy1_input".to_string(), true),
        ("power1_input".to_string(), true),
        ("power1_average".to_string(), true),
    ];
    assert_eq!(find_gpu_hwmon(&files), (Some(3), Some(2)));
    assert_eq!(find_gpu_hwmon(&vec![]), (None, None));
    assert_eq!(pick_lowest_rank(&vec![None, Some(4), Some(1), Some(1)]), Some(2));
    assert_eq!(pick_lowest_rank(&vec![None, None]), None);
}

#[test]
fn gpu_choice() {
    let p = |label, is_dgpu, rank, power, energy| GpuProbe { label, is_dgpu, rank, has_power_file: power, has_energy_file: energy };
    let probes = vec![
        p(GpuLabel::IGpu, false, 4, true, false),
        p(GpuLabel::Amd, true, 1, false, false),
        p(GpuLabel::Arc, true, 2, false, true),
    ];
    assert_eq!(
        detect_gpu(&probes, true),
        Some(GpuChoice { device: Some(2), label: GpuLabel::Arc, is_dgpu: true })
    );
    assert_eq!(
        detect_gpu(&vec![], true),
        Some(GpuChoice { device: None, label: GpuLabel::Nvidia, is_dgpu: true })
    );
    assert_eq!(detect_gpu(&vec![], false), None);
    let kinds = vec![None, Some((GpuLabel::IGpu, false, 4)), Some((GpuLabel::Amd, true, 1))];
    assert_eq!(detect_gpu_vendor(&kinds, false), Some(GpuVendor::Amd));
    assert_eq!(detect_gpu_vendor(&vec![None], true), Some(GpuVendor::Nvidia));
    assert_eq!(detect_gpu_vendor(&vec![None], false), None);
    assert_eq!(vendor_icon_name(GpuVendor::Intel), "intel-arc-gpu-symbolic");
}

#[test]
fn power_widget_segments() {
    assert_eq!(power_segments(false, false, false, false, false, false), vec![PowerSegment::Nothing]);
    assert_eq!(
        power_segments(true, true, false, true, true, true),
        vec![PowerSegment::Battery, PowerSegment::GpuLabel, PowerSegment::CpuIcon, PowerSegment::Psys]
    );
    assert_eq!(power_segments(false, true, true, false, false, false), vec![PowerSegment::GpuIcon]);
}

// ── battery widget ──────────────────────────────────────────────────────

fn battery(status: BatteryStatus, pct: u32) -> BatteryState {
    BatteryState {
        present: true,
        status,
        capacity_pct: pct,
        time_remaining_minutes: Some(135),
        cycles: Some(42),
        health_pct: Some(91),
    }
}

#[test]
fn battery_bands() {
    assert_eq!(battery_band(&battery(BatteryStatus::Charging, 5)), BatteryBand::Charging);
    assert_eq!(battery_band(&battery(BatteryStatus::Discharging, 10)), BatteryBand::Crit);
    assert_eq!(battery_band(&battery(BatteryStatus::Discharging, 20)), BatteryBand::Low);
    assert_eq!(battery_band(&battery(BatteryStatus::Discharging, 50)), BatteryBand::Norm);
    assert_eq!(band_class(BatteryBand::Low), "battery-low");
    assert_eq!(class_for(&battery(BatteryStatus::Charging, 50)), "battery-charging");
    assert_eq!(battery_icon(true), "battery-charging.svg");
    assert_eq!(battery_icon(false), "battery.svg");
    assert_eq!(fmt_status(BatteryStatus::NotCharging), "Not charging");
    assert_eq!(percent_text(87), "87%");
}

#[test]
fn battery_status_file() {
    assert_eq!(parse_status("Charging\n"), BatteryStatus::Charging);
    assert_eq!(parse_status("Discharging"), BatteryStatus::Discharging);
    assert_eq!(parse_status(" Full "), BatteryStatus::Full);
    assert_eq!(parse_status("Not charging\n"), BatteryStatus::NotCharging);
    assert_eq!(parse_status("charging"), BatteryStatus::Unknown);
    assert_eq!(parse_status(""), BatteryStatus::Unknown);
}

#[test]
fn time_remaining_text() {
    assert_eq!(fmt_time_remaining(Some(135)), "2h 15m");
    assert_eq!(fmt_time_remaining(Some(45)), "45m");
    assert_eq!(fmt_time_remaining(Some(60)), "1h 0m");
    assert_eq!(fmt_time_remaining(Some(0)), "—");
    assert_eq!(fmt_time_remaining(None), "—");
}

#[test]
fn battery_refresh_writes_only_changes() {
    let a = battery(BatteryStatus::Discharging, 50);
    assert!(matches!(battery_refresh(&a, &a), BatteryRefresh::Unchanged));
    assert!(matches!(battery_refresh(&a, &BatteryState::absent()), BatteryRefresh::Hide));
    let b = battery(BatteryStatus::Charging, 51);
    match battery_refresh(&a, &b) {
        BatteryRefresh::Show { icon, label, class, status_line, time_line, .. } => {
            assert_eq!(icon, Some("battery-charging.svg"));
            assert_eq!(label, Some("51%".to_string()));
            assert_eq!(class, "battery-charging");
            assert!(status_line.contains("Charging"));
            assert!(time_line.contains("2h 15m"));
        }
        other => panic!("unexpected {:?}", other),
    }
    let c = battery(BatteryStatus::Discharging, 50);
    let c = BatteryState { cycles: Some(43), ..c };
    match battery_refresh(&a, &c) {
        BatteryRefresh::Show { icon, label, .. } => {
            assert_eq!(icon, None);
            assert_eq!(label, None);
        }
        other => panic!("unexpected {:?}", other),
    }
}
