use rs_bar::audio::{
    brightness_icon, brightness_icon_for, brightness_label, brightness_refresh, device_from_fields, devices_from_json,
    icon_for_mic, icon_for_output, is_muted, audio_event_triggers, need_rebuild, parse_brightness,
    scroll_volume, selected_index, slider_target, volume_label, BrightnessRefresh, DeviceInfo,
};
use rs_bar::bluetooth::{
    backoff_after_exit, bt_apply_line, bt_apply_lines, bt_class, bt_color, bt_icon, bt_icon_name, bt_icon_state,
    device_list, device_row, has_connected_device, initial_bt_state, is_bt_powered, BtColor,
    BtDevice, BtState, DeviceList, RfkillEntry,
};
use rs_bar::clock::{
    clock_tick, format_date_full_at, format_date_short_at, format_month_day, format_time_at,
    format_time_full_at, ClockView, LocalTime,
};
use rs_bar::hover::{reveal_delays, HoverAction, HoverEvent, HoverExpand};
use rs_bar::indicators::{
    busy_class, busy_files, busy_text, capsule_class, detect_gpu_busy, exclusive_class_ops,
    im_label, monitor_line_triggers, needs_refresh, next_backoff, query_active, query_fcitx,
    rate_class, toggle_action, traffic_labels, wg_icon, BusyProbe, ClassOp, InputMethod,
};
use rs_bar::section::{
    section_header, section_step, slider_write, SectionControl, SectionEffects, SectionEvent,
    DRAG_RELEASE_MS, SEND_DEBOUNCE_MS,
};
use rs_bar::pkg::{
    arch_commands, count_lines, detect_distro, distro_step, first_distro_probe, pkg_icon,
    pkg_refresh, query_arch, query_debian, query_fedora, query_flatpak, query_updates, Distro,
    DistroProbe, DistroStep, PkgCommand, UpdateState,
};
use rs_bar::wifi::{
    bar_render_eq, class_for, empty_list_text, icon_for, icon_for_signal, is_wifi_rfkill_blocked,
    popover_rows, read_signal_strength, ssid_label, truncate_ssid, wifi_color, wifi_icon,
    wifi_state_from, ConnectedNetwork, KnownNetwork, WifiColor, WifiLink, WifiState,
};
use std::collections::BTreeSet;

// ── Bluetooth ───────────────────────────────────────────────────────────

fn rfkill(kind: &str, state: &str, hard: &str) -> RfkillEntry {
    RfkillEntry { kind: kind.to_string(), state: state.to_string(), hard: hard.to_string() }
}

#[test]
fn bluetooth_power_from_rfkill() {
    let entries = vec![rfkill("wlan", "1", "0"), rfkill("bluetooth\n", "1\n", "0\n"), rfkill("bluetooth", "0", "0")];
    assert!(is_bt_powered(&entries));
    assert!(!is_bt_powered(&vec![rfkill("bluetooth", "1", "1")]));
    assert!(!is_bt_powered(&vec![rfkill("bluetooth", "0", "0"), rfkill("bluetooth", "1", "0")]));
    assert!(!is_bt_powered(&vec![]));
}

#[test]
fn bluetooth_initial_state() {
    assert_eq!(initial_bt_state(false, true), BtState::Off);
    assert_eq!(initial_bt_state(true, true), BtState::Connected);
    assert_eq!(initial_bt_state(true, false), BtState::On);
    assert!(has_connected_device("Device AA:BB:CC:DD:EE:FF Headphones\n"));
    assert!(!has_connected_device("No default controller available\n"));
    assert!(!has_connected_device(""));
}

#[test]
fn bluetooth_event_lines() {
    let s = bt_apply_line(BtState::Off, &b"[CHG] Controller 00:11 Powered: yes".to_vec());
    assert_eq!(s, BtState::On);
    assert_eq!(bt_apply_line(s, &b"[CHG] Device AA Connected: yes".to_vec()), BtState::Connected);
    assert_eq!(bt_apply_line(BtState::Connected, &b"[CHG] Device AA Connected: no".to_vec()), BtState::On);
    assert_eq!(bt_apply_line(BtState::Connected, &b"[CHG] Controller Powered: no".to_vec()), BtState::Off);
    assert_eq!(bt_apply_line(BtState::Off, &b"[CHG] Device AA Connected: no".to_vec()), BtState::Off);
    assert_eq!(bt_apply_line(BtState::On, &b"[NEW] Device AA Phone".to_vec()), BtState::On);
}

#[test]
fn bluetooth_announces_only_changes() {
    let lines = vec![
        b"Powered: yes".to_vec(),
        b"Powered: yes".to_vec(),
        b"Connected: yes".to_vec(),
        b"RSSI: -60".to_vec(),
        b"Powered: no".to_vec(),
    ];
    let (last, changes) = bt_apply_lines(BtState::Off, &lines);
    assert_eq!(last, BtState::Off);
    assert_eq!(changes, vec![BtState::On, BtState::Connected, BtState::Off]);
}

#[test]
fn bluetooth_presentation() {
    assert_eq!(bt_icon(BtState::Connected), "bluetooth-connected.svg");
    assert_eq!(bt_color(BtState::Off), BtColor::Dim);
    assert_eq!(bt_color(BtState::On), BtColor::Normal);
    assert_eq!(bt_class(BtState::On), "bluetooth-on");
    assert_eq!(bt_icon_name(BtState::Off), "bluetooth-off-symbolic");
    assert_eq!(bt_icon_state(true, 2), BtState::Connected);
    assert_eq!(bt_icon_state(true, 0), BtState::On);
    assert_eq!(bt_icon_state(false, 2), BtState::Off);
}

fn dev(name: &str, connected: bool) -> BtDevice {
    BtDevice { name: name.to_string(), mac: format!("MAC-{}", name), connected }
}

#[test]
fn bluetooth_device_list_order() {
    let devices = vec![dev("zeta", false), dev("Alpha", false), dev("mouse", true), dev("beta", false), dev("Keyboard", true)];
    assert_eq!(device_list(true, &devices), DeviceList::Rows(vec![4, 2, 1, 3, 0]));
    assert_eq!(device_list(false, &devices), DeviceList::Placeholder("Bluetooth is off"));
    assert_eq!(device_list(true, &vec![]), DeviceList::Placeholder("No paired devices"));
    let ties = vec![dev("b", false), dev("B", false), dev("a", false)];
    assert_eq!(device_list(true, &ties), DeviceList::Rows(vec![2, 0, 1]));
}

#[test]
fn bluetooth_device_rows() {
    assert_eq!(device_row(&dev("Phone", true)), ("Phone".to_string(), "Disconnect"));
    let unnamed = BtDevice { name: String::new(), mac: "AA:BB".to_string(), connected: false };
    assert_eq!(device_row(&unnamed), ("AA:BB".to_string(), "Connect"));
}

// ── Wi-Fi ───────────────────────────────────────────────────────────────

const WIRELESS: &str = "Inter-| sta-|   Quality        |   Discarded packets\n face | tus | link level noise |  nwid  crypt\n wlan0: 0000   58.  -52.  -256        0      0\n";

#[test]
fn wifi_signal_from_proc() {
    assert_eq!(read_signal_strength(WIRELESS, "wlan0"), 58);
    assert_eq!(read_signal_strength(WIRELESS, "wlp3s0"), 0);
    assert_eq!(read_signal_strength(" wlan0: 0000 250. -1\n", "wlan0"), 100);
    assert_eq!(read_signal_strength(" wlan0: 0000\n wlan0: 0 70.\n", "wlan0"), 70);
}

#[test]
fn wifi_link_states() {
    assert!(is_wifi_rfkill_blocked(&vec![rfkill("bluetooth", "0", "0"), rfkill("wlan", "1", "1")]));
    assert!(is_wifi_rfkill_blocked(&vec![rfkill("wlan", "0\n", "0")]));
    assert!(!is_wifi_rfkill_blocked(&vec![rfkill("wlan", "1", "0")]));
    assert_eq!(wifi_state_from(true, Some("wlan0"), "up", WIRELESS), WifiLink::Disabled);
    assert_eq!(wifi_state_from(false, None, "up", WIRELESS), WifiLink::Disconnected);
    assert_eq!(wifi_state_from(false, Some("wlan0"), "dormant\n", WIRELESS), WifiLink::Disconnected);
    assert_eq!(wifi_state_from(false, Some("wlan0"), "up\n", WIRELESS), WifiLink::Connected { signal: 58 });
}

#[test]
fn wifi_bar_icon_and_colour() {
    let c = |signal| WifiLink::Connected { signal };
    assert_eq!(wifi_icon(&c(80)), "wifi-excellent.svg");
    assert_eq!(wifi_icon(&c(79)), "wifi-good.svg");
    assert_eq!(wifi_icon(&c(40)), "wifi-fair.svg");
    assert_eq!(wifi_icon(&c(20)), "wifi-weak.svg");
    assert_eq!(wifi_icon(&c(19)), "wifi-off.svg");
    assert_eq!(wifi_icon(&WifiLink::Disabled), "wifi-off.svg");
    assert_eq!(wifi_color(&c(60)), WifiColor::Fg);
    assert_eq!(wifi_color(&c(59)), WifiColor::Yellow);
    assert_eq!(wifi_color(&c(5)), WifiColor::Red);
    assert_eq!(wifi_color(&WifiLink::Disconnected), WifiColor::Dim);
}

fn net(ssid: &str, signal: i32) -> KnownNetwork {
    KnownNetwork { ssid: ssid.to_string(), signal, known: true, secured: true }
}

fn connected(ssid: &str, signal: i32) -> WifiState {
    WifiState {
        enabled: true,
        connected: Some(ConnectedNetwork { ssid: ssid.to_string(), signal }),
        networks: vec![net("other", 30), net(ssid, signal)],
    }
}

#[test]
fn wifi_panel_icon_class_label() {
    let s = connected("Home", 65);
    assert_eq!(icon_for(&s), "wifi-good-symbolic");
    assert_eq!(class_for(&s), "wifi-high");
    assert_eq!(icon_for_signal(15), "wifi-off-symbolic");
    assert_eq!(class_for(&connected("Home", 10)), "wifi-low");
    let off = WifiState { enabled: false, connected: None, networks: vec![] };
    assert_eq!(icon_for(&off), "wifi-off-symbolic");
    assert_eq!(class_for(&off), "wifi-disconnected");
    assert_eq!(ssid_label(&s), Some("Home".to_string()));
    assert_eq!(ssid_label(&connected("", 65)), None);
    assert_eq!(ssid_label(&off), None);
}

#[test]
fn ssid_truncation() {
    assert_eq!(truncate_ssid("short"), "short");
    assert_eq!(truncate_ssid("exactly16chars!!"), "exactly16chars!!");
    assert_eq!(truncate_ssid("a-very-long-network-name"), "a-very-long-net…");
    assert_eq!(truncate_ssid("ääääääääääääääääää"), "ääääääääääääääää".chars().take(15).collect::<String>() + "…");
}

#[test]
fn wifi_rerender_only_on_visible_change() {
    let a = connected("Home", 65);
    let mut b = connected("Home", 70);
    b.networks.clear();
    assert!(bar_render_eq(&a, &b));
    assert!(!bar_render_eq(&a, &connected("Home", 85)));
    assert!(!bar_render_eq(&a, &connected("Work", 65)));
}

#[test]
fn wifi_popover_rows() {
    let s = connected("Home", 65);
    let rows = popover_rows(&s);
    assert_eq!(rows.len(), 2);
    assert!(!rows[0].connected);
    assert_eq!(rows[0].icon, "wifi-weak-symbolic");
    assert_eq!(rows[0].signal_text, "30%");
    assert!(rows[1].connected);
    assert_eq!(rows[1].signal_text, "65%");
    assert_eq!(empty_list_text(&s), None);
    let empty_on = WifiState { enabled: true, connected: None, networks: vec![] };
    assert_eq!(empty_list_text(&empty_on), Some("No networks found"));
    let empty_off = WifiState { enabled: false, connected: None, networks: vec![] };
    assert_eq!(empty_list_text(&empty_off), Some("Wi-Fi disabled"));
}

// ── audio and brightness ────────────────────────────────────────────────

#[test]
fn volume_icons_and_steps() {
    assert_eq!(icon_for_output(50, true), ("mute-symbolic", "volume-muted"));
    assert_eq!(icon_for_output(0, false), ("unmute-symbolic", "volume-muted"));
    assert_eq!(icon_for_output(32, false), ("volume-low-symbolic", "volume-low"));
    assert_eq!(icon_for_output(33, false), ("volume-low-symbolic", "volume-mid"));
    assert_eq!(icon_for_output(66, false), ("volume-high-symbolic", "volume-high"));
    assert_eq!(icon_for_mic(true), "mic-off-symbolic");
    assert_eq!(scroll_volume(98, true), 100);
    assert_eq!(scroll_volume(40, true), 45);
    assert_eq!(scroll_volume(3, false), 0);
    assert_eq!(scroll_volume(40, false), 35);
    assert_eq!(scroll_volume(scroll_volume(40, true), false), 40);
    assert_eq!(scroll_volume(scroll_volume(96, true), false), 95);
    assert_eq!(scroll_volume(scroll_volume(5, false), true), 5);
    assert_eq!(volume_label(7), "  7%");
    assert_eq!(volume_label(1500), "999%");
    assert_eq!(slider_target(150), 100);
    assert_eq!(slider_target(42), 42);
}

#[test]
fn device_dropdown_helpers() {
    let names = vec!["a".to_string(), "b".to_string()];
    let devs = vec![
        DeviceInfo { name: "a".to_string(), description: "A".to_string() },
        DeviceInfo { name: "b".to_string(), description: "B".to_string() },
    ];
    assert!(!need_rebuild(&names, &devs));
    assert!(need_rebuild(&names, &devs[..1].to_vec()));
    assert!(need_rebuild(&vec!["a".to_string(), "c".to_string()], &devs));
    assert_eq!(selected_index(&names, "b"), Some(1));
    assert_eq!(selected_index(&names, "z"), None);
}

#[test]
fn audio_device_fields() {
    let d = device_from_fields(
        Some(0x1_0000_0005),
        Some("alsa_output.pci".to_string()),
        Some("Speakers".to_string()),
        Some(false),
        Some("42%".to_string()),
        "alsa_output.pci",
        false,
    )
    .unwrap();
    assert_eq!(d.index, 5);
    assert_eq!(d.volume_pct, 42);
    assert!(d.is_default);
    assert!(!d.muted);
    let monitor = device_from_fields(
        Some(1),
        Some("x.monitor".to_string()),
        Some("Monitor".to_string()),
        Some(false),
        Some("10%".to_string()),
        "",
        true,
    );
    assert!(monitor.is_none());
    let bad_volume = device_from_fields(Some(1), Some("n".to_string()), Some("d".to_string()), Some(true), Some("loud".to_string()), "", false);
    assert!(bad_volume.is_none());
    let missing = device_from_fields(None, Some("n".to_string()), Some("d".to_string()), Some(true), Some("1%".to_string()), "", false);
    assert!(missing.is_none());
}

#[test]
fn audio_devices_from_pactl_json() {
    let json = br#"[
        {"index": 3, "name": "alsa_input.usb", "description": "USB Mic", "mute": true,
         "volume": {"front-left": {"value": 40000, "value_percent": "61%", "db": "-12 dB"}}},
        {"index": 4, "name": "alsa_output.usb.monitor", "description": "Monitor", "mute": false,
         "volume": {"mono": {"value_percent": "100%"}}},
        {"index": 5, "name": "broken"}
    ]"#;
    let all = devices_from_json(json, "alsa_input.usb", false);
    assert_eq!(all.len(), 2);
    assert_eq!(all[0].index, 3);
    assert_eq!(all[0].description, "USB Mic");
    assert!(all[0].muted);
    assert_eq!(all[0].volume_pct, 61);
    assert!(all[0].is_default);
    assert!(!all[1].is_default);
    let inputs = devices_from_json(json, "alsa_input.usb", true);
    assert_eq!(inputs.len(), 1);
    assert!(devices_from_json(b"not json", "", false).is_empty());
    assert!(devices_from_json(b"{\"a\": 1}", "", false).is_empty());
}

#[test]
fn audio_event_lines() {
    assert!(is_muted("Volume: 0.40 [MUTED]\n"));
    assert!(!is_muted("Volume: 0.40\n"));
    assert!(audio_event_triggers("Event 'change' on sink #47"));
    assert!(audio_event_triggers("Event 'change' on server #0"));
    assert!(!audio_event_triggers("Event 'new' on client #12"));
}

#[test]
fn brightness_parsing() {
    assert_eq!(parse_brightness("intel_backlight,backlight,19200,40%,48000\n"), 48000);
    assert_eq!(parse_brightness("75%\n"), 75);
    assert_eq!(parse_brightness("level 30 %"), 30);
    assert_eq!(parse_brightness("none"), 0);
    assert_eq!(parse_brightness(""), 0);
    assert_eq!(parse_brightness("99999999999"), 0);
    assert_eq!(brightness_icon(49), "brightness-low.svg");
    assert_eq!(brightness_icon(50), "brightness-high.svg");
    assert_eq!(brightness_icon_for(10), ("brightness-low-symbolic", "brightness-low"));
}

#[test]
fn brightness_refresh_moves_slider_only_on_change() {
    let (shown, r) = brightness_refresh(40, 40);
    assert_eq!(shown, 40);
    assert_eq!(r, BrightnessRefresh::Unchanged);
    let (shown, r) = brightness_refresh(40, 140);
    assert_eq!(shown, 100);
    match r {
        BrightnessRefresh::Apply { icon, class, label, slider } => {
            assert_eq!(icon, "brightness-high-symbolic");
            assert_eq!(class, "brightness-high");
            assert_eq!(label, "100%");
            assert_eq!(slider, Some(100));
        }
        other => panic!("unexpected {:?}", other),
    }
    let (shown, _) = brightness_refresh(7, 63);
    assert_eq!(brightness_refresh(shown, 63), (63, BrightnessRefresh::Unchanged));
    let (shown, r) = brightness_refresh(50, 49);
    assert_eq!(shown, 49);
    assert!(matches!(r, BrightnessRefresh::Apply { slider: Some(49), .. }));
}

// ── small indicators ────────────────────────────────────────────────────

#[test]
fn exclusive_classes() {
    let all = vec!["wifi-high", "wifi-mid", "wifi-low"];
    let ops = exclusive_class_ops("wifi-mid", &all);
    let mut classes: BTreeSet<String> = ["wifi-high", "bar-capsule"].iter().map(|s| s.to_string()).collect();
    for op in &ops {
        match op {
            ClassOp::Remove(c) => {
                classes.remove(c);
            }
            ClassOp::Add(c) => {
                classes.insert(c.clone());
            }
        }
    }
    let expect: BTreeSet<String> = ["wifi-mid", "bar-capsule"].iter().map(|s| s.to_string()).collect();
    assert_eq!(classes, expect);
    assert_eq!(capsule_class(true), None);
    assert_eq!(capsule_class(false), Some("bar-capsule"));
}

#[test]
fn input_method_labels() {
    assert_eq!(query_fcitx("pinyin\n"), InputMethod::Chinese);
    assert_eq!(query_fcitx("rime"), InputMethod::Chinese);
    assert_eq!(query_fcitx("keyboard-us\n"), InputMethod::English);
    assert_eq!(query_fcitx(""), InputMethod::Unknown);
    assert_eq!(im_label(InputMethod::Chinese), ("中", "fcitx-chinese"));
    assert_eq!(im_label(InputMethod::Unknown), ("?", "fcitx-unknown"));
}

#[test]
fn wireguard_state() {
    let out = "wg0:wireguard:wg0\nHome:802-11-wireless:wlan0\n";
    assert!(query_active(out, "wg0"));
    assert!(!query_active(out, "wg1"));
    assert!(!query_active("wg0:vpn:tun0\n", "wg0"));
    assert!(monitor_line_triggers("wg0: connected", "wg0"));
    assert!(!monitor_line_triggers("eth0: unavailable", "wg0"));
    assert_eq!(next_backoff(1), 2);
    assert_eq!(next_backoff(40), 60);
    assert_eq!(next_backoff(30), 60);
    assert_eq!(next_backoff(60), 60);
    assert_eq!(next_backoff(u64::MAX), 60);
    assert_eq!(toggle_action(true), "down");
    assert_eq!(wg_icon(false), ("vpn-off.svg", "vpn-off-symbolic", "wireguard-off"));
    assert!(needs_refresh(false, true, true));
    assert!(!needs_refresh(true, true, true));
    assert!(needs_refresh(true, true, false));
}

#[test]
fn network_traffic_labels() {
    assert_eq!(rate_class("0 KB/s"), "net-traffic-dim");
    assert_eq!(rate_class("12 KB/s"), "net-traffic-norm");
    assert_eq!(traffic_labels("1.2 MB/s", "0 KB/s"), ("↓ 1.2 MB/s".to_string(), "↑ 0 KB/s".to_string()));
}

#[test]
fn gpu_busy_source() {
    assert_eq!(busy_files("0x1002\n"), Some(vec!["gpu_busy_percent"]));
    assert_eq!(busy_files("0x8086"), Some(vec!["gpu_busy_percent", "gt_busy_percent"]));
    assert_eq!(busy_files("0x10de"), None);
    let p = |class: &str, vendor: &str, readable: Vec<bool>| BusyProbe { is_dir: true, class: class.to_string(), vendor: vendor.to_string(), readable };
    let probes = vec![
        p("0x030000", "0x10de", vec![true]),
        p("0x030000", "0x1002", vec![false]),
        p("0x030000", "0x8086", vec![false, true]),
    ];
    assert_eq!(detect_gpu_busy(&probes), Some((2, 1)));
    assert_eq!(detect_gpu_busy(&probes[..2].to_vec()), None);
    assert_eq!(busy_text(Some(7)), " 7%");
    assert_eq!(busy_text(None), "--%");
    assert_eq!(busy_class(Some(80)), "gpu-busy-crit");
    assert_eq!(busy_class(Some(25)), "gpu-busy-norm");
    assert_eq!(busy_class(None), "gpu-busy-dim");
}

// ── package updates ─────────────────────────────────────────────────────

#[test]
fn distro_detection_steps() {
    assert_eq!(first_distro_probe(), DistroStep::Probe(DistroProbe::ArchRelease));
    assert_eq!(distro_step(DistroProbe::ArchRelease, true), DistroStep::Done(Some(Distro::Arch)));
    assert_eq!(distro_step(DistroProbe::ArchRelease, false), DistroStep::Probe(DistroProbe::DebianVersion));
    assert_eq!(distro_step(DistroProbe::CmdDnf, false), DistroStep::Done(None));
    assert_eq!(detect_distro(&vec![false, false, false, true, true, false, false]), Some(Distro::Fedora));
    assert_eq!(detect_distro(&vec![false, false, false, false, false, true, true]), Some(Distro::Debian));
    assert_eq!(detect_distro(&vec![false; 7]), None);
}

#[test]
fn update_counts() {
    assert_eq!(count_lines("a 1 -> 2\n\nb 3 -> 4\n"), 2);
    assert_eq!(count_lines(""), 0);
    let apt = "Listing... Done\nfoo/stable 1.2 amd64 [upgradable from: 1.1]\nbar/stable 2 amd64 [upgradable from: 1]\n";
    assert_eq!(query_debian(apt), 2);
    let dnf = "Last metadata expiration check: 0:01:02 ago.\nkernel.x86_64 6.1 updates\n\nvim.x86_64 9 updates\n";
    assert_eq!(query_fedora(dnf), 2);
    assert_eq!(query_arch("a 1 -> 2\n", Some("b 1 -> 2\nc 1 -> 3\n")), (1, 2));
    assert_eq!(query_arch("a 1 -> 2\n", None), (1, 0));
    assert_eq!(query_flatpak(Some("org.x\n")), 1);
    assert_eq!(query_flatpak(None), 0);
}

#[test]
fn update_state_by_distro() {
    assert_eq!(query_updates(Some(Distro::Arch), (3, 2), 1), UpdateState { official: 3, aur: 2, flatpak: 1 });
    assert_eq!(query_updates(Some(Distro::Debian), (3, 2), 1), UpdateState { official: 3, aur: 0, flatpak: 1 });
    assert_eq!(query_updates(None, (3, 2), 4), UpdateState { official: 0, aur: 0, flatpak: 4 });
    assert_eq!(UpdateState { official: 3, aur: 2, flatpak: 1 }.total(), 6);
    assert_eq!(arch_commands(false, false, true), (PkgCommand::PacmanQu, Some(PkgCommand::ParuQua)));
    assert_eq!(arch_commands(true, true, true), (PkgCommand::Checkupdates, Some(PkgCommand::YayQua)));
    assert_eq!(arch_commands(true, false, false), (PkgCommand::Checkupdates, None));
}

#[test]
fn update_presentation() {
    assert_eq!(pkg_icon(0), ("pkg-uptodate.svg", false));
    assert_eq!(pkg_icon(3), ("pkg-updates.svg", true));
    assert!(pkg_refresh(true, 3, 3).is_none());
    let r = pkg_refresh(true, 3, 5).unwrap();
    assert!(r.pending);
    assert_eq!(r.label, Some("5".to_string()));
    assert_eq!(r.class, "pkg-update-pending");
    let r = pkg_refresh(false, 0, 0).unwrap();
    assert!(!r.pending);
    assert_eq!(r.label, None);
    assert_eq!(r.class, "pkg-update-ok");
}

// ── clock ───────────────────────────────────────────────────────────────

fn at(year: i32, month: u32, day: u32, weekday: u32, hour: u32, minute: u32, second: u32) -> LocalTime {
    LocalTime { year, month, day, weekday, hour, minute, second }
}

#[test]
fn clock_formats() {
    let t = at(2026, 3, 5, 3, 9, 7, 4);
    assert_eq!(format_time_at(&t), "09:07");
    assert_eq!(format_time_full_at(&t), "09:07:04");
    assert_eq!(format_date_short_at(&t), "Mar 5");
    assert_eq!(format_date_full_at(&t), "Thursday, March  5, 2026");
    assert_eq!(format_month_day(&t), "03-05");
    let t = at(987, 12, 25, 6, 23, 59, 60);
    assert_eq!(format_date_full_at(&t), "Sunday, December 25, 0987");
    assert_eq!(format_time_full_at(&t), "23:59:60");
    assert_eq!(format_date_full_at(&at(12345, 1, 1, 0, 0, 0, 0)), "Monday, January  1, +12345");
    assert_eq!(format_date_full_at(&at(-44, 1, 1, 0, 0, 0, 0)), "Monday, January  1, -0044");
}

#[test]
fn clock_tick_rewrites_changes_only() {
    let mut view = ClockView { time: String::new(), date: String::new(), second: 99 };
    let first = clock_tick(&mut view, &at(2026, 3, 5, 3, 9, 7, 4));
    assert!(first.redraw_border && first.set_time && first.set_date);
    assert_eq!(view.time, "09:07");
    assert_eq!(view.date, "Mar 5");
    let next = clock_tick(&mut view, &at(2026, 3, 5, 3, 9, 7, 5));
    assert!(next.redraw_border && !next.set_time && !next.set_date);
    let same = clock_tick(&mut view, &at(2026, 3, 5, 3, 9, 7, 5));
    assert!(!same.redraw_border && !same.set_time && !same.set_date);
    let midnight = clock_tick(&mut view, &at(2026, 3, 6, 4, 0, 0, 0));
    assert!(midnight.set_time && midnight.set_date);
}

// ── hover expansion ─────────────────────────────────────────────────────

#[test]
fn hover_expands_after_delay_and_collapses() {
    let mut h = HoverExpand::new();
    assert_eq!(h.step(HoverEvent::ExpandTimer), HoverAction::Nothing);
    assert_eq!(h.step(HoverEvent::Enter), HoverAction::StartExpandTimer);
    assert_eq!(h.step(HoverEvent::ExpandTimer), HoverAction::Redraw);
    assert!(h.show_expanded && h.ever_expanded);
    assert_eq!(h.step(HoverEvent::Leave), HoverAction::StartCollapseTimer);
    assert_eq!(h.step(HoverEvent::Enter), HoverAction::StartExpandTimer);
    assert_eq!(h.step(HoverEvent::CollapseTimer), HoverAction::Nothing);
    assert!(h.show_expanded);
    h.step(HoverEvent::Leave);
    assert_eq!(h.step(HoverEvent::CollapseTimer), HoverAction::Redraw);
    assert!(!h.show_expanded && h.ever_expanded);
}

#[test]
fn staggered_reveal() {
    assert_eq!(reveal_delays(4, 30), vec![0, 30, 60, 90]);
    assert!(reveal_delays(0, 30).is_empty());
}

// ── audio popover sections ──────────────────────────────────────────────

fn no_effects() -> SectionEffects {
    SectionEffects {
        label: None,
        restart_release_timer: false,
        restart_send_timer: false,
        set_volume: None,
        toggle_mute: false,
        set_default: None,
    }
}

#[test]
fn section_drag_sends_last_level_once() {
    assert_eq!((DRAG_RELEASE_MS, SEND_DEBOUNCE_MS), (150, 30));
    let names = vec!["alsa.a".to_string(), "alsa.b".to_string()];
    let mut s = SectionControl::new();
    let fx = section_step(&mut s, SectionEvent::SliderMoved(40), false, &names);
    assert_eq!(fx.label.as_deref(), Some(" 40%"));
    assert!(fx.restart_release_timer && fx.restart_send_timer);
    assert_eq!(fx.set_volume, None);
    assert_eq!(s, SectionControl { dragging: true, pending_send: Some(40) });
    section_step(&mut s, SectionEvent::SliderMoved(45), false, &names);
    let fx = section_step(&mut s, SectionEvent::SendTimer, false, &names);
    assert_eq!(fx.set_volume, Some(45));
    assert_eq!(fx.label, None);
    assert_eq!(section_step(&mut s, SectionEvent::SendTimer, false, &names).set_volume, None);
    assert_eq!(slider_write(s.dragging, 80), None);
    section_step(&mut s, SectionEvent::ReleaseTimer, false, &names);
    assert!(!s.dragging);
    assert_eq!(slider_write(s.dragging, 80), Some(80));
    assert_eq!(slider_write(s.dragging, 150), Some(100));
}

#[test]
fn section_refresh_is_inert() {
    let names = vec!["alsa.a".to_string(), "alsa.b".to_string()];
    let mut s = SectionControl::new();
    let fx = section_step(&mut s, SectionEvent::SliderMoved(1200), true, &names);
    assert_eq!(fx, SectionEffects { label: Some("999%".to_string()), ..no_effects() });
    assert_eq!(s, SectionControl::new());
    assert_eq!(section_step(&mut s, SectionEvent::MuteToggled, true, &names), no_effects());
    assert_eq!(section_step(&mut s, SectionEvent::DeviceSelected(1), true, &names), no_effects());
}

#[test]
fn section_mute_and_default_device() {
    let names = vec!["alsa.a".to_string(), "alsa.b".to_string()];
    let mut s = SectionControl::new();
    assert_eq!(
        section_step(&mut s, SectionEvent::MuteToggled, false, &names),
        SectionEffects { toggle_mute: true, ..no_effects() }
    );
    assert_eq!(
        section_step(&mut s, SectionEvent::DeviceSelected(1), false, &names).set_default.as_deref(),
        Some("alsa.b")
    );
    assert_eq!(section_step(&mut s, SectionEvent::DeviceSelected(2), false, &names), no_effects());
    assert_eq!(s, SectionControl::new());
}

#[test]
fn section_header_upper_case() {
    assert_eq!(section_header("Output"), "OUTPUT");
    assert_eq!(section_header("Eingänge"), "EINGÄNGE");
}

#[test]
fn brightness_capsule_label_is_uncapped() {
    assert_eq!(brightness_label(7), "  7%");
    assert_eq!(brightness_label(100), "100%");
    assert_eq!(brightness_label(120), "120%");
    assert_eq!(brightness_label(4500), "4500%");
}

#[test]
fn bluetooth_restart_delay() {
    assert_eq!(backoff_after_exit(6000, 16), 1);
    assert_eq!(backoff_after_exit(5000, 16), 16);
    assert_eq!(backoff_after_exit(200, 8), 8);
    let mut delay = 1;
    let mut slept = Vec::new();
    for _ in 0..8 {
        let d = backoff_after_exit(100, delay);
        slept.push(d);
        delay = next_backoff(d);
    }
    assert_eq!(slept, vec![1, 2, 4, 8, 16, 32, 60, 60]);
}
