use rs_bar::appicon::{app_icon_candidates, app_names, desktop_files, desktop_icon_field};
use rs_bar::input::{
    capslock_from_events, decode_event, event_nodes_by_name, eviocgbit, eviocgled,
    has_capslock_led, ioc, lex_less, read_led_state, test_bit, InputEvent, EV_LED, LED_CAPSL,
};
use rs_bar::minimap::{
    column_breaks, layout_fingerprint, minimap_key, minimap_step, minimap_windows, tile_classes,
    LayoutPos, MinimapUpdate, MinimapWindow,
};
use rs_bar::tray::{
    argb_to_rgba, clean_label, compute_cached, pixmap_png, TrayPixmap, icon_candidates, image_plan, is_fcitx,
    menu_sections, menu_signature, pixmap_size, pixmap_usable, reconcile, same_signature,
    tooltip_text, tray_arrow, tray_clicked, widest_pixmap, IconCandidate, ImagePlan, TrayIcon,
    TrayItem, TrayMenuEntry,
};
use rs_bar::util::SuppressGuard;
use rs_bar::windows::{
    find_focused, focused_title, window_closed, window_focus_changed, window_for_monitor,
    window_event, window_opened_or_changed, WindowEvent, WindowInfo,
};
use rs_bar::workspaces::{
    active_workspace_on, dot_class, dot_state, dot_target, first_matching_uuid, hover_update,
    next_memory, output_for_display, plan_dots, render_dots, sort_workspaces, visible_for_output,
    workspaces_on, DotFade, DotKind, DotMemories, DotMemory, DotPalette, DotState, IdMap, WorkspaceInfo,
    ACTIVE_W, DOT_FADE_MS, DOT_SIZE, HOVER_BONUS,
};
use std::cell::RefCell;

// ── workspaces ──────────────────────────────────────────────────────────

fn ws(id: u64, idx: u8, output: Option<&str>, active: bool, window: Option<u64>) -> WorkspaceInfo {
    WorkspaceInfo {
        id,
        idx,
        output: output.map(|s| s.to_string()),
        is_active: active,
        is_urgent: false,
        active_window_id: window,
    }
}

fn sample_workspaces() -> Vec<WorkspaceInfo> {
    vec![
        ws(10, 2, Some("DP-1"), false, Some(100)),
        ws(11, 1, Some("eDP-1"), true, None),
        ws(12, 1, Some("DP-1"), true, Some(101)),
        ws(13, 3, None, false, None),
        ws(14, 2, Some("eDP-1"), false, None),
    ]
}

#[test]
fn workspaces_per_monitor() {
    let w = sample_workspaces();
    assert_eq!(active_workspace_on(&w, "DP-1"), Some(2));
    assert_eq!(active_workspace_on(&w, "HDMI-1"), None);
    assert_eq!(workspaces_on(&w, "DP-1"), vec![2, 0]);
    assert_eq!(workspaces_on(&w, "eDP-1"), vec![1, 4]);
    assert_eq!(visible_for_output(&w, Some("eDP-1")), vec![1, 3, 4]);
    assert_eq!(visible_for_output(&w, None), vec![0, 1, 2, 3, 4]);
    assert_eq!(sort_workspaces(&w), vec![3, 2, 0, 1, 4]);
}

#[test]
fn display_uuid_matches_connector_name() {
    let outputs = vec!["DP-1".to_string(), "example.org".to_string(), "example.org".to_string()];
    let uuid = 0xaad036818b63530489e08ca8f49461b5u128;
    assert_eq!(output_for_display(&outputs, uuid), Some(1));
    assert_eq!(output_for_display(&outputs[..1].to_vec(), uuid), None);
    assert_eq!(first_matching_uuid(&vec![1, 7, 7], 7), Some(1));
    assert_eq!(first_matching_uuid(&vec![1, 2], 7), None);
}

#[test]
fn dot_states_and_classes() {
    let w = sample_workspaces();
    assert_eq!(dot_state(&w[1]), DotState { kind: DotKind::Active, urgent: false });
    assert_eq!(dot_state(&w[0]).kind, DotKind::Windows);
    assert_eq!(dot_state(&w[3]).kind, DotKind::Empty);
    let mut urgent = w[3].clone();
    urgent.is_urgent = true;
    assert!(dot_state(&urgent).urgent);
    assert_eq!(dot_class(DotKind::Windows), "workspace-dot-windows");
}

const PALETTE: DotPalette = DotPalette { accent: 1, text_dim: 2, fg_gutter: 3, surface: 4 };

#[test]
fn dot_targets_and_memory() {
    assert_eq!(dot_target(true, false, false, PALETTE), (ACTIVE_W, 1, 'a'));
    assert_eq!(dot_target(false, true, true, PALETTE), (DOT_SIZE + HOVER_BONUS, 2, 'o'));
    assert_eq!(dot_target(false, false, false, PALETTE), (DOT_SIZE, 3, 'e'));
    let fresh = next_memory(None, 18, 1, 4);
    assert_eq!(fresh, DotMemory { target_w: 18, target_color: 1, baseline_w: 0, baseline_color: 4 });
    let moved = next_memory(Some(fresh), 9, 3, 4);
    assert_eq!(moved, DotMemory { target_w: 9, target_color: 3, baseline_w: 18, baseline_color: 1 });
    assert_eq!(next_memory(Some(moved), 9, 3, 4), moved);
}

#[test]
fn dot_rendering_keeps_memory_of_shown_workspaces() {
    let w = sample_workspaces();
    let mut mem: DotMemories = IdMap::new();
    let first = render_dots(&w, &vec![1, 4], None, PALETTE, &mut mem);
    assert_eq!(first.len(), 2);
    assert_eq!((first[0].ws_id, first[0].state_tag, first[0].from_w), (11, 'a', 0));
    assert_eq!((first[1].ws_id, first[1].target_w, first[1].from_color), (14, DOT_SIZE, 4));
    assert_eq!(mem.keys().len(), 2);
    let second = render_dots(&w, &vec![4], Some(14), PALETTE, &mut mem);
    assert_eq!(second[0].target_w, DOT_SIZE + HOVER_BONUS);
    assert_eq!(second[0].from_w, DOT_SIZE);
    assert!(second[0].hovered);
    assert_eq!(mem.keys(), vec![14]);
    assert_eq!(mem.get(11), None);
}

#[test]
fn dot_rendering_settles_on_second_render() {
    let w = sample_workspaces();
    let mut mem: DotMemories = IdMap::new();
    render_dots(&w, &vec![1, 4], None, PALETTE, &mut mem);
    let first = render_dots(&w, &vec![1, 4], Some(14), PALETTE, &mut mem);
    let after_first = (mem.get(11), mem.get(14));
    let second = render_dots(&w, &vec![1, 4], Some(14), PALETTE, &mut mem);
    assert_eq!(second, first);
    assert_eq!((mem.get(11), mem.get(14)), after_first);
    let mut keys = mem.keys();
    keys.sort();
    assert_eq!(keys, vec![11, 14]);
}

#[test]
fn dot_plan_adds_restyles_and_removes() {
    let w = sample_workspaces();
    let mut dots: IdMap<DotState> = IdMap::new();
    let (removed, updates) = plan_dots(&mut dots, &w[..2].to_vec());
    assert!(removed.is_empty());
    assert!(updates.iter().all(|u| u.is_new && u.restyle));
    let mut next = w[1..3].to_vec();
    next[0].is_active = false;
    let (removed, updates) = plan_dots(&mut dots, &next);
    assert_eq!(removed, vec![DotFade { id: 10, opacity: 0, remove_after_ms: DOT_FADE_MS }]);
    assert_eq!(DOT_FADE_MS, 220);
    assert_eq!(updates.len(), 2);
    assert!(!updates[0].is_new && updates[0].restyle);
    assert_eq!(updates[0].state.kind, DotKind::Empty);
    assert!(updates[1].is_new);
    let (removed, updates) = plan_dots(&mut dots, &next);
    assert!(removed.is_empty());
    assert!(updates.iter().all(|u| !u.is_new && !u.restyle));
}

#[test]
fn workspace_hover_tracking() {
    assert_eq!(hover_update(None, 3, true), (Some(3), true));
    assert_eq!(hover_update(Some(3), 3, true), (Some(3), false));
    assert_eq!(hover_update(Some(3), 3, false), (None, true));
    assert_eq!(hover_update(Some(4), 3, false), (Some(4), false));
}

#[test]
fn id_map_operations() {
    let mut m: IdMap<u32> = IdMap::new();
    m.set(5, 50);
    m.set(6, 60);
    m.set(5, 55);
    assert_eq!(m.get(5), Some(55));
    assert_eq!(m.keys().len(), 2);
    m.retain_ids(&vec![6, 7]);
    assert_eq!(m.get(5), None);
    assert_eq!(m.get(6), Some(60));
}

// ── windows ─────────────────────────────────────────────────────────────

fn win(id: u64, title: &str, focused: bool, workspace: Option<u64>) -> WindowInfo {
    WindowInfo {
        id,
        title: Some(title.to_string()),
        app_id: Some(format!("app{}", id)),
        is_focused: focused,
        workspace_id: workspace,
    }
}

#[test]
fn window_events() {
    let mut ws_list = vec![win(1, "one", true, Some(10)), win(2, "two", false, Some(10))];
    window_opened_or_changed(&mut ws_list, win(3, "three", true, Some(11)));
    assert_eq!(ws_list.iter().map(|w| (w.id, w.is_focused)).collect::<Vec<_>>(), vec![(1, false), (2, false), (3, true)]);
    window_opened_or_changed(&mut ws_list, win(1, "ONE", false, Some(10)));
    assert_eq!(ws_list.iter().map(|w| w.id).collect::<Vec<_>>(), vec![2, 3, 1]);
    assert_eq!(focused_title(&ws_list), ("three".to_string(), "app3".to_string()));
    window_focus_changed(&mut ws_list, Some(2));
    assert_eq!(find_focused(&ws_list), Some(0));
    window_closed(&mut ws_list, 2);
    assert_eq!(find_focused(&ws_list), None);
    assert_eq!(focused_title(&ws_list), (String::new(), String::new()));
    window_focus_changed(&mut ws_list, None);
    assert_eq!(ws_list.len(), 2);
}

#[test]
fn window_event_stream() {
    let mut list: Vec<WindowInfo> = Vec::new();
    let r = window_event(&mut list, WindowEvent::WindowsChanged(vec![win(1, "one", false, Some(10)), win(2, "two", true, Some(10))]));
    assert_eq!(r, Some(("two".to_string(), "app2".to_string())));
    let r = window_event(&mut list, WindowEvent::OpenedOrChanged(win(3, "three", true, Some(11))));
    assert_eq!(r, Some(("three".to_string(), "app3".to_string())));
    assert_eq!(list.iter().map(|w| (w.id, w.is_focused)).collect::<Vec<_>>(), vec![(1, false), (2, false), (3, true)]);
    assert_eq!(window_event(&mut list, WindowEvent::Other), None);
    assert_eq!(list.len(), 3);
    let r = window_event(&mut list, WindowEvent::FocusChanged(Some(1)));
    assert_eq!(r, Some(("one".to_string(), "app1".to_string())));
    let r = window_event(&mut list, WindowEvent::Closed(1));
    assert_eq!(r, Some((String::new(), String::new())));
    assert_eq!(list.iter().map(|w| w.id).collect::<Vec<_>>(), vec![2, 3]);
}

#[test]
fn window_shown_per_monitor() {
    let workspaces = sample_workspaces();
    let windows = vec![win(100, "a", false, Some(10)), win(101, "b", false, Some(12)), win(102, "c", true, Some(11))];
    assert_eq!(window_for_monitor(&workspaces, &windows, "DP-1"), Some(1));
    assert_eq!(window_for_monitor(&workspaces, &windows, "eDP-1"), Some(2));
    assert_eq!(window_for_monitor(&workspaces, &windows, "HDMI-1"), None);
}

// ── minimap ─────────────────────────────────────────────────────────────

fn mw(id: u64, ws_id: u64, pos: Option<(usize, usize)>, focused: bool) -> MinimapWindow {
    MinimapWindow {
        id,
        workspace_id: Some(ws_id),
        pos: pos.map(|(col, row)| LayoutPos { col, row }),
        tile_w_milli: 500,
        tile_h_milli: 1000,
        is_focused: focused,
    }
}

#[test]
fn minimap_order_and_key() {
    let windows = vec![
        mw(1, 7, Some((2, 1)), false),
        mw(2, 7, Some((1, 1)), true),
        mw(3, 8, Some((1, 1)), false),
        mw(4, 7, None, false),
        mw(5, 7, Some((2, 0)), false),
    ];
    let order = minimap_windows(&windows, Some(7));
    assert_eq!(order, vec![1, 4, 0]);
    assert!(minimap_windows(&windows, None).is_empty());
    let key = minimap_key(&windows, &order, Some(2), Some(7), false);
    assert_eq!(key.count, 3);
    assert_eq!(key.focused, Some(2));
    assert_eq!(key.fingerprint, layout_fingerprint(&windows, &order));
    let mut wider = windows.clone();
    wider[0].tile_w_milli = 600;
    assert_ne!(layout_fingerprint(&wider, &order), key.fingerprint);
    assert_eq!(layout_fingerprint(&windows, &vec![]), 0);
}

#[test]
fn minimap_redraws_only_on_new_key() {
    let windows = vec![mw(1, 7, Some((1, 0)), true), mw(2, 7, Some((2, 0)), false)];
    let order = minimap_windows(&windows, Some(7));
    let key = minimap_key(&windows, &order, Some(1), Some(7), false);
    let mut last = None;
    assert_eq!(minimap_step(&mut last, key), MinimapUpdate::Redraw { visible: true });
    assert_eq!(last, Some(key));
    assert_eq!(minimap_step(&mut last, key), MinimapUpdate::Unchanged);
    let opened = minimap_key(&windows, &order, Some(1), Some(7), true);
    assert_eq!(minimap_step(&mut last, opened), MinimapUpdate::Redraw { visible: true });
    let empty = minimap_key(&windows, &vec![], None, Some(8), false);
    assert_eq!(minimap_step(&mut last, empty), MinimapUpdate::Redraw { visible: false });
    assert_eq!(last, Some(empty));
}

#[test]
fn minimap_columns_and_classes() {
    assert_eq!(column_breaks(&vec![0, 0, 1, 1, 3]), vec![false, false, true, false, true]);
    assert_eq!(column_breaks(&vec![2]), vec![true]);
    assert_eq!(tile_classes(true, true, true), vec!["minimap-window-focused", "minimap-window-overview"]);
    assert_eq!(tile_classes(false, true, false), vec!["minimap-window-active"]);
    assert!(tile_classes(false, false, false).is_empty());
}

// ── tray ────────────────────────────────────────────────────────────────

#[test]
fn tray_pixmaps() {
    assert_eq!(argb_to_rgba(&[1, 2, 3, 4, 5, 6, 7, 8, 9]), vec![2, 3, 4, 1, 6, 7, 8, 5]);
    assert_eq!(widest_pixmap(&vec![16, 32, 24, 32]), Some(3));
    assert_eq!(widest_pixmap(&vec![]), None);
    assert_eq!(pixmap_size(22, 22), Some((22, 22)));
    assert_eq!(pixmap_size(0, 22), None);
    assert_eq!(pixmap_size(-1, 2), Some((u32::MAX, 2)));
    assert!(pixmap_usable(2, 2, 16));
    assert!(!pixmap_usable(2, 2, 15));
    assert!(!pixmap_usable(-2, -2, 16));
}

#[test]
fn tray_pixmap_saved_as_png() {
    let small = TrayPixmap { width: 1, height: 1, pixels: vec![255, 1, 2, 3] };
    let wide = TrayPixmap { width: 2, height: 1, pixels: vec![255, 10, 20, 30, 128, 40, 50, 60] };
    let bytes = pixmap_png(&vec![small.clone(), wide.clone()]).unwrap();
    assert_eq!(&bytes[..8], &[137, 80, 78, 71, 13, 10, 26, 10]);
    let decoder = png::Decoder::new(&bytes[..]);
    let mut reader = decoder.read_info().unwrap();
    let mut buf = vec![0; reader.output_buffer_size()];
    let info = reader.next_frame(&mut buf).unwrap();
    assert_eq!((info.width, info.height), (2, 1));
    assert_eq!(&buf[..info.buffer_size()], &[10, 20, 30, 255, 40, 50, 60, 128]);
    let again = pixmap_png(&vec![wide, small]).unwrap();
    let mut reader = png::Decoder::new(&again[..]).read_info().unwrap();
    let mut buf = vec![0; reader.output_buffer_size()];
    assert_eq!(reader.next_frame(&mut buf).unwrap().width, 2);
    assert!(pixmap_png(&vec![]).is_none());
    assert!(pixmap_png(&vec![TrayPixmap { width: 0, height: 4, pixels: vec![] }]).is_none());
    assert!(pixmap_png(&vec![TrayPixmap { width: 2, height: 2, pixels: vec![0; 12] }]).is_none());
}

#[test]
fn tray_item_texts() {
    assert!(is_fcitx("Fcitx"));
    assert!(!is_fcitx("fcitx5"));
    assert_eq!(tooltip_text("nm-applet", Some("Network")), "Network");
    assert_eq!(tooltip_text("nm-applet", None), "nm-applet");
    assert_eq!(tray_arrow(true), "tray-arrow.svg");
    assert_eq!(tray_clicked(false), (true, true));
    for label in ["_File", "Save __as", "a_b__c_", "plain", "\u{1}x"] {
        let expect = label.replace("__", "\u{1}").replace('_', "").replace('\u{1}', "_");
        assert_eq!(clean_label(label), expect);
    }
}

#[test]
fn tray_icon_search_order() {
    let r = icon_candidates(Some("/tmp/pix.png"), Some("nm-signal"), Some(""));
    assert_eq!(r[0], IconCandidate::File("/tmp/pix.png".to_string()));
    assert_eq!(r[1], IconCandidate::Theme("nm-signal".to_string()));
    assert_eq!(r.len(), 6);
    let r = icon_candidates(None, Some("/opt/app/icon.png"), Some("/opt/app/icons"));
    assert_eq!(r[0], IconCandidate::File("/opt/app/icon.png".to_string()));
    assert_eq!(r[1], IconCandidate::File("/opt/app/icons/hicolor/scalable/apps//opt/app/icon.png.svg".to_string()));
    assert_eq!(r.len(), 1 + 24 + 5);
    assert!(icon_candidates(None, Some(""), None).is_empty());
}

fn item(id: u32, label: &str) -> TrayMenuEntry {
    TrayMenuEntry::Item { id: id as i32, label: label.to_string(), enabled: true }
}

#[test]
fn tray_menu_sections_and_signature() {
    let menu = vec![
        TrayMenuEntry::Separator,
        item(1, "Open"),
        TrayMenuEntry::Submenu { label: "More".to_string(), children: vec![item(3, "Deep")] },
        TrayMenuEntry::Separator,
        TrayMenuEntry::Separator,
        item(2, "Quit"),
    ];
    assert_eq!(menu_sections(&menu), vec![vec![1, 2], vec![5]]);
    let sig = menu_signature(&menu);
    assert_eq!(sig.len(), 7);
    let mut changed = menu;
    changed[2] = TrayMenuEntry::Submenu { label: "More".to_string(), children: vec![item(3, "Deeper")] };
    assert!(!same_signature(&sig, &menu_signature(&changed)));
    assert!(same_signature(&sig, &sig.clone()));
}

fn tray_item(id: &str, icon: Option<TrayIcon>, name: Option<&str>) -> TrayItem {
    TrayItem {
        id: id.to_string(),
        title: Some(format!("{} title", id)),
        tooltip: None,
        icon,
        icon_name: name.map(|s| s.to_string()),
        icon_theme_path: Some("/themes".to_string()),
        menu: vec![item(1, "Quit")],
    }
}

#[test]
fn tray_image_plans() {
    let px = TrayIcon { width: 1, height: 1, rgba: vec![9, 8, 7, 6] };
    assert_eq!(image_plan(&tray_item("a", Some(px.clone()), None)), ImagePlan::Pixmap);
    let bad = TrayIcon { width: 2, height: 1, rgba: vec![9, 8, 7, 6] };
    assert_eq!(image_plan(&tray_item("a", Some(bad), Some("/x.png"))), ImagePlan::Named { try_file: true, add_theme_path: true });
    assert_eq!(image_plan(&tray_item("a", None, Some(""))), ImagePlan::Clear);
    let c = compute_cached(&tray_item("a", Some(px), None));
    assert_eq!(c.icon_sig, Some((1, 1, 4, 9, 6)));
    assert_eq!(c.title, Some("a title".to_string()));
    assert_eq!(c.menu.len(), 1);
}

#[test]
fn tray_reconcile() {
    let a = compute_cached(&tray_item("a", None, Some("x")));
    let b = compute_cached(&tray_item("b", None, Some("y")));
    let first = reconcile(&vec![], vec![], vec![("a".to_string(), a.clone()), ("b".to_string(), b.clone())]);
    assert!(first.visible);
    assert!(first.updates.iter().all(|u| u.create && u.reposition && u.image && u.tooltip && u.menu));
    assert_eq!(first.order, vec!["a".to_string(), "b".to_string()]);
    let mut b2 = b.clone();
    b2.title = Some("new".to_string());
    let again = reconcile(&first.order, first.slots.clone(), vec![("a".to_string(), a.clone()), ("b".to_string(), b.clone())]);
    assert!(again.removed.is_empty());
    assert!(again.updates.iter().all(|u| !u.create && !u.reposition && !u.image && !u.tooltip && !u.menu));
    assert_eq!(again.slots, first.slots);
    let second = reconcile(&first.order, first.slots, vec![("b".to_string(), b2)]);
    assert_eq!(second.removed, vec![0]);
    assert_eq!(second.updates.len(), 1);
    let u = second.updates[0];
    assert!(!u.create && u.reposition && !u.image && u.tooltip && !u.menu);
    let empty = reconcile(&second.order, second.slots, vec![]);
    assert!(!empty.visible);
    assert_eq!(empty.removed, vec![0]);
}

// ── window icon ─────────────────────────────────────────────────────────

#[test]
fn app_icon_names_and_files() {
    assert_eq!(app_names("org.Gnome.Nautilus"), vec!["org.Gnome.Nautilus", "Nautilus", "org.gnome.nautilus", "nautilus"]);
    assert_eq!(app_names("firefox"), vec!["firefox", "firefox", "firefox", "firefox"]);
    let files = desktop_files("Foot");
    assert_eq!(files.len(), 8);
    assert_eq!(files[0], "/usr/share/applications/Foot.desktop");
    assert_eq!(files[7], "/usr/local/share/applications/foot.desktop");
    assert_eq!(desktop_icon_field("[Desktop Entry]\nName=Foot\nIcon= foot \nIcon=other\n"), Some("foot".to_string()));
    assert_eq!(desktop_icon_field("[Desktop Entry]\n"), None);
    let c = app_icon_candidates("foot", Some("/opt/foot.svg"));
    assert_eq!(c[0], IconCandidate::Theme("foot".to_string()));
    assert_eq!(c[4], IconCandidate::File("/opt/foot.svg".to_string()));
    assert_eq!(c[5], IconCandidate::Theme("/opt/foot.svg".to_string()));
    assert!(app_icon_candidates("", Some("/opt/foot.svg")).is_empty());
    assert!(desktop_files("").is_empty());
}

// ── Caps Lock ───────────────────────────────────────────────────────────

#[test]
fn ioctl_numbers() {
    assert_eq!(ioc(2, 0x45, 0x19, 8), 0x80084519);
    assert_eq!(eviocgled(8), 0x80084519);
    assert_eq!(eviocgbit(0, 4), 0x80044520);
    assert_eq!(eviocgbit(EV_LED, 1), 0x80014531);
}

#[test]
fn led_bits() {
    assert!(test_bit(&[0b0000_0010], 1));
    assert!(!test_bit(&[0b0000_0010, 0], 8));
    let ev = [0u8, 0, 0b0000_0010, 0];
    assert!(has_capslock_led(Some(&ev), Some(&[0b0000_0010])));
    assert!(!has_capslock_led(Some(&ev), Some(&[0b0000_0001])));
    assert!(!has_capslock_led(None, Some(&[0xff])));
    assert!(read_led_state(Some(0b10)));
    assert!(!read_led_state(Some(0b01)));
    assert!(!read_led_state(None));
    assert_eq!(LED_CAPSL, 1);
}

fn raw_event(type_: u16, code: u16, value: i32) -> Vec<u8> {
    let mut b = vec![0u8; 16];
    b.extend_from_slice(&type_.to_le_bytes());
    b.extend_from_slice(&code.to_le_bytes());
    b.extend_from_slice(&value.to_le_bytes());
    b
}

#[test]
fn led_events() {
    assert_eq!(decode_event(&raw_event(EV_LED, LED_CAPSL, 1)), Some(InputEvent { type_: EV_LED, code: LED_CAPSL, value: 1 }));
    assert_eq!(decode_event(&raw_event(1, 2, -1)), Some(InputEvent { type_: 1, code: 2, value: -1 }));
    assert_eq!(decode_event(&[0u8; 23]), None);
    let evs = vec![
        InputEvent { type_: EV_LED, code: LED_CAPSL, value: 1 },
        InputEvent { type_: EV_LED, code: 0, value: 0 },
        InputEvent { type_: EV_LED, code: LED_CAPSL, value: 0 },
        InputEvent { type_: 0, code: 0, value: 0 },
    ];
    assert_eq!(capslock_from_events(&evs), Some(false));
    assert_eq!(capslock_from_events(&evs[..2].to_vec()), Some(true));
    assert_eq!(capslock_from_events(&vec![]), None);
}

#[test]
fn event_nodes_in_name_order() {
    let names: Vec<String> = ["mice", "event10", "event2", "by-id", "event1"].iter().map(|s| s.to_string()).collect();
    assert_eq!(event_nodes_by_name(&names), vec![4, 1, 2]);
    let cv = |s: &str| s.chars().collect::<Vec<char>>();
    assert!(lex_less(&cv("event1"), &cv("event10")));
    assert!(!lex_less(&cv("event2"), &cv("event10")));
    assert!(!lex_less(&cv("a"), &cv("a")));
}

// ── guard ───────────────────────────────────────────────────────────────

#[test]
fn suppress_guard_raises_and_lowers() {
    let flag = RefCell::new(false);
    {
        let _g = SuppressGuard::new(&flag);
        assert!(*flag.borrow());
    }
    assert!(!*flag.borrow());
}
