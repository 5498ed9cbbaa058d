use razer_battery_report::manager::{ConnectedDevice, DeviceManager};
use razer_battery_report::settings::ThemeSetting;
use razer_battery_report::icon::{IconSet, Theme};
use razer_battery_report::tray::{
    check_notify, console_menu_label, render_tray_icon, theme_checks, DevicePoller, DeviceTable,
    MemoryDevice, MenuCommand, MenuEntry, Notification, TrayState, BATTERY_CRITICAL_LEVEL,
    BATTERY_LOW_LEVEL, POLLS_PER_BATTERY_UPDATE,
};

fn device(level: i32, old: i32, charging: bool) -> MemoryDevice {
    MemoryDevice {
        name: "Mouse".to_string(),
        pid: 1,
        battery_level: level,
        old_battery_level: old,
        is_charging: charging,
    }
}

fn manager_with(devs: &[(u16, &str)]) -> DeviceManager {
    let mut m = DeviceManager::new();
    m.fetch_devices(devs.iter().map(|(p, n)| ConnectedDevice { pid: *p, name: n.to_string() }).collect());
    m
}

#[test]
fn thresholds_and_period() {
    assert_eq!(BATTERY_CRITICAL_LEVEL, 5);
    assert_eq!(BATTERY_LOW_LEVEL, 15);
    assert_eq!(POLLS_PER_BATTERY_UPDATE, 60);
}

#[test]
fn new_device_has_unknown_level() {
    let d = MemoryDevice::new("Razer Viper V2 Pro".to_string(), 0x00a5);
    assert_eq!(d.name, "Razer Viper V2 Pro");
    assert_eq!(d.pid, 0x00a5);
    assert_eq!(d.battery_level, -1);
    assert_eq!(d.old_battery_level, 50);
    assert!(!d.is_charging);
}

#[test]
fn record_reading_shifts_levels() {
    let mut d = MemoryDevice::new("M".to_string(), 1);
    assert!(d.record_reading(80, false));
    assert_eq!(d.old_battery_level, -1);
    assert_eq!(d.battery_level, 80);
    assert!(!d.record_reading(80, false));
    assert_eq!(d.old_battery_level, 80);
    assert!(d.record_reading(80, true));
    assert!(d.is_charging);
    assert!(d.record_reading(79, true));
}

#[test]
fn tooltip_text() {
    let mut d = MemoryDevice::new("Razer DeathAdder V3 Pro".to_string(), 1);
    assert_eq!(d.tooltip(), "Razer DeathAdder V3 Pro: -1%");
    d.record_reading(67, false);
    assert_eq!(d.tooltip(), "Razer DeathAdder V3 Pro: 67%");
    d.record_reading(100, true);
    assert_eq!(d.tooltip(), "Razer DeathAdder V3 Pro: 100%");
    d.record_reading(0, true);
    assert_eq!(d.tooltip(), "Razer DeathAdder V3 Pro: 0%");
    d.record_reading(i32::MIN, true);
    assert_eq!(d.tooltip(), "Razer DeathAdder V3 Pro: -2147483648%");
}

#[test]
fn notifications() {
    assert_eq!(check_notify(&device(-1, 50, false)), Notification::Nothing);
    assert_eq!(check_notify(&device(5, 6, false)), Notification::BatteryLow);
    assert_eq!(check_notify(&device(3, 3, false)), Notification::BatteryLow);
    assert_eq!(check_notify(&device(15, 16, false)), Notification::BatteryLow);
    assert_eq!(check_notify(&device(14, 15, false)), Notification::Nothing);
    assert_eq!(check_notify(&device(10, 10, false)), Notification::Nothing);
    assert_eq!(check_notify(&device(15, 16, true)), Notification::Nothing);
    assert_eq!(check_notify(&device(3, 3, true)), Notification::Nothing);
    assert_eq!(check_notify(&device(100, 99, true)), Notification::BatteryFull);
    assert_eq!(check_notify(&device(100, 100, true)), Notification::Nothing);
    assert_eq!(check_notify(&device(100, 99, false)), Notification::Nothing);
    assert_eq!(check_notify(&device(100, -1, true)), Notification::BatteryFull);
}

#[test]
fn device_table_operations() {
    let mut t = DeviceTable::new();
    assert!(!t.contains(7));
    t.insert_new(7, "seven".to_string());
    t.insert_new(9, "nine".to_string());
    assert!(t.contains(7));
    let mut ids = t.ids();
    ids.sort();
    assert_eq!(ids, vec![7, 9]);
    let d = t.remove(7).unwrap();
    assert_eq!(d.name, "seven");
    assert_eq!(d.battery_level, -1);
    assert!(t.remove(7).is_none());
    assert_eq!(t.ids(), vec![9]);
}

#[test]
fn apply_reading_outcomes() {
    let mut t = DeviceTable::new();
    assert!(t.apply_reading(1, 50, false).is_none());
    t.insert_new(1, "Mouse".to_string());
    let out = t.apply_reading(1, 50, false).unwrap();
    assert!(out.redraw);
    assert_eq!(out.notification, Notification::Nothing);
    assert_eq!(out.tooltip, "Mouse: 50%");
    let out = t.apply_reading(1, 50, false).unwrap();
    assert!(!out.redraw);
    let out = t.apply_reading(1, 50, true).unwrap();
    assert!(out.redraw);
    let out = t.apply_reading(1, 4, false).unwrap();
    assert!(out.redraw);
    assert_eq!(out.notification, Notification::BatteryLow);
    assert_eq!(out.tooltip, "Mouse: 4%");
}

#[test]
fn poll_adds_and_removes_devices() {
    let mut poller = DevicePoller::new();
    let mut table = DeviceTable::new();
    let manager = manager_with(&[(1, "One"), (2, "Two")]);
    let out = poller.poll(&mut table, &manager, &vec![], &vec![1, 2, 3]);
    assert!(out.removed_names.is_empty());
    assert_eq!(out.added_names, vec!["One".to_string(), "Two".to_string()]);
    assert_eq!(out.unnamed_ids, vec![3]);
    assert_eq!(out.updates.len(), 2);
    assert_eq!(out.updates[0], vec![1, 2, 3]);
    let mut all = out.updates[1].clone();
    all.sort();
    assert_eq!(all, vec![1, 2]);
    assert_eq!(poller.battery_update_counter(), 1);
    assert_eq!(*poller.last_devices(), vec![1, 2, 3]);

    let manager = manager_with(&[(2, "Two")]);
    let out = poller.poll(&mut table, &manager, &vec![1, 5], &vec![]);
    assert_eq!(out.removed_names, vec!["One".to_string()]);
    assert!(out.added_names.is_empty());
    assert_eq!(out.updates, vec![Vec::<u32>::new()]);
    assert_eq!(table.ids(), vec![2]);

    let out = poller.poll(&mut table, &manager, &vec![], &vec![]);
    assert!(out.updates.is_empty());
    assert_eq!(poller.battery_update_counter(), 3);
}

#[test]
fn poll_keeps_known_devices() {
    let mut poller = DevicePoller::new();
    let mut table = DeviceTable::new();
    let manager = manager_with(&[(1, "One")]);
    poller.poll(&mut table, &manager, &vec![], &vec![1]);
    table.apply_reading(1, 42, false);
    let out = poller.poll(&mut table, &manager, &vec![], &vec![1]);
    assert!(out.added_names.is_empty());
    assert!(out.updates.is_empty());
    let out = table.apply_reading(1, 42, false).unwrap();
    assert!(!out.redraw);
}

#[test]
fn poll_requests_battery_update_every_sixty_polls() {
    let mut poller = DevicePoller::new();
    let mut table = DeviceTable::new();
    let manager = DeviceManager::new();
    let mut due = Vec::new();
    for k in 0..121u32 {
        let out = poller.poll(&mut table, &manager, &vec![], &vec![]);
        if !out.updates.is_empty() {
            due.push(k);
        }
    }
    assert_eq!(due, vec![0, 60, 120]);
}

#[test]
fn menu_and_theme_state() {
    assert_eq!(theme_checks(ThemeSetting::Auto), (true, false, false));
    assert_eq!(theme_checks(ThemeSetting::Light), (false, true, false));
    assert_eq!(theme_checks(ThemeSetting::Dark), (false, false, true));
    assert_eq!(console_menu_label(true), "Hide Log Window");
    assert_eq!(console_menu_label(false), "Show Log Window");

    let mut s = TrayState::new(ThemeSetting::Auto);
    assert_eq!((s.shown_level, s.shown_charging), (-1, false));
    assert_eq!(s.theme(Theme::Light), Theme::Light);
    s.show_reading(42, true);
    assert_eq!(
        s.on_menu(MenuEntry::ThemeDark),
        MenuCommand::ApplyTheme { setting: ThemeSetting::Dark, level: 42, is_charging: true }
    );
    assert_eq!(s.theme_setting, ThemeSetting::Dark);
    assert_eq!(s.theme(Theme::Light), Theme::Dark);
    assert_eq!(s.on_menu(MenuEntry::ShowConsole), MenuCommand::ToggleConsole);
    assert_eq!(s.on_menu(MenuEntry::Quit), MenuCommand::Exit);
    assert_eq!(s.theme_setting, ThemeSetting::Dark);
    assert_eq!(s.set_theme(ThemeSetting::Light), (42, true));
}

#[test]
fn tray_icon_for_unknown_and_known_levels() {
    let svg = "<svg xmlns=\"http://www.w3.org/2000/svg\" width=\"32\" height=\"32\"><rect width=\"32\" height=\"32\" fill=\"__FG__\"/></svg>";
    let levels: Vec<String> = (0..=100).map(|_| svg.to_string()).collect();
    let icons = IconSet::new(levels, svg.to_string()).unwrap();
    let unknown = render_tray_icon(&icons, -1, true, Theme::Light).unwrap();
    assert_eq!(&unknown.rgba[0..4], &[0x5F, 0x63, 0x68, 255]);
    let critical = render_tray_icon(&icons, 5, false, Theme::Light).unwrap();
    assert_eq!(&critical.rgba[0..4], &[0xC6, 0x28, 0x28, 255]);
    let charging = render_tray_icon(&icons, 5, true, Theme::Light).unwrap();
    assert_eq!(&charging.rgba[0..4], &[0x1B, 0x7A, 0x34, 255]);
}

#[test]
fn poll_history_updates_on_set_change() {
    let mut poller = DevicePoller::new();
    let mut table = DeviceTable::new();
    let manager = DeviceManager::new();
    let conns: Vec<Vec<u32>> = vec![vec![1, 2], vec![2, 1], vec![3], vec![], vec![], vec![3]];
    let mut all_updates = Vec::new();
    for c in &conns {
        let out = poller.poll(&mut table, &manager, &vec![], c);
        all_updates.push(out.updates);
    }
    let empty: Vec<Vec<u32>> = vec![];
    assert_eq!(
        all_updates,
        vec![vec![vec![1, 2], vec![]], empty.clone(), vec![vec![3]], vec![vec![]], empty, vec![vec![3]]]
    );
}

#[test]
fn table_history_keys_came_from_polls() {
    let mut poller = DevicePoller::new();
    let mut table = DeviceTable::new();
    let manager = manager_with(&[(1, "One"), (2, "Two"), (3, "Three")]);
    poller.poll(&mut table, &manager, &vec![], &vec![1, 2]);
    table.apply_reading(2, 30, false);
    table.apply_reading(9, 30, false);
    poller.poll(&mut table, &manager, &vec![1], &vec![3]);
    poller.poll(&mut table, &manager, &vec![], &vec![1]);
    let mut ids = table.ids();
    ids.sort();
    assert_eq!(ids, vec![1, 2, 3]);
    let d = table.remove(2).unwrap();
    assert_eq!(d.pid, 2);
    assert_eq!(d.battery_level, 30);
    let d = table.remove(1).unwrap();
    assert_eq!(d.pid, 1);
    assert_eq!(d.battery_level, -1);
}
