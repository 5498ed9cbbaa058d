use razer_battery_report::manager::{
    find_device, find_model, is_listed, match_hid_device, ConnectedDevice, DeviceInfo, DeviceManager,
    HidDeviceInfo,
};

fn model(name: &str, pid: u16, interface: u8) -> DeviceInfo {
    DeviceInfo { name: name.to_string(), vid: 0x1532, pid, interface, usage_page: 0x0c, usage: 1 }
}

fn hid(pid: u16, interface_number: i32, usage_page: u16) -> HidDeviceInfo {
    HidDeviceInfo { vendor_id: 0x1532, product_id: pid, interface_number, usage_page, usage: 1 }
}

fn dev(pid: u16, name: &str) -> ConnectedDevice {
    ConnectedDevice { pid, name: name.to_string() }
}

fn sorted(mut v: Vec<u32>) -> Vec<u32> {
    v.sort();
    v
}

#[test]
fn find_model_takes_last_entry_with_ids() {
    let known = vec![model("A", 0x00b6, 0), model("B", 0x00b7, 0), model("C", 0x00b6, 2)];
    assert_eq!(find_model(&known, 0x1532, 0x00b6), Some(2));
    assert_eq!(find_model(&known, 0x1532, 0x00b7), Some(1));
    assert_eq!(find_model(&known, 0x1532, 0x0001), None);
    assert_eq!(find_model(&known, 0x046d, 0x00b7), None);
    assert!(is_listed(&known, 0x1532, 0x00b7));
    assert!(!is_listed(&known, 0x1532, 0x00b8));
}

#[test]
fn hid_device_matches_interface_and_usage() {
    let known = vec![model("DeathAdder V3 Pro", 0x00b6, 0), model("Viper V2 Pro", 0x00a5, 0)];
    assert_eq!(match_hid_device(&known, &hid(0x00b6, 0, 0x0c), true), Some(0));
    assert_eq!(match_hid_device(&known, &hid(0x00b6, 1, 0x0c), true), None);
    assert_eq!(match_hid_device(&known, &hid(0x00b6, 0, 0x01), true), None);
    assert_eq!(match_hid_device(&known, &hid(0x00b6, 0, 0x01), false), Some(0));
    assert_eq!(match_hid_device(&known, &hid(0x00ff, 0, 0x0c), true), None);
}

#[test]
fn find_device_takes_first_with_id() {
    let devices = vec![dev(5, "x"), dev(7, "y"), dev(7, "z")];
    assert_eq!(find_device(&devices, 7), Some(1));
    assert_eq!(find_device(&devices, 5), Some(0));
    assert_eq!(find_device(&devices, 6), None);
}

#[test]
fn fetch_devices_reports_left_and_arrived() {
    let mut m = DeviceManager::new();
    let (removed, connected) = m.fetch_devices(vec![dev(1, "a"), dev(2, "b"), dev(2, "b2")]);
    assert_eq!(removed, Vec::<u32>::new());
    assert_eq!(sorted(connected), vec![1, 2]);
    let (removed, connected) = m.fetch_devices(vec![dev(2, "b"), dev(3, "c")]);
    assert_eq!(removed, vec![1]);
    assert_eq!(connected, vec![3]);
    let (removed, connected) = m.fetch_devices(vec![dev(2, "b"), dev(3, "c")]);
    assert!(removed.is_empty());
    assert!(connected.is_empty());
    let (removed, connected) = m.fetch_devices(vec![]);
    assert_eq!(sorted(removed), vec![2, 3]);
    assert!(connected.is_empty());
}

#[test]
fn fetch_devices_diffs_never_overlap() {
    let mut m = DeviceManager::new();
    m.fetch_devices(vec![dev(1, "a"), dev(2, "b")]);
    let (removed, connected) = m.fetch_devices(vec![dev(2, "b"), dev(4, "d")]);
    for x in &removed {
        assert!(!connected.contains(x));
    }
    assert_eq!(removed, vec![1]);
    assert_eq!(connected, vec![4]);
}

#[test]
fn device_name_lookup() {
    let mut m = DeviceManager::new();
    m.fetch_devices(vec![dev(0x00b6, "Razer DeathAdder V3 Pro"), dev(0x00b6, "other")]);
    assert_eq!(m.get_device_name(0x00b6), Some("Razer DeathAdder V3 Pro".to_string()));
    assert_eq!(m.get_device_name(0x00b7), None);
    assert_eq!(m.device_index(0x00b6), Some(0));
    assert_eq!(m.device_index(0x10000 + 0x00b6), None);
}
