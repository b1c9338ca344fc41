use niri_bar::services::bluetooth::{
    device_index_for_address, first_connected_device, parse_device, position_of_mac, DeviceProperties,
};
use niri_bar::services::deviced::BluetoothDevice;
use niri_bar::services::network::{
    access_point_network, first_connected_network, is_wifi_device_type, merge_access_points,
    position_of_ssid, sort_networks_by_strength, WifiNetwork,
};
use niri_bar::services::power::{PowerActionType, PowerOutcome, PowerService};

fn net(ssid: &str, strength: u8, path: &str) -> WifiNetwork {
    WifiNetwork { ssid: ssid.to_string(), strength, secure: false, connected: false, path: path.to_string() }
}

#[test]
fn access_points_merge_to_strongest_per_name_sorted() {
    let aps = vec![
        net("home", 40, "/ap/1"),
        net("", 99, "/ap/2"),
        net("cafe", 70, "/ap/3"),
        net("home", 80, "/ap/4"),
        net("home", 80, "/ap/5"),
        net("office", 70, "/ap/6"),
        net("cafe", 10, "/ap/7"),
    ];
    let list = merge_access_points(&aps);
    assert_eq!(list, vec![net("home", 80, "/ap/4"), net("cafe", 70, "/ap/3"), net("office", 70, "/ap/6")]);
    assert!(merge_access_points(&vec![]).is_empty());
}

#[test]
fn sort_by_strength_is_stable_descending() {
    let nets = vec![net("a", 10, "1"), net("b", 50, "2"), net("c", 10, "3"), net("d", 90, "4"), net("e", 50, "5")];
    let sorted = sort_networks_by_strength(&nets);
    let names: Vec<&str> = sorted.iter().map(|n| n.ssid.as_str()).collect();
    assert_eq!(names, vec!["d", "b", "e", "a", "c"]);
}

#[test]
fn access_point_security_and_connection() {
    let active = Some("home".to_string());
    let n = access_point_network(b"home", 55, 1, 0, 0, &active, "/ap/9".to_string());
    assert_eq!(n, WifiNetwork { ssid: "home".into(), strength: 55, secure: true, connected: true, path: "/ap/9".into() });
    let open = access_point_network(b"cafe", 20, 0, 0, 0, &active, "/ap/1".to_string());
    assert!(!open.secure && !open.connected);
    let wpa = access_point_network(b"x", 20, 2, 0, 0x188, &None, "/p".to_string());
    assert!(wpa.secure && !wpa.connected);
    let lossy = access_point_network(&[0x66, 0xff, 0x6f], 1, 0, 4, 0, &None, "/q".to_string());
    assert_eq!(lossy.ssid, "f\u{FFFD}o");
    assert!(lossy.secure);
}

#[test]
fn wifi_helpers() {
    assert!(is_wifi_device_type(2));
    assert!(!is_wifi_device_type(1));
    let mut nets = vec![net("a", 1, "1"), net("b", 2, "2")];
    assert_eq!(first_connected_network(&nets), None);
    nets[1].connected = true;
    assert_eq!(first_connected_network(&nets).map(|n| n.ssid), Some("b".to_string()));
    assert_eq!(position_of_ssid(&nets, &"b".to_string()), Some(1));
    assert_eq!(position_of_ssid(&nets, &"z".to_string()), None);
}

#[test]
fn device_properties_give_device() {
    let props = DeviceProperties {
        address: Some("AA:BB".into()),
        name: None,
        alias: Some("Buds".into()),
        connected: Some(true),
    };
    assert_eq!(
        parse_device(&props),
        Some(BluetoothDevice { name: "Buds".into(), mac: "AA:BB".into(), connected: true })
    );
    let bare = DeviceProperties { address: Some("CC".into()), name: None, alias: None, connected: None };
    assert_eq!(parse_device(&bare), Some(BluetoothDevice { name: "CC".into(), mac: "CC".into(), connected: false }));
    let named = DeviceProperties { address: Some("DD".into()), name: Some("Mouse".into()), alias: Some("m".into()), connected: Some(false) };
    assert_eq!(parse_device(&named).map(|d| d.name), Some("Mouse".to_string()));
    let none = DeviceProperties { address: None, name: Some("x".into()), alias: None, connected: Some(true) };
    assert_eq!(parse_device(&none), None);
}

#[test]
fn device_lookups() {
    let devs = vec![
        BluetoothDevice { name: "a".into(), mac: "1".into(), connected: false },
        BluetoothDevice { name: "b".into(), mac: "2".into(), connected: true },
        BluetoothDevice { name: "c".into(), mac: "3".into(), connected: true },
    ];
    assert_eq!(first_connected_device(&devs).map(|d| d.mac), Some("2".to_string()));
    assert_eq!(position_of_mac(&devs, &"3".to_string()), Some(2));
    let addrs = vec![None, Some("X".to_string()), Some("Y".to_string())];
    assert_eq!(device_index_for_address(&addrs, &"Y".to_string()), Some(2));
    assert_eq!(device_index_for_address(&addrs, &"Z".to_string()), None);
}

#[test]
fn power_commands_and_outcomes() {
    let p = PowerService::new_stub();
    let c = p.command_for(PowerActionType::Shutdown);
    assert_eq!((c.program, c.args), ("systemctl", vec!["poweroff"]));
    let c = p.command_for(PowerActionType::Reboot);
    assert_eq!((c.program, c.args), ("systemctl", vec!["reboot"]));
    let c = p.command_for(PowerActionType::Logout);
    assert_eq!((c.program, c.args), ("loginctl", vec!["terminate-session", "self"]));
    assert!(matches!(p.outcome(PowerActionType::Reboot, true), PowerOutcome::Succeeded));
    match p.outcome(PowerActionType::Shutdown, false) {
        PowerOutcome::Failed { message } => assert_eq!(message, "systemctl poweroff failed"),
        _ => panic!("shutdown failure expected"),
    }
    match p.outcome(PowerActionType::Reboot, false) {
        PowerOutcome::Failed { message } => assert_eq!(message, "systemctl reboot failed"),
        _ => panic!("reboot failure expected"),
    }
    match p.outcome(PowerActionType::Logout, false) {
        PowerOutcome::Fallback { command } => {
            assert_eq!((command.program, command.args), ("niri", vec!["msg", "action", "quit"]))
        }
        _ => panic!("logout falls back"),
    }
}
