use niri_bar::services::deviced::BluetoothDevice;
use niri_bar::services::network::WifiNetwork;
use niri_bar::ui::bluetooth::bluetooth_footer;
use niri_bar::ui::quick_settings::{
    audio_refresh_needed, battery_capacity, battery_device, battery_icon, battery_label,
    battery_percentage, brightness_argument, brightness_percent, percent_label, profile_from_output,
    profile_name, status_key, warp_connected, warp_status_key, warp_toggle_command, PowerProfile,
};
use niri_bar::ui::wifi::{signal_icon, wifi_footer, FooterState};

#[test]
fn battery_icons_by_charge() {
    assert_eq!(battery_icon(100), "󰁹");
    assert_eq!(battery_icon(80), "󰁹");
    assert_eq!(battery_icon(79), "󰂀");
    assert_eq!(battery_icon(50), "󰂀");
    assert_eq!(battery_icon(49), "󰂂");
    assert_eq!(battery_icon(20), "󰂂");
    assert_eq!(battery_icon(19), "󰂃");
    assert_eq!(battery_icon(0), "󰂃");
    assert_eq!(battery_icon(150), "󰂃");
    assert_eq!(battery_label(98), "󰁹 98%");
    assert_eq!(battery_label(7), "󰂃 7%");
}

#[test]
fn percent_labels() {
    assert_eq!(percent_label(0), "0%");
    assert_eq!(percent_label(65), "65%");
    assert_eq!(percent_label(4294967295), "4294967295%");
    assert_eq!(brightness_argument(40), "40%");
    assert_eq!(brightness_argument(250), "100%");
}

#[test]
fn upower_outputs() {
    let list = "/org/freedesktop/UPower/devices/line_power_AC\n  /org/freedesktop/UPower/devices/battery_BAT0  \n/org/freedesktop/UPower/devices/DisplayDevice\n";
    assert_eq!(battery_device(list), Some("/org/freedesktop/UPower/devices/battery_BAT0".to_string()));
    assert_eq!(battery_device("nothing\n"), None);
    let info = "  native-path:          BAT0\n  battery\n    state:               discharging\n    percentage:          87%\n    capacity:            95.1%\n";
    assert_eq!(battery_percentage(info), Some(87));
    assert_eq!(battery_percentage("    percentage:  87.5%\n"), None);
    assert_eq!(battery_percentage("no charge here"), None);
    assert_eq!(battery_percentage("percentage: +42%%\n"), Some(42));
    assert_eq!(battery_capacity(" 64\n"), Some(64));
    assert_eq!(battery_capacity("x"), None);
}

#[test]
fn brightnessctl_output() {
    let out = "Device 'intel_backlight' of class 'backlight':\n\tCurrent brightness: 9600 (50%)\n\tMax brightness: 19200\n";
    assert_eq!(brightness_percent(out), Some(50));
    assert_eq!(brightness_percent("\tCurrent brightness: 9600\n\tCurrent brightness: 1 (3%)\n"), None);
    assert_eq!(brightness_percent(""), None);
}

#[test]
fn connection_status_keys() {
    assert_eq!(status_key(&Some(Some("home".to_string()))), "connected:home");
    assert_eq!(status_key(&Some(None)), "disconnected");
    assert_eq!(status_key(&None), "error");
    assert!(audio_refresh_needed("connected:Buds", "disconnected"));
    assert!(audio_refresh_needed("disconnected", "connected:Buds"));
    assert!(!audio_refresh_needed("", "connected:Buds"));
    assert!(!audio_refresh_needed("connected:A", "connected:B"));
    assert!(!audio_refresh_needed("error", "disconnected"));
    assert_eq!(warp_status_key(Some(true)), "connected");
    assert_eq!(warp_status_key(Some(false)), "disconnected");
    assert_eq!(warp_status_key(None), "error");
}

#[test]
fn warp_status_and_toggle() {
    assert!(warp_connected("Status update: Connected\nReason: ...\n"));
    assert!(!warp_connected("Status update: Disconnected\n"));
    assert_eq!(warp_toggle_command("● Connected"), "disconnect");
    assert_eq!(warp_toggle_command("Disconnected"), "connect");
    assert_eq!(warp_toggle_command("Unavailable"), "connect");
}

#[test]
fn power_profiles() {
    assert_eq!(profile_from_output("power-saver\n"), Some(PowerProfile::PowerSaver));
    assert_eq!(profile_from_output(" balanced "), Some(PowerProfile::Balanced));
    assert_eq!(profile_from_output("performance"), Some(PowerProfile::Performance));
    assert_eq!(profile_from_output("turbo"), None);
    assert_eq!(profile_name(PowerProfile::PowerSaver), "power-saver");
    assert_eq!(profile_name(PowerProfile::Performance), "performance");
}

#[test]
fn signal_icons() {
    assert_eq!(signal_icon(100), "network-wireless-signal-excellent-symbolic");
    assert_eq!(signal_icon(75), "network-wireless-signal-excellent-symbolic");
    assert_eq!(signal_icon(74), "network-wireless-signal-good-symbolic");
    assert_eq!(signal_icon(50), "network-wireless-signal-good-symbolic");
    assert_eq!(signal_icon(25), "network-wireless-signal-ok-symbolic");
    assert_eq!(signal_icon(24), "network-wireless-signal-weak-symbolic");
}

fn footer(label: &str, c: bool, d: bool) -> FooterState {
    FooterState { label: label.to_string(), connect_sensitive: c, disconnect_sensitive: d }
}

#[test]
fn wifi_footer_states() {
    let nets = vec![
        WifiNetwork { ssid: "home".into(), strength: 80, secure: true, connected: true, path: "/1".into() },
        WifiNetwork { ssid: "cafe".into(), strength: 30, secure: false, connected: false, path: "/2".into() },
    ];
    assert_eq!(wifi_footer(&Some("home".into()), &nets), footer("home connected", false, true));
    assert_eq!(wifi_footer(&Some("cafe".into()), &nets), footer("cafe", true, false));
    assert_eq!(wifi_footer(&Some("gone".into()), &nets), footer("Select a network", false, false));
    assert_eq!(wifi_footer(&None, &nets), footer("Select a network", false, false));
}

#[test]
fn bluetooth_footer_states() {
    let devs = vec![
        BluetoothDevice { name: "Buds".into(), mac: "AA".into(), connected: true },
        BluetoothDevice { name: "".into(), mac: "BB".into(), connected: false },
    ];
    assert_eq!(bluetooth_footer(&Some("AA".into()), &devs), footer("Buds connected", false, true));
    assert_eq!(bluetooth_footer(&Some("BB".into()), &devs), footer("BB", true, false));
    assert_eq!(bluetooth_footer(&Some("CC".into()), &devs), footer("Select a device", false, false));
    assert_eq!(bluetooth_footer(&None, &devs), footer("Select a device", false, false));
}
