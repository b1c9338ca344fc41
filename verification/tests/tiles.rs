use niri_bar::services::deviced::BluetoothDevice;
use niri_bar::services::network::WifiNetwork;
use niri_bar::ui::bluetooth::bluetooth_list_update;
use niri_bar::ui::quick_settings::{
    connection_tile, status_changed, tile_classes, toggle_panel, warp_tile, PanelStep, TileStyle,
    TileText,
};
use niri_bar::ui::wifi::wifi_list_update;

fn tile(label: &str, sublabel: &str, style: TileStyle) -> TileText {
    TileText { label: label.into(), sublabel: sublabel.into(), style }
}

fn net(ssid: &str, strength: u8) -> WifiNetwork {
    WifiNetwork { ssid: ssid.into(), strength, secure: false, connected: false, path: format!("/ap/{ssid}") }
}

fn dev(name: &str, mac: &str) -> BluetoothDevice {
    BluetoothDevice { name: name.into(), mac: mac.into(), connected: false }
}

#[test]
fn connection_tiles_name_the_connection_or_say_why_not() {
    assert_eq!(
        connection_tile("Wi-Fi", &Some(Some("home".into()))),
        tile("home", "● Connected", TileStyle::Connected)
    );
    assert_eq!(connection_tile("Wi-Fi", &Some(None)), tile("Wi-Fi", "Not connected", TileStyle::Plain));
    assert_eq!(connection_tile("Bluetooth", &None), tile("Bluetooth", "Unavailable", TileStyle::Plain));
}

#[test]
fn warp_tile_by_status() {
    assert_eq!(warp_tile(Some(true)), tile("Warp", "● Connected", TileStyle::Connected));
    assert_eq!(warp_tile(Some(false)), tile("Warp", "Disconnected", TileStyle::Plain));
    assert_eq!(warp_tile(None), tile("Warp", "Unavailable", TileStyle::Plain));
}

#[test]
fn tile_classes_mark_connected_tiles() {
    assert_eq!(tile_classes(TileStyle::Plain), vec!["qs-secondary"]);
    assert_eq!(tile_classes(TileStyle::Connected), vec!["qs-secondary", "connected"]);
}

#[test]
fn tiles_redraw_only_on_change() {
    assert!(!status_changed("connected:home", "connected:home"));
    assert!(status_changed("connected:home", "disconnected"));
    assert!(status_changed("", "error"));
}

#[test]
fn toggling_shows_then_hides() {
    assert_eq!(toggle_panel(false), (true, PanelStep::ShowAndRefresh));
    assert_eq!(toggle_panel(true), (false, PanelStep::Hide));
}

#[test]
fn wifi_list_sorted_with_selection_kept() {
    let u = wifi_list_update(&Some("b".into()), Ok(vec![net("a", 10), net("b", 90), net("c", 50)]));
    assert_eq!(u.networks, vec![net("b", 90), net("c", 50), net("a", 10)]);
    assert_eq!(u.placeholder, None);
    assert_eq!(u.selected_row, Some(0));
    assert_eq!(u.selection, Some("b".to_string()));

    let gone = wifi_list_update(&Some("z".into()), Ok(vec![net("a", 10)]));
    assert_eq!(gone.selected_row, None);
    assert_eq!(gone.selection, Some("z".to_string()));

    let empty = wifi_list_update(&None, Ok(vec![]));
    assert_eq!(empty.placeholder, Some("No networks found".to_string()));
    assert_eq!(empty.selected_row, None);
}

#[test]
fn wifi_list_error_clears_everything() {
    let u = wifi_list_update(&Some("a".into()), Err("daemon not running".into()));
    assert!(u.networks.is_empty());
    assert_eq!(u.placeholder, Some("Error: daemon not running".to_string()));
    assert_eq!(u.selected_row, None);
    assert_eq!(u.selection, None);
}

#[test]
fn bluetooth_list_keeps_order_and_reselects() {
    let u = bluetooth_list_update(&Some("BB".into()), Ok(vec![dev("x", "AA"), dev("y", "BB")]));
    assert_eq!(u.devices, vec![dev("x", "AA"), dev("y", "BB")]);
    assert_eq!(u.placeholder, None);
    assert_eq!(u.selected_row, Some(1));
    assert_eq!(u.selection, Some("BB".to_string()));

    let empty = bluetooth_list_update(&None, Ok(vec![]));
    assert_eq!(empty.placeholder, Some("No devices found".to_string()));

    let err = bluetooth_list_update(&Some("BB".into()), Err("no adapter".into()));
    assert!(err.devices.is_empty());
    assert_eq!(err.placeholder, Some("Error: no adapter".to_string()));
    assert_eq!(err.selection, None);
}
