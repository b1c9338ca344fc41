//! The Bluetooth view: the footer under the list of devices.
use vstd::prelude::*;

use crate::search::{first_match, lemma_first_match_spec};
use crate::services::bluetooth::{devices_view, has_mac, position_of_mac};
use crate::services::deviced::{BluetoothDevice, BluetoothDeviceView};
use crate::services::{clone_opt_string, opt_str_view};
use crate::text::{chars_of, concat, string_of};
use crate::ui::wifi::{opt_index, FooterState};

verus! {

broadcast use vstd::string::group_string_axioms;

/// The footer for the selected device: its name (its address where the name
/// is empty), followed by ` connected` with only Disconnect available where it
/// is connected, or alone with only Connect available; without a selected,
/// listed device, a prompt and no button.
pub open spec fn bluetooth_footer_of(selection: Option<Seq<char>>, devices: Seq<BluetoothDevice>) -> (Seq<char>, bool, bool) {
    match selection {
        Some(mac) => match first_match(devices_view(devices), has_mac(mac)) {
            Some(i) => {
                let shown = if devices[i].name@.len() == 0 {
                    mac
                } else {
                    devices[i].name@
                };
                if devices[i].connected {
                    (shown + " connected"@, false, true)
                } else {
                    (shown, true, false)
                }
            },
            None => ("Select a device"@, false, false),
        },
        None => ("Select a device"@, false, false),
    }
}

/// The footer for the selected device.
pub fn bluetooth_footer(selection: &Option<String>, devices: &Vec<BluetoothDevice>) -> (r: FooterState)
    ensures
        (r.label@, r.connect_sensitive, r.disconnect_sensitive) == bluetooth_footer_of(
            opt_str_view(*selection),
            devices@,
        ),
        !(r.connect_sensitive && r.disconnect_sensitive),
{
    if let Some(mac) = selection {
        if let Some(i) = position_of_mac(devices, mac) {
            proof {
                lemma_first_match_spec(devices_view(devices@), has_mac(mac@));
            }
            let connected = devices[i].connected;
            let shown = if devices[i].name.as_str().is_empty() {
                mac.clone()
            } else {
                devices[i].name.clone()
            };
            let label = if connected {
                string_of(&concat(&chars_of(shown.as_str()), &chars_of(" connected")))
            } else {
                shown
            };
            return FooterState {
                label,
                connect_sensitive: !connected,
                disconnect_sensitive: connected,
            };
        }
    }
    FooterState {
        label: "Select a device".to_string(),
        connect_sensitive: false,
        disconnect_sensitive: false,
    }
}

// ---------------------------------------------------------------------------
// Refreshing the list
// ---------------------------------------------------------------------------

/// What the list of devices shows once the daemon has answered: its rows,
/// the single line shown in their place where there is none, the row to
/// select, and the selection that is kept.
pub struct BluetoothListUpdate {
    pub devices: Vec<BluetoothDevice>,
    pub placeholder: Option<String>,
    pub selected_row: Option<usize>,
    pub selection: Option<String>,
}

/// The row to select again: that of the device selected before, where it is
/// still listed.
pub open spec fn reselected_device(previous: Option<Seq<char>>, rows: Seq<BluetoothDeviceView>) -> Option<int> {
    match previous {
        Some(mac) => first_match(rows, has_mac(mac)),
        None => None,
    }
}

/// The list of devices after the daemon's answer: on a listing, the devices
/// in the order given ("No devices found" in their place where there is
/// none), the previously selected device selected again where it is still
/// listed, and the selection kept; on an error, `Error: <message>` alone and
/// no selection.
pub fn bluetooth_list_update(previous: &Option<String>, listing: Result<Vec<BluetoothDevice>, String>) -> (r: BluetoothListUpdate)
    ensures
        match listing {
            Ok(devices) => {
                &&& r.devices@ == devices@
                &&& opt_str_view(r.placeholder) == (if devices@.len() == 0 {
                    Some("No devices found"@)
                } else {
                    None
                })
                &&& opt_index(r.selected_row) == reselected_device(
                    opt_str_view(*previous),
                    devices_view(devices@),
                )
                &&& opt_str_view(r.selection) == opt_str_view(*previous)
            },
            Err(msg) => {
                &&& r.devices@.len() == 0
                &&& opt_str_view(r.placeholder) == Some("Error: "@ + msg@)
                &&& r.selected_row is None
                &&& r.selection is None
            },
        },
{
    match listing {
        Ok(devices) => {
            let placeholder = if devices.len() == 0 {
                Some("No devices found".to_string())
            } else {
                None
            };
            let selected_row = match previous {
                Some(mac) => position_of_mac(&devices, mac),
                None => None,
            };
            BluetoothListUpdate { devices, placeholder, selected_row, selection: clone_opt_string(previous) }
        },
        Err(msg) => {
            let line = string_of(&concat(&chars_of("Error: "), &chars_of(msg.as_str())));
            BluetoothListUpdate { devices: Vec::new(), placeholder: Some(line), selected_row: None, selection: None }
        },
    }
}

} // verus!
