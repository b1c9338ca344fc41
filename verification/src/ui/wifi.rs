//! The Wi-Fi view: signal icons and the footer under the list of networks.
use vstd::prelude::*;

use crate::search::{first_match, lemma_first_match_spec};
use crate::services::network::{
    named, networks_view, position_of_ssid, sort_by_strength, sort_networks_by_strength, WifiNetwork,
    WifiNetworkView,
};
use crate::services::{clone_opt_string, opt_str_view};
use crate::text::{chars_of, concat, string_of};

verus! {

broadcast use vstd::string::group_string_axioms;

/// The icon for a signal strength: excellent from 75, good from 50, ok from
/// 25, else weak.
pub open spec fn signal_icon_name(strength: u8) -> Seq<char> {
    if strength >= 75 {
        "network-wireless-signal-excellent-symbolic"@
    } else if strength >= 50 {
        "network-wireless-signal-good-symbolic"@
    } else if strength >= 25 {
        "network-wireless-signal-ok-symbolic"@
    } else {
        "network-wireless-signal-weak-symbolic"@
    }
}

/// The icon for a signal strength.
pub fn signal_icon(strength: u8) -> (r: &'static str)
    ensures
        r@ == signal_icon_name(strength),
{
    if strength >= 75 {
        "network-wireless-signal-excellent-symbolic"
    } else if strength >= 50 {
        "network-wireless-signal-good-symbolic"
    } else if strength >= 25 {
        "network-wireless-signal-ok-symbolic"
    } else {
        "network-wireless-signal-weak-symbolic"
    }
}

/// What the footer under a list shows: a status line, and which of the two
/// buttons can be pressed.
#[derive(Debug, Clone, PartialEq, Eq)]
pub struct FooterState {
    pub label: String,
    pub connect_sensitive: bool,
    pub disconnect_sensitive: bool,
}

/// The footer for the selected network: `<ssid> connected` with only
/// Disconnect available where it is connected, `<ssid>` with only Connect
/// available where it is not; without a selected, listed network, a prompt
/// and no button.
pub open spec fn wifi_footer_of(selection: Option<Seq<char>>, nets: Seq<WifiNetwork>) -> (Seq<char>, bool, bool) {
    match selection {
        Some(ssid) => match first_match(networks_view(nets), named(ssid)) {
            Some(i) => if nets[i].connected {
                (ssid + " connected"@, false, true)
            } else {
                (ssid, true, false)
            },
            None => ("Select a network"@, false, false),
        },
        None => ("Select a network"@, false, false),
    }
}

/// The footer for the selected network.
pub fn wifi_footer(selection: &Option<String>, networks: &Vec<WifiNetwork>) -> (r: FooterState)
    ensures
        (r.label@, r.connect_sensitive, r.disconnect_sensitive) == wifi_footer_of(
            opt_str_view(*selection),
            networks@,
        ),
        !(r.connect_sensitive && r.disconnect_sensitive),
{
    if let Some(ssid) = selection {
        if let Some(i) = position_of_ssid(networks, ssid) {
            proof {
                lemma_first_match_spec(networks_view(networks@), named(ssid@));
            }
            let connected = networks[i].connected;
            let label = if connected {
                string_of(&concat(&chars_of(ssid.as_str()), &chars_of(" connected")))
            } else {
                ssid.clone()
            };
            return FooterState {
                label,
                connect_sensitive: !connected,
                disconnect_sensitive: connected,
            };
        }
    }
    FooterState {
        label: "Select a network".to_string(),
        connect_sensitive: false,
        disconnect_sensitive: false,
    }
}

// ---------------------------------------------------------------------------
// Refreshing the list
// ---------------------------------------------------------------------------

/// What the list of networks shows once the daemon has answered: its rows,
/// the single line shown in their place where there is none, the row to
/// select, and the selection that is kept.
pub struct WifiListUpdate {
    pub networks: Vec<WifiNetwork>,
    pub placeholder: Option<String>,
    pub selected_row: Option<usize>,
    pub selection: Option<String>,
}

/// An optional index as an integer.
pub open spec fn opt_index(o: Option<usize>) -> Option<int> {
    match o {
        Some(i) => Some(i as int),
        None => None,
    }
}

/// The row to select again: that of the network selected before, where it is
/// still listed.
pub open spec fn reselected_network(previous: Option<Seq<char>>, rows: Seq<WifiNetworkView>) -> Option<int> {
    match previous {
        Some(ssid) => first_match(rows, named(ssid)),
        None => None,
    }
}

/// The list of networks after the daemon's answer: on a listing, the networks
/// from strongest to weakest ("No networks found" in their place where there
/// is none), the previously selected network selected again where it is
/// still listed, and the selection kept; on an error, `Error: <message>`
/// alone and no selection.
pub fn wifi_list_update(previous: &Option<String>, listing: Result<Vec<WifiNetwork>, String>) -> (r: WifiListUpdate)
    ensures
        match listing {
            Ok(nets) => {
                &&& networks_view(r.networks@) == sort_by_strength(networks_view(nets@))
                &&& opt_str_view(r.placeholder) == (if r.networks@.len() == 0 {
                    Some("No networks found"@)
                } else {
                    None
                })
                &&& opt_index(r.selected_row) == reselected_network(
                    opt_str_view(*previous),
                    networks_view(r.networks@),
                )
                &&& opt_str_view(r.selection) == opt_str_view(*previous)
            },
            Err(msg) => {
                &&& r.networks@.len() == 0
                &&& opt_str_view(r.placeholder) == Some("Error: "@ + msg@)
                &&& r.selected_row is None
                &&& r.selection is None
            },
        },
{
    match listing {
        Ok(nets) => {
            let networks = sort_networks_by_strength(&nets);
            let placeholder = if networks.len() == 0 {
                Some("No networks found".to_string())
            } else {
                None
            };
            let selected_row = match previous {
                Some(ssid) => position_of_ssid(&networks, ssid),
                None => None,
            };
            WifiListUpdate { networks, placeholder, selected_row, selection: clone_opt_string(previous) }
        },
        Err(msg) => {
            let line = string_of(&concat(&chars_of("Error: "), &chars_of(msg.as_str())));
            WifiListUpdate { networks: Vec::new(), placeholder: Some(line), selected_row: None, selection: None }
        },
    }
}

} // verus!
