//! Bluetooth devices as BlueZ's `org.bluez.Device1` objects describe them.
use vstd::prelude::*;

use crate::search::{first_match, lemma_first_match_at, lemma_first_match_none};
use crate::services::deviced::{BluetoothDevice, BluetoothDeviceView};
use crate::services::{clone_opt_string, opt_str_view};

verus! {

broadcast use vstd::string::group_string_axioms;

/// The properties of a BlueZ device object that the panel reads (each one
/// where it is present with the expected type).
#[derive(Debug, Clone)]
pub struct DeviceProperties {
    pub address: Option<String>,
    pub name: Option<String>,
    pub alias: Option<String>,
    pub connected: Option<bool>,
}

/// The device that a device object describes: none without an address; its
/// name is the `Name`, else the `Alias`, else the address; it is connected
/// only where `Connected` says so.
pub open spec fn device_of(props: DeviceProperties) -> Option<BluetoothDeviceView> {
    match props.address {
        None => None,
        Some(address) => Some(
            BluetoothDeviceView {
                name: match (props.name, props.alias) {
                    (Some(n), _) => n@,
                    (None, Some(a)) => a@,
                    (None, None) => address@,
                },
                mac: address@,
                connected: match props.connected {
                    Some(c) => c,
                    None => false,
                },
            },
        ),
    }
}

/// The device that a device object describes.
pub fn parse_device(props: &DeviceProperties) -> (r: Option<BluetoothDevice>)
    ensures
        match (r, device_of(*props)) {
            (Some(d), Some(v)) => d@ == v,
            (None, None) => true,
            _ => false,
        },
        r is Some <==> props.address is Some,
        r matches Some(d) ==> d.mac@ == props.address->0@ && d.connected == (props.connected
            == Some(true)),
{
    let address = match &props.address {
        Some(a) => a.clone(),
        None => return None,
    };
    let name = match &props.name {
        Some(n) => n.clone(),
        None => match &props.alias {
            Some(a) => a.clone(),
            None => address.clone(),
        },
    };
    let connected = match props.connected {
        Some(c) => c,
        None => false,
    };
    Some(BluetoothDevice { name, mac: address, connected })
}

/// A device object with an address gives a device with that address, named
/// by its `Name`, else its `Alias`, else its address, and connected exactly
/// where its `Connected` property is present and true; one without an
/// address gives none.
pub proof fn lemma_device_fields(props: DeviceProperties)
    ensures
        device_of(props) is Some <==> props.address is Some,
        device_of(props) matches Some(d) ==> {
            &&& d.mac == props.address->0@
            &&& d.connected == (props.connected == Some(true))
            &&& (props.name matches Some(n) ==> d.name == n@)
            &&& (props.name is None ==> (props.alias matches Some(a) ==> d.name == a@))
            &&& (props.name is None && props.alias is None ==> d.name == props.address->0@)
        },
{
}

/// The views of a sequence of devices.
pub open spec fn devices_view(s: Seq<BluetoothDevice>) -> Seq<BluetoothDeviceView> {
    s.map_values(|d: BluetoothDevice| d@)
}

/// A copy of a device.
pub fn clone_device(d: &BluetoothDevice) -> (r: BluetoothDevice)
    ensures
        r@ == d@,
{
    BluetoothDevice { name: d.name.clone(), mac: d.mac.clone(), connected: d.connected }
}

/// A device is connected.
pub open spec fn is_connected_device() -> spec_fn(BluetoothDeviceView) -> bool {
    |d: BluetoothDeviceView| d.connected
}

/// The first connected device of a list.
pub fn first_connected_device(devices: &Vec<BluetoothDevice>) -> (r: Option<BluetoothDevice>)
    ensures
        match first_match(devices_view(devices@), is_connected_device()) {
            Some(i) => r matches Some(d) && d@ == devices_view(devices@)[i],
            None => r is None,
        },
{
    let ghost s = devices_view(devices@);
    let mut i: usize = 0;
    while i < devices.len()
        invariant
            i <= devices.len(),
            s == devices_view(devices@),
            forall|j: int| 0 <= j < i ==> !is_connected_device()(#[trigger] s[j]),
        decreases devices.len() - i,
    {
        if devices[i].connected {
            proof {
                lemma_first_match_at(s, is_connected_device(), i as int);
            }
            return Some(clone_device(&devices[i]));
        }
        i += 1;
    }
    proof {
        lemma_first_match_none(s, is_connected_device());
    }
    None
}

/// An address is present and equal to `mac`.
pub open spec fn is_address(mac: Seq<char>) -> spec_fn(Option<Seq<char>>) -> bool {
    |a: Option<Seq<char>>| a == Some(mac)
}

/// The index of the first device object whose address is `mac`.
pub fn device_index_for_address(addresses: &Vec<Option<String>>, mac: &String) -> (r: Option<usize>)
    ensures
        match r {
            Some(i) => first_match(addresses@.map_values(|a: Option<String>| opt_str_view(a)), is_address(mac@)) == Some(i as int),
            None => first_match(addresses@.map_values(|a: Option<String>| opt_str_view(a)), is_address(mac@)) is None,
        },
{
    let ghost s = addresses@.map_values(|a: Option<String>| opt_str_view(a));
    let mut i: usize = 0;
    while i < addresses.len()
        invariant
            i <= addresses.len(),
            s == addresses@.map_values(|a: Option<String>| opt_str_view(a)),
            forall|j: int| 0 <= j < i ==> !is_address(mac@)(#[trigger] s[j]),
        decreases addresses.len() - i,
    {
        let matches = match &addresses[i] {
            Some(a) => *a == *mac,
            None => false,
        };
        if matches {
            proof {
                lemma_first_match_at(s, is_address(mac@), i as int);
            }
            return Some(i);
        }
        i += 1;
    }
    proof {
        lemma_first_match_none(s, is_address(mac@));
    }
    None
}

/// The index of the first device with the given address.
pub fn position_of_mac(devices: &Vec<BluetoothDevice>, mac: &String) -> (r: Option<usize>)
    ensures
        match r {
            Some(i) => first_match(devices_view(devices@), has_mac(mac@)) == Some(i as int),
            None => first_match(devices_view(devices@), has_mac(mac@)) is None,
        },
{
    let ghost s = devices_view(devices@);
    let mut i: usize = 0;
    while i < devices.len()
        invariant
            i <= devices.len(),
            s == devices_view(devices@),
            forall|j: int| 0 <= j < i ==> !has_mac(mac@)(#[trigger] s[j]),
        decreases devices.len() - i,
    {
        if devices[i].mac == *mac {
            proof {
                lemma_first_match_at(s, has_mac(mac@), i as int);
            }
            return Some(i);
        }
        i += 1;
    }
    proof {
        lemma_first_match_none(s, has_mac(mac@));
    }
    None
}

/// A device has the given address.
pub open spec fn has_mac(mac: Seq<char>) -> spec_fn(BluetoothDeviceView) -> bool {
    |d: BluetoothDeviceView| d.mac == mac
}

} // verus!
