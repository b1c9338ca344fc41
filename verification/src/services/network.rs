//! Wi-Fi networks as NetworkManager's access points describe them.
//!
//! Every access point the Wi-Fi device sees becomes a network; access points
//! that share a name (SSID) become one network, the strongest one, and the
//! list is ordered from the strongest network to the weakest.
use vstd::prelude::*;
use vstd::utf8::{decode_utf8, valid_utf8};

use crate::search::{first_match, lemma_first_match_at, lemma_first_match_none, lemma_first_match_spec};
use crate::services::opt_str_view;

verus! {

broadcast use vstd::string::group_string_axioms;

/// A Wi-Fi network.
#[derive(Debug, Clone, PartialEq, Eq)]
pub struct WifiNetwork {
    pub ssid: String,
    pub strength: u8,
    pub secure: bool,
    pub connected: bool,
    pub path: String,
}

/// The mathematical content of a [`WifiNetwork`].
pub struct WifiNetworkView {
    pub ssid: Seq<char>,
    pub strength: u8,
    pub secure: bool,
    pub connected: bool,
    pub path: Seq<char>,
}

impl View for WifiNetwork {
    type V = WifiNetworkView;

    open spec fn view(&self) -> WifiNetworkView {
        WifiNetworkView {
            ssid: self.ssid@,
            strength: self.strength,
            secure: self.secure,
            connected: self.connected,
            path: self.path@,
        }
    }
}

/// The views of a sequence of networks.
pub open spec fn networks_view(s: Seq<WifiNetwork>) -> Seq<WifiNetworkView> {
    s.map_values(|n: WifiNetwork| n@)
}

/// A copy of a network.
pub fn clone_network(n: &WifiNetwork) -> (r: WifiNetwork)
    ensures
        r@ == n@,
{
    WifiNetwork {
        ssid: n.ssid.clone(),
        strength: n.strength,
        secure: n.secure,
        connected: n.connected,
        path: n.path.clone(),
    }
}

// ---------------------------------------------------------------------------
// One access point
// ---------------------------------------------------------------------------

/// What `String::from_utf8_lossy` returns for the bytes.
pub uninterp spec fn utf8_lossy(bytes: Seq<u8>) -> Seq<char>;

/// `String::from_utf8_lossy`: valid UTF-8 is decoded as it is.
#[verifier::external_body]
fn decode_utf8_lossy(bytes: &[u8]) -> (r: String)
    ensures
        r@ == utf8_lossy(bytes@),
        valid_utf8(bytes@) ==> r@ == decode_utf8(bytes@),
{
    String::from_utf8_lossy(bytes).into_owned()
}

/// An access point is secured: its privacy flag is set or it announces WPA
/// or RSN (WPA2) security.
pub open spec fn is_secure(flags: u32, wpa_flags: u32, rsn_flags: u32) -> bool {
    flags & 1 != 0 || wpa_flags != 0 || rsn_flags != 0
}

/// The network that an access point gives, from its properties.
pub open spec fn access_point_view(
    ssid_bytes: Seq<u8>,
    strength: u8,
    flags: u32,
    wpa_flags: u32,
    rsn_flags: u32,
    active_ssid: Option<Seq<char>>,
    path: Seq<char>,
) -> WifiNetworkView {
    WifiNetworkView {
        ssid: utf8_lossy(ssid_bytes),
        strength: strength,
        secure: is_secure(flags, wpa_flags, rsn_flags),
        connected: active_ssid == Some(utf8_lossy(ssid_bytes)),
        path: path,
    }
}

/// The network that an access point gives: its name decoded from the SSID
/// bytes, secured where any security flag is set, connected where its name
/// is that of the active connection.
pub fn access_point_network(
    ssid_bytes: &[u8],
    strength: u8,
    flags: u32,
    wpa_flags: u32,
    rsn_flags: u32,
    active_ssid: &Option<String>,
    path: String,
) -> (r: WifiNetwork)
    ensures
        r@ == access_point_view(
            ssid_bytes@,
            strength,
            flags,
            wpa_flags,
            rsn_flags,
            opt_str_view(*active_ssid),
            path@,
        ),
{
    let ssid = decode_utf8_lossy(ssid_bytes);
    let secure = flags & 1 != 0 || wpa_flags != 0 || rsn_flags != 0;
    let connected = match active_ssid {
        Some(a) => *a == ssid,
        None => false,
    };
    WifiNetwork { ssid, strength, secure, connected, path }
}

/// NetworkManager's device type of Wi-Fi devices.
pub open spec fn wifi_device_type() -> u32 {
    2
}

/// Whether a NetworkManager device type is that of a Wi-Fi device.
pub fn is_wifi_device_type(device_type: u32) -> (r: bool)
    ensures
        r == (device_type == wifi_device_type()),
{
    device_type == 2
}

// ---------------------------------------------------------------------------
// The list of networks
// ---------------------------------------------------------------------------

/// A network has the given name.
pub open spec fn named(ssid: Seq<char>) -> spec_fn(WifiNetworkView) -> bool {
    |n: WifiNetworkView| n.ssid == ssid
}

/// The networks after one more access point: an access point without a name
/// is dropped; one whose name is new is appended; one whose name is known
/// replaces the known network only where it is strictly stronger.
pub open spec fn merge_network(acc: Seq<WifiNetworkView>, n: WifiNetworkView) -> Seq<WifiNetworkView> {
    if n.ssid.len() == 0 {
        acc
    } else {
        match first_match(acc, named(n.ssid)) {
            Some(i) => if n.strength > acc[i].strength {
                acc.update(i, n)
            } else {
                acc
            },
            None => acc.push(n),
        }
    }
}

/// The networks of a sequence of access points, one per name, in the order in
/// which the names first appear.
pub open spec fn merge_networks(s: Seq<WifiNetworkView>) -> Seq<WifiNetworkView>
    decreases s.len(),
{
    if s.len() == 0 {
        Seq::empty()
    } else {
        merge_network(merge_networks(s.drop_last()), s.last())
    }
}

/// A network is weaker than `n`.
pub open spec fn weaker_than(n: WifiNetworkView) -> spec_fn(WifiNetworkView) -> bool {
    |m: WifiNetworkView| m.strength < n.strength
}

/// A list ordered from strongest to weakest, with `n` inserted after every
/// network at least as strong.
pub open spec fn insert_by_strength(sorted: Seq<WifiNetworkView>, n: WifiNetworkView) -> Seq<
    WifiNetworkView,
> {
    match first_match(sorted, weaker_than(n)) {
        Some(i) => sorted.insert(i, n),
        None => sorted.push(n),
    }
}

/// The networks ordered from strongest to weakest, networks of equal strength
/// keeping their order (`sort_by` on descending strength).
pub open spec fn sort_by_strength(s: Seq<WifiNetworkView>) -> Seq<WifiNetworkView>
    decreases s.len(),
{
    if s.len() == 0 {
        Seq::empty()
    } else {
        insert_by_strength(sort_by_strength(s.drop_last()), s.last())
    }
}

/// The networks ordered from strongest to weakest; networks of equal strength
/// keep their order.
pub fn sort_networks_by_strength(nets: &Vec<WifiNetwork>) -> (r: Vec<WifiNetwork>)
    ensures
        networks_view(r@) == sort_by_strength(networks_view(nets@)),
{
    let mut r: Vec<WifiNetwork> = Vec::new();
    let mut i: usize = 0;
    while i < nets.len()
        invariant
            i <= nets.len(),
            networks_view(r@) == sort_by_strength(networks_view(nets@).take(i as int)),
        decreases nets.len() - i,
    {
        let n = &nets[i];
        let ghost sorted = networks_view(r@);
        let ghost nv = networks_view(nets@)[i as int];
        assert(networks_view(nets@).take(i + 1).drop_last() =~= networks_view(nets@).take(i as int));
        let mut k: usize = 0;
        while k < r.len() && !(r[k].strength < n.strength)
            invariant
                k <= r.len(),
                sorted == networks_view(r@),
                nv == n@,
                forall|j: int| 0 <= j < k ==> !weaker_than(nv)(#[trigger] sorted[j]),
            decreases r.len() - k,
        {
            k += 1;
        }
        if k < r.len() {
            proof {
                lemma_first_match_at(sorted, weaker_than(nv), k as int);
            }
            r.insert(k, clone_network(n));
            assert(networks_view(r@) =~= sorted.insert(k as int, nv));
        } else {
            proof {
                lemma_first_match_none(sorted, weaker_than(nv));
            }
            r.push(clone_network(n));
            assert(networks_view(r@) =~= sorted.push(nv));
        }
        i += 1;
    }
    assert(networks_view(nets@).take(nets.len() as int) =~= networks_view(nets@));
    r
}

/// The networks of a sequence of access points, one per name (the first of
/// the strongest access points with that name), in the order in which the
/// names first appear.
fn merge_access_point_list(aps: &Vec<WifiNetwork>) -> (r: Vec<WifiNetwork>)
    ensures
        networks_view(r@) == merge_networks(networks_view(aps@)),
{
    let mut r: Vec<WifiNetwork> = Vec::new();
    let mut i: usize = 0;
    while i < aps.len()
        invariant
            i <= aps.len(),
            networks_view(r@) == merge_networks(networks_view(aps@).take(i as int)),
        decreases aps.len() - i,
    {
        let n = &aps[i];
        let ghost acc = networks_view(r@);
        let ghost nv = networks_view(aps@)[i as int];
        assert(networks_view(aps@).take(i + 1).drop_last() =~= networks_view(aps@).take(i as int));
        if !n.ssid.as_str().is_empty() {
            let mut k: usize = 0;
            while k < r.len() && !(r[k].ssid == n.ssid)
                invariant
                    k <= r.len(),
                    acc == networks_view(r@),
                    nv == n@,
                    forall|j: int| 0 <= j < k ==> !named(nv.ssid)(#[trigger] acc[j]),
                decreases r.len() - k,
            {
                k += 1;
            }
            if k < r.len() {
                proof {
                    lemma_first_match_at(acc, named(nv.ssid), k as int);
                }
                if n.strength > r[k].strength {
                    r.set(k, clone_network(n));
                    assert(networks_view(r@) =~= acc.update(k as int, nv));
                }
            } else {
                proof {
                    lemma_first_match_none(acc, named(nv.ssid));
                }
                r.push(clone_network(n));
                assert(networks_view(r@) =~= acc.push(nv));
            }
        }
        i += 1;
    }
    assert(networks_view(aps@).take(aps.len() as int) =~= networks_view(aps@));
    r
}

/// The list of networks that the access points give: one per name (the first
/// of the strongest access points with that name; access points without a
/// name are dropped), from the strongest network to the weakest.
pub open spec fn wifi_network_list(aps: Seq<WifiNetworkView>) -> Seq<WifiNetworkView> {
    sort_by_strength(merge_networks(aps))
}

/// The list of networks that the access points give: one per name, from the
/// strongest network to the weakest.
pub fn merge_access_points(aps: &Vec<WifiNetwork>) -> (r: Vec<WifiNetwork>)
    ensures
        networks_view(r@) == wifi_network_list(networks_view(aps@)),
{
    let merged = merge_access_point_list(aps);
    sort_networks_by_strength(&merged)
}

/// A network is the connected one.
pub open spec fn is_connected_network() -> spec_fn(WifiNetworkView) -> bool {
    |n: WifiNetworkView| n.connected
}

/// The first connected network of a list.
pub fn first_connected_network(nets: &Vec<WifiNetwork>) -> (r: Option<WifiNetwork>)
    ensures
        match first_match(networks_view(nets@), is_connected_network()) {
            Some(i) => r matches Some(n) && n@ == networks_view(nets@)[i],
            None => r is None,
        },
{
    let ghost s = networks_view(nets@);
    let mut i: usize = 0;
    while i < nets.len()
        invariant
            i <= nets.len(),
            s == networks_view(nets@),
            forall|j: int| 0 <= j < i ==> !is_connected_network()(#[trigger] s[j]),
        decreases nets.len() - i,
    {
        if nets[i].connected {
            proof {
                lemma_first_match_at(s, is_connected_network(), i as int);
            }
            return Some(clone_network(&nets[i]));
        }
        i += 1;
    }
    proof {
        lemma_first_match_none(s, is_connected_network());
    }
    None
}

/// The index of the first network with the given name.
pub fn position_of_ssid(nets: &Vec<WifiNetwork>, ssid: &String) -> (r: Option<usize>)
    ensures
        match r {
            Some(i) => first_match(networks_view(nets@), named(ssid@)) == Some(i as int),
            None => first_match(networks_view(nets@), named(ssid@)) is None,
        },
{
    let ghost s = networks_view(nets@);
    let mut i: usize = 0;
    while i < nets.len()
        invariant
            i <= nets.len(),
            s == networks_view(nets@),
            forall|j: int| 0 <= j < i ==> !named(ssid@)(#[trigger] s[j]),
        decreases nets.len() - i,
    {
        if nets[i].ssid == *ssid {
            proof {
                lemma_first_match_at(s, named(ssid@), i as int);
            }
            return Some(i);
        }
        i += 1;
    }
    proof {
        lemma_first_match_none(s, named(ssid@));
    }
    None
}

// ---------------------------------------------------------------------------
// Laws
// ---------------------------------------------------------------------------

/// The networks are ordered from strongest to weakest.
pub open spec fn strongest_first(s: Seq<WifiNetworkView>) -> bool {
    forall|i: int, j: int| 0 <= i < j < s.len() ==> s[i].strength >= s[j].strength
}

/// No two networks have the same name.
pub open spec fn distinct_names(s: Seq<WifiNetworkView>) -> bool {
    forall|i: int, j: int| 0 <= i < j < s.len() ==> s[i].ssid != s[j].ssid
}

/// A network of the list has the name of `x` and is at least as strong.
pub open spec fn listed_at_least(r: Seq<WifiNetworkView>, x: WifiNetworkView) -> bool {
    exists|i: int| #![trigger r[i]] 0 <= i < r.len() && r[i].ssid == x.ssid && r[i].strength >= x.strength
}

/// Every access point with a name is listed under that name, at least as strong.
pub open spec fn represents(r: Seq<WifiNetworkView>, aps: Seq<WifiNetworkView>) -> bool {
    forall|k: int| 0 <= k < aps.len() && aps[k].ssid.len() > 0 ==> listed_at_least(r, #[trigger] aps[k])
}

/// Every listed network is one of the access points, and has a name.
pub open spec fn drawn_from(r: Seq<WifiNetworkView>, aps: Seq<WifiNetworkView>) -> bool {
    forall|i: int| 0 <= i < r.len() ==> #[trigger] aps.contains(r[i]) && r[i].ssid.len() > 0
}

proof fn lemma_insert_by_strength(sorted: Seq<WifiNetworkView>, n: WifiNetworkView)
    requires
        strongest_first(sorted),
    ensures
        strongest_first(insert_by_strength(sorted, n)),
        insert_by_strength(sorted, n).to_multiset() == sorted.to_multiset().insert(n),
{
    broadcast use vstd::seq_lib::to_multiset_build, vstd::seq_lib::to_multiset_insert;

    lemma_first_match_spec(sorted, weaker_than(n));
    let r = insert_by_strength(sorted, n);
    match first_match(sorted, weaker_than(n)) {
        Some(p) => {
            assert forall|i: int, j: int| 0 <= i < j < r.len() implies r[i].strength >= r[j].strength by {
                if i < p {
                    assert(!weaker_than(n)(sorted[i]));
                    if j < p {
                    } else if j == p {
                    } else {
                        assert(r[j] == sorted[j - 1]);
                    }
                } else if i == p {
                    assert(r[j] == sorted[j - 1]);
                    assert(sorted[p].strength >= sorted[j - 1].strength);
                } else {
                    assert(r[i] == sorted[i - 1]);
                    assert(r[j] == sorted[j - 1]);
                }
            }
        },
        None => {
            assert forall|i: int, j: int| 0 <= i < j < r.len() implies r[i].strength >= r[j].strength by {
                if j == sorted.len() {
                    assert(!weaker_than(n)(sorted[i]));
                }
            }
        },
    }
}

/// Ordering networks by strength lists them from strongest to weakest and
/// keeps exactly the same networks.
pub proof fn lemma_sort_by_strength(s: Seq<WifiNetworkView>)
    ensures
        strongest_first(sort_by_strength(s)),
        sort_by_strength(s).to_multiset() == s.to_multiset(),
    decreases s.len(),
{
    broadcast use vstd::seq_lib::to_multiset_build;

    if s.len() == 0 {
        assert(s =~= Seq::<WifiNetworkView>::empty());
    } else {
        lemma_sort_by_strength(s.drop_last());
        lemma_insert_by_strength(sort_by_strength(s.drop_last()), s.last());
        assert(s =~= s.drop_last().push(s.last()));
    }
}

proof fn lemma_merge_networks(s: Seq<WifiNetworkView>)
    ensures
        distinct_names(merge_networks(s)),
        represents(merge_networks(s), s),
        drawn_from(merge_networks(s), s),
    decreases s.len(),
{
    if s.len() > 0 {
        let prev = s.drop_last();
        let n = s.last();
        lemma_merge_networks(prev);
        let acc = merge_networks(prev);
        let r = merge_networks(s);
        assert(r == merge_network(acc, n));
        assert(s.contains(n)) by {
            assert(s[s.len() - 1] == n);
        }
        assert forall|x: WifiNetworkView| prev.contains(x) implies s.contains(x) by {
            let k = choose|k: int| 0 <= k < prev.len() && prev[k] == x;
            assert(s[k] == x);
        }
        lemma_first_match_spec(acc, named(n.ssid));
        if n.ssid.len() == 0 {
            assert forall|k: int| 0 <= k < s.len() && s[k].ssid.len() > 0 implies listed_at_least(r, #[trigger] s[k]) by {
                assert(k < prev.len());
                assert(prev[k] == s[k]);
            }
            assert forall|i: int| 0 <= i < r.len() implies #[trigger] s.contains(r[i]) && r[i].ssid.len() > 0 by {
                assert(prev.contains(acc[i]));
            }
        } else {
            match first_match(acc, named(n.ssid)) {
                Some(p) => {
                    assert(acc[p].ssid == n.ssid);
                    assert forall|i: int, j: int| 0 <= i < j < r.len() implies r[i].ssid != r[j].ssid by {
                        assert(acc[i].ssid != acc[j].ssid);
                    }
                    assert forall|k: int| 0 <= k < s.len() && s[k].ssid.len() > 0 implies listed_at_least(r, #[trigger] s[k]) by {
                        if k == s.len() - 1 {
                            assert(r[p].ssid == s[k].ssid && r[p].strength >= s[k].strength);
                        } else {
                            assert(prev[k] == s[k]);
                            assert(listed_at_least(acc, prev[k]));
                            let i = choose|i: int| #![trigger acc[i]]
                                0 <= i < acc.len() && acc[i].ssid == prev[k].ssid && acc[i].strength >= prev[k].strength;
                            if i == p {
                                assert(r[p].ssid == s[k].ssid && r[p].strength >= s[k].strength);
                            } else {
                                assert(r[i] == acc[i]);
                                assert(r[i].ssid == s[k].ssid && r[i].strength >= s[k].strength);
                            }
                        }
                    }
                    assert forall|i: int| 0 <= i < r.len() implies #[trigger] s.contains(r[i]) && r[i].ssid.len() > 0 by {
                        if r[i] != n {
                            assert(r[i] == acc[i]);
                            assert(prev.contains(acc[i]));
                        }
                    }
                },
                None => {
                    assert forall|i: int, j: int| 0 <= i < j < r.len() implies r[i].ssid != r[j].ssid by {
                        if j == acc.len() {
                            assert(!named(n.ssid)(acc[i]));
                        } else {
                            assert(acc[i].ssid != acc[j].ssid);
                        }
                    }
                    assert forall|k: int| 0 <= k < s.len() && s[k].ssid.len() > 0 implies listed_at_least(r, #[trigger] s[k]) by {
                        if k == s.len() - 1 {
                            assert(r[acc.len() as int] == n);
                            assert(r[acc.len() as int].ssid == s[k].ssid && r[acc.len() as int].strength >= s[k].strength);
                        } else {
                            assert(prev[k] == s[k]);
                            assert(listed_at_least(acc, prev[k]));
                            let i = choose|i: int| #![trigger acc[i]]
                                0 <= i < acc.len() && acc[i].ssid == prev[k].ssid && acc[i].strength >= prev[k].strength;
                            assert(r[i] == acc[i]);
                            assert(r[i].ssid == s[k].ssid && r[i].strength >= s[k].strength);
                        }
                    }
                    assert forall|i: int| 0 <= i < r.len() implies #[trigger] s.contains(r[i]) && r[i].ssid.len() > 0 by {
                        if i < acc.len() {
                            assert(r[i] == acc[i]);
                            assert(prev.contains(acc[i]));
                        }
                    }
                },
            }
        }
    }
}

/// The list of Wi-Fi networks is ordered from strongest to weakest, names
/// each network once, lists every access point that has a name under that
/// name at least as strong, and lists only access points that have a name.
pub proof fn lemma_wifi_network_list(aps: Seq<WifiNetworkView>)
    ensures
        strongest_first(wifi_network_list(aps)),
        distinct_names(wifi_network_list(aps)),
        represents(wifi_network_list(aps), aps),
        drawn_from(wifi_network_list(aps), aps),
{
    broadcast use vstd::seq_lib::to_multiset_contains;

    let m = merge_networks(aps);
    let r = wifi_network_list(aps);
    lemma_merge_networks(aps);
    lemma_sort_by_strength(m);
    assert forall|x: WifiNetworkView| r.contains(x) <==> m.contains(x) by {
        assert(r.to_multiset().count(x) == m.to_multiset().count(x));
    }
    assert forall|i: int, j: int| 0 <= i < j < r.len() implies r[i].ssid != r[j].ssid by {
        assert(r.contains(r[i]) && r.contains(r[j]));
        let a = choose|a: int| 0 <= a < m.len() && m[a] == r[i];
        let b = choose|b: int| 0 <= b < m.len() && m[b] == r[j];
        if r[i].ssid == r[j].ssid {
            if a == b {
                // the same network twice in the sorted list means it occurs
                // twice in the merged list, which has distinct names
                assert(r.to_multiset().count(r[i]) >= 2) by {
                    lemma_count_two(r, i, j);
                }
                assert(m.to_multiset().count(m[a]) >= 2);
                lemma_count_two_back(m, m[a]);
            } else if a < b {
                assert(m[a].ssid != m[b].ssid);
            } else {
                assert(m[b].ssid != m[a].ssid);
            }
        }
    }
    assert forall|k: int| 0 <= k < aps.len() && aps[k].ssid.len() > 0 implies listed_at_least(r, #[trigger] aps[k]) by {
        assert(listed_at_least(m, aps[k]));
        let i = choose|i: int| #![trigger m[i]]
            0 <= i < m.len() && m[i].ssid == aps[k].ssid && m[i].strength >= aps[k].strength;
        assert(m.contains(m[i]));
        assert(r.contains(m[i]));
        let j = choose|j: int| 0 <= j < r.len() && r[j] == m[i];
        assert(r[j].ssid == aps[k].ssid && r[j].strength >= aps[k].strength);
    }
    assert forall|i: int| 0 <= i < r.len() implies #[trigger] aps.contains(r[i]) && r[i].ssid.len() > 0 by {
        assert(r.contains(r[i]));
        let a = choose|a: int| 0 <= a < m.len() && m[a] == r[i];
        assert(aps.contains(m[a]) && m[a].ssid.len() > 0);
    }
}

proof fn lemma_count_two<A>(s: Seq<A>, i: int, j: int)
    requires
        0 <= i < j < s.len(),
        s[i] == s[j],
    ensures
        s.to_multiset().count(s[i]) >= 2,
{
    broadcast use vstd::seq_lib::to_multiset_remove, vstd::seq_lib::to_multiset_contains;

    let x = s[i];
    let t = s.remove(i);
    assert(t[j - 1] == x);
    assert(t.contains(x));
    assert(t.to_multiset().count(x) > 0);
    assert(t.to_multiset() == s.to_multiset().remove(x));
}

proof fn lemma_count_two_back(m: Seq<WifiNetworkView>, x: WifiNetworkView)
    requires
        m.to_multiset().count(x) >= 2,
    ensures
        !distinct_names(m),
{
    broadcast use vstd::seq_lib::to_multiset_remove, vstd::seq_lib::to_multiset_contains;

    assert(m.contains(x));
    let a = choose|a: int| 0 <= a < m.len() && m[a] == x;
    let t = m.remove(a);
    assert(t.to_multiset() == m.to_multiset().remove(x));
    assert(t.to_multiset().count(x) > 0);
    assert(t.contains(x));
    let b = choose|b: int| 0 <= b < t.len() && t[b] == x;
    if b < a {
        assert(t[b] == m[b]);
        assert(m[b].ssid == m[a].ssid);
    } else {
        assert(t[b] == m[b + 1]);
        assert(m[a].ssid == m[b + 1].ssid);
    }
}

} // verus!
