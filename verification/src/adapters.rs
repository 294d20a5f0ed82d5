//! The per-source mapping of vendor data into location records.
//!
//! The network calls that fetch the vendor payloads live outside the
//! library; what stands here is every rule applied to the fetched
//! values: which switch entries count as client devices, how an HP
//! MAC is normalised, how a wireless client resolves its site label
//! through the access-point directory, and the bounded login retry
//! a controller session is allowed.

use vstd::prelude::*;

use crate::chars::{chars_to_string, is_digit_exec, str_chars};
use crate::ports::{is_port_token, token_value};
use crate::record::{DeviceLocation, LocationModel};

verus! {

/// The VLAN whose entries a switch reports as client devices.
pub const CLIENT_VLAN_ID: u16 = 23;

// ---------------------------------------------------------------- switch

/// One row of a switch's MAC table, as plain values.
pub struct MacTableEntry {
    pub mac_address: String,
    pub port_id: String,
    pub vlan_id: u16,
}

/// Model of a MAC-table row.
pub ghost struct MacEntryModel {
    pub mac_address: Seq<char>,
    pub port_id: Seq<char>,
    pub vlan_id: u16,
}

impl View for MacTableEntry {
    type V = MacEntryModel;

    open spec fn view(&self) -> MacEntryModel {
        MacEntryModel {
            mac_address: self.mac_address@,
            port_id: self.port_id@,
            vlan_id: self.vlan_id,
        }
    }
}

impl DeepView for MacTableEntry {
    type V = MacEntryModel;

    open spec fn deep_view(&self) -> MacEntryModel {
        self.view()
    }
}

/// The MAC with its dashes removed.
pub open spec fn strip_dashes(s: Seq<char>) -> Seq<char>
    decreases s.len(),
{
    if s.len() == 0 {
        s
    } else {
        let rest = strip_dashes(s.drop_last());
        if s.last() == '-' {
            rest
        } else {
            rest.push(s.last())
        }
    }
}

/// An HP switch reports `"aabbcc-ddeeff"`; the canonical form is the
/// colon-separated `"aa:bb:cc:dd:ee:ff"`.  A MAC that does not strip
/// to twelve characters is left as stripped.
pub open spec fn spec_hp_mac(mac: Seq<char>) -> Seq<char> {
    let t = strip_dashes(mac);
    if t.len() == 12 {
        t.subrange(0, 2) + seq![':'] + t.subrange(2, 4) + seq![':'] + t.subrange(4, 6) + seq![':']
            + t.subrange(6, 8) + seq![':'] + t.subrange(8, 10) + seq![':'] + t.subrange(10, 12)
    } else {
        t
    }
}

/// Whether a MAC-table row counts as a client device for this switch:
/// on the client VLAN and attached through a configured port.
pub open spec fn spec_entry_selected(e: MacEntryModel, ports: Seq<u8>) -> bool {
    e.vlan_id == CLIENT_VLAN_ID && is_port_token(e.port_id) && ports.contains(
        token_value(e.port_id),
    )
}

/// The record a selected switch row becomes: the switch knows the
/// device's MAC and its own address and label, nothing else.
pub open spec fn spec_switch_record(e: MacEntryModel, ip: Seq<char>, loc: Seq<char>) -> LocationModel {
    LocationModel {
        ipv4: Seq::empty(),
        ipv6: Seq::empty(),
        device_mac: spec_hp_mac(e.mac_address),
        remote_ip: ip,
        remote_mac: Seq::empty(),
        location: loc,
    }
}

/// Every selected row of the MAC table, mapped, in table order.
pub open spec fn spec_switch_records(
    entries: Seq<MacEntryModel>,
    ports: Seq<u8>,
    ip: Seq<char>,
    loc: Seq<char>,
) -> Seq<LocationModel>
    decreases entries.len(),
{
    if entries.len() == 0 {
        Seq::empty()
    } else {
        let rest = spec_switch_records(entries.drop_last(), ports, ip, loc);
        if spec_entry_selected(entries.last(), ports) {
            rest.push(spec_switch_record(entries.last(), ip, loc))
        } else {
            rest
        }
    }
}

/// A managed switch's identity and configured client ports.  The HTTP
/// client that fetches its MAC table lives outside the library.
pub struct HPSwitch {
    pub ip: String,
    pub ports: Vec<u8>,
    pub location: String,
}

impl HPSwitch {
    pub fn new(ip: String, ports: Vec<u8>, location: String) -> (r: HPSwitch)
        ensures
            r.ip@ == ip@,
            r.ports@ == ports@,
            r.location@ == location@,
    {
        HPSwitch { ip, ports, location }
    }

    /// Normalise a MAC the way this switch family reports it.
    pub fn format_hp_mac(&self, mac: String) -> (r: String)
        ensures
            r@ == spec_hp_mac(mac@),
    {
        let chars = str_chars(mac.as_str());
        let ghost whole = chars@;
        let mut t: Vec<char> = Vec::new();
        let mut i: usize = 0;
        proof {
            assert(whole.take(0) =~= Seq::<char>::empty());
        }
        while i < chars.len()
            invariant
                whole == chars@,
                i <= chars.len(),
                t@ == strip_dashes(whole.take(i as int)),
            decreases chars.len() - i,
        {
            proof {
                assert(whole.take(i as int + 1).drop_last() =~= whole.take(i as int));
                assert(whole.take(i as int + 1).last() == whole[i as int]);
            }
            if chars[i] != '-' {
                t.push(chars[i]);
            }
            i += 1;
        }
        proof {
            assert(whole.take(chars.len() as int) =~= whole);
        }
        if t.len() == 12 {
            let mut o: Vec<char> = Vec::new();
            o.push(t[0]);
            o.push(t[1]);
            o.push(':');
            o.push(t[2]);
            o.push(t[3]);
            o.push(':');
            o.push(t[4]);
            o.push(t[5]);
            o.push(':');
            o.push(t[6]);
            o.push(t[7]);
            o.push(':');
            o.push(t[8]);
            o.push(t[9]);
            o.push(':');
            o.push(t[10]);
            o.push(t[11]);
            proof {
                assert(o@ =~= spec_hp_mac(mac@));
            }
            chars_to_string(&o)
        } else {
            chars_to_string(&t)
        }
    }

    /// Map a fetched MAC table to location records: one per entry on
    /// the client VLAN whose port is in this switch's configured set,
    /// carrying the formatted device MAC, the switch's own address as
    /// the attachment point's IP, and the switch's site label.
    pub fn map_mac_table(&self, entries: &Vec<MacTableEntry>) -> (out: Vec<DeviceLocation>)
        ensures
            out.deep_view() == spec_switch_records(
                entries.deep_view(),
                self.ports@,
                self.ip@,
                self.location@,
            ),
    {
        let ghost es = entries.deep_view();
        let mut out: Vec<DeviceLocation> = Vec::new();
        let mut i: usize = 0;
        proof {
            assert(es.take(0) =~= Seq::<MacEntryModel>::empty());
        }
        while i < entries.len()
            invariant
                es == entries.deep_view(),
                i <= entries.len(),
                out.deep_view() == spec_switch_records(
                    es.take(i as int),
                    self.ports@,
                    self.ip@,
                    self.location@,
                ),
            decreases entries.len() - i,
        {
            let ghost before = out.deep_view();
            let entry = &entries[i];
            proof {
                assert(es.take(i as int + 1).drop_last() =~= es.take(i as int));
                assert(es.take(i as int + 1).last() == es[i as int]);
                assert(es[i as int] == entry@);
            }
            let selected = entry.vlan_id == CLIENT_VLAN_ID && match parse_port_id(&entry.port_id) {
                Some(v) => contains_port(&self.ports, v),
                None => false,
            };
            if selected {
                let rec = DeviceLocation {
                    ipv4: String::new(),
                    ipv6: Vec::new(),
                    device_mac: self.format_hp_mac(entry.mac_address.clone()),
                    remote_ip: self.ip.clone(),
                    remote_mac: String::new(),
                    location: self.location.clone(),
                };
                proof {
                    assert(rec@.ipv6 =~= Seq::<Seq<char>>::empty());
                    assert(rec@ == spec_switch_record(entry@, self.ip@, self.location@));
                }
                out.push(rec);
                proof {
                    assert(out.deep_view() =~= before.push(
                        spec_switch_record(es[i as int], self.ip@, self.location@),
                    ));
                }
            }
            i += 1;
        }
        proof {
            assert(es.take(entries.len() as int) =~= es);
        }
        out
    }
}

/// A port identifier as a switch reports it, read as a one- or
/// two-digit number; identifiers are matched numerically against the
/// configured port set.
fn parse_port_id(s: &String) -> (r: Option<u8>)
    ensures
        match r {
            Some(v) => is_port_token(s@) && v == token_value(s@),
            None => !is_port_token(s@),
        },
{
    let chars = str_chars(s.as_str());
    if chars.len() == 1 && is_digit_exec(chars[0]) {
        let v = crate::chars::digit_val_exec(chars[0]);
        Some(v)
    } else if chars.len() == 2 && is_digit_exec(chars[0]) && is_digit_exec(chars[1]) {
        let v = crate::chars::digit_val_exec(chars[0]) * 10 + crate::chars::digit_val_exec(
            chars[1],
        );
        Some(v)
    } else {
        None
    }
}

/// Whether the configured port set holds this port.
fn contains_port(ports: &Vec<u8>, v: u8) -> (r: bool)
    ensures
        r == ports@.contains(v),
{
    let mut i: usize = 0;
    while i < ports.len()
        invariant
            i <= ports.len(),
            forall|j: int| 0 <= j < i as int ==> ports@[j] != v,
        decreases ports.len() - i,
    {
        if ports[i] == v {
            return true;
        }
        i += 1;
    }
    false
}

// ------------------------------------------------------------ controller

/// One access point: its MAC and the site label it stands for.
pub struct UniFiAP {
    pub mac: String,
    pub location: String,
}

/// Model of an access point.
pub ghost struct ApModel {
    pub mac: Seq<char>,
    pub location: Seq<char>,
}

impl View for UniFiAP {
    type V = ApModel;

    open spec fn view(&self) -> ApModel {
        ApModel { mac: self.mac@, location: self.location@ }
    }
}

impl DeepView for UniFiAP {
    type V = ApModel;

    open spec fn deep_view(&self) -> ApModel {
        self.view()
    }
}

/// The site label the directory holds for an AP MAC; a later entry
/// for the same MAC wins, as when the directory is built by keyed
/// insertion.
pub open spec fn ap_lookup(aps: Seq<ApModel>, mac: Seq<char>) -> Option<Seq<char>>
    decreases aps.len(),
{
    if aps.len() == 0 {
        None
    } else if aps.last().mac == mac {
        Some(aps.last().location)
    } else {
        ap_lookup(aps.drop_last(), mac)
    }
}

/// The static AP-MAC-to-location directory, built once from
/// configuration and read-only afterwards.
pub struct AccessPointDirectory {
    entries: Vec<UniFiAP>,
}

impl View for AccessPointDirectory {
    type V = Seq<ApModel>;

    closed spec fn view(&self) -> Seq<ApModel> {
        self.entries.deep_view()
    }
}

impl AccessPointDirectory {
    pub fn new(entries: Vec<UniFiAP>) -> (r: AccessPointDirectory)
        ensures
            r@ == entries.deep_view(),
    {
        AccessPointDirectory { entries }
    }

    /// The label for this AP MAC, if the directory knows it.
    pub fn lookup(&self, mac: &String) -> (r: Option<&String>)
        ensures
            match r {
                Some(l) => ap_lookup(self@, mac@) == Some(l@),
                None => ap_lookup(self@, mac@) is None,
            },
    {
        let ghost aps = self@;
        let mut i: usize = self.entries.len();
        proof {
            assert(aps.take(i as int) =~= aps);
        }
        while i > 0
            invariant
                aps == self@,
                i <= self.entries.len(),
                ap_lookup(aps, mac@) == ap_lookup(aps.take(i as int), mac@),
            decreases i,
        {
            i -= 1;
            proof {
                assert(aps.take(i as int + 1).drop_last() =~= aps.take(i as int));
                assert(aps.take(i as int + 1).last() == aps[i as int]);
            }
            if self.entries[i].mac.eq(mac) {
                return Some(&self.entries[i].location);
            }
        }
        proof {
            assert(aps.take(0) =~= Seq::<ApModel>::empty());
        }
        None
    }
}

/// One wireless client as the controller reports it.
pub struct WirelessClient {
    pub mac: String,
    pub ap_mac: String,
    pub ip: Option<String>,
}

/// Model of a wireless client.
pub ghost struct ClientModel {
    pub mac: Seq<char>,
    pub ap_mac: Seq<char>,
    pub ip: Option<Seq<char>>,
}

impl View for WirelessClient {
    type V = ClientModel;

    open spec fn view(&self) -> ClientModel {
        ClientModel { mac: self.mac@, ap_mac: self.ap_mac@, ip: self.ip.deep_view() }
    }
}

impl DeepView for WirelessClient {
    type V = ClientModel;

    open spec fn deep_view(&self) -> ClientModel {
        self.view()
    }
}

/// The record a wireless client becomes: the controller knows the
/// device's MAC, often its IP, the AP it hangs off, and the AP's
/// location when the directory resolves it; never the AP's IP.
pub open spec fn spec_controller_record(c: ClientModel, aps: Seq<ApModel>) -> LocationModel {
    LocationModel {
        ipv4: match c.ip {
            Some(ip) => ip,
            None => Seq::empty(),
        },
        ipv6: Seq::empty(),
        device_mac: c.mac,
        remote_ip: Seq::empty(),
        remote_mac: c.ap_mac,
        location: match ap_lookup(aps, c.ap_mac) {
            Some(l) => l,
            None => Seq::empty(),
        },
    }
}

/// The wireless controller's reconciliation-relevant state: its
/// access-point directory.  Addresses, credentials and the HTTP
/// session live outside the library.
pub struct UniFiController {
    pub access_points: AccessPointDirectory,
}

impl UniFiController {
    pub fn new(access_points: AccessPointDirectory) -> (r: UniFiController)
        ensures
            r.access_points@ == access_points@,
    {
        UniFiController { access_points }
    }

    /// The site label for an AP, or empty when the directory does not
    /// know the AP.
    pub fn get_ap_location(&self, ap_mac: &String) -> (r: String)
        ensures
            r@ == match ap_lookup(self.access_points@, ap_mac@) {
                Some(l) => l,
                None => Seq::<char>::empty(),
            },
    {
        match self.access_points.lookup(ap_mac) {
            Some(l) => l.clone(),
            None => String::new(),
        }
    }

    /// Map the controller's client list to location records.
    pub fn map_clients(&self, clients: &Vec<WirelessClient>) -> (out: Vec<DeviceLocation>)
        ensures
            out.deep_view() == clients.deep_view().map_values(
                |c: ClientModel| spec_controller_record(c, self.access_points@),
            ),
    {
        let ghost cs = clients.deep_view();
        let mut out: Vec<DeviceLocation> = Vec::new();
        let mut i: usize = 0;
        while i < clients.len()
            invariant
                cs == clients.deep_view(),
                i <= clients.len(),
                out.len() == i,
                forall|j: int|
                    0 <= j < i as int ==> out.deep_view()[j] == spec_controller_record(
                        #[trigger] cs[j],
                        self.access_points@,
                    ),
            decreases clients.len() - i,
        {
            let c = &clients[i];
            let location = self.get_ap_location(&c.ap_mac);
            let ipv4 = match &c.ip {
                Some(ip) => ip.clone(),
                None => String::new(),
            };
            let rec = DeviceLocation {
                ipv4,
                ipv6: Vec::new(),
                device_mac: c.mac.clone(),
                remote_ip: String::new(),
                remote_mac: c.ap_mac.clone(),
                location,
            };
            proof {
                assert(rec@.ipv6 =~= Seq::<Seq<char>>::empty());
                assert(cs[i as int] == c@);
                assert(rec@ == spec_controller_record(cs[i as int], self.access_points@));
            }
            out.push(rec);
            i += 1;
        }
        proof {
            assert(out.deep_view() =~= cs.map_values(
                |c: ClientModel| spec_controller_record(c, self.access_points@),
            ));
        }
        out
    }
}

/// What the poll driver does next with a controller whose data fetch
/// came back, given whether the response said the session is invalid
/// and how many fetches were already made this poll.
pub enum PollAction {
    /// The response is good: map and use its data.
    UseData,
    /// The session expired on the first fetch: log in once and fetch
    /// again.
    LoginAndRetry,
    /// The session is still invalid after the one allowed retry: give
    /// up and contribute nothing this cycle.
    Abandon,
}

/// The bounded retry policy: one re-login and one retry, never more.
pub open spec fn spec_next_poll_action(session_invalid: bool, retried: bool) -> PollAction {
    if !session_invalid {
        PollAction::UseData
    } else if !retried {
        PollAction::LoginAndRetry
    } else {
        PollAction::Abandon
    }
}

/// Decide the next step after a controller data fetch.
pub fn next_poll_action(session_invalid: bool, retried: bool) -> (r: PollAction)
    ensures
        r == spec_next_poll_action(session_invalid, retried),
{
    if !session_invalid {
        PollAction::UseData
    } else if !retried {
        PollAction::LoginAndRetry
    } else {
        PollAction::Abandon
    }
}

/// Whether a controller response's meta code marks the session as
/// invalid: the controller answers `"error"` when a login is needed.
pub fn session_invalid(rc: &str) -> (r: bool)
    ensures
        r == (rc@ == "error"@),
{
    let rc_owned = rc.to_owned();
    let err = String::from_str("error");
    rc_owned.eq(&err)
}

// -------------------------------------------------------------- firewall

/// One row of the firewall's ARP table.
pub struct ArpEntry {
    pub mac: String,
    pub ip: String,
}

/// Model of an ARP row.
pub ghost struct ArpModel {
    pub mac: Seq<char>,
    pub ip: Seq<char>,
}

impl View for ArpEntry {
    type V = ArpModel;

    open spec fn view(&self) -> ArpModel {
        ArpModel { mac: self.mac@, ip: self.ip@ }
    }
}

impl DeepView for ArpEntry {
    type V = ArpModel;

    open spec fn deep_view(&self) -> ArpModel {
        self.view()
    }
}

/// The record an ARP row becomes: the firewall knows only which MAC
/// holds which IP.
pub open spec fn spec_arp_record(e: ArpModel) -> LocationModel {
    LocationModel {
        ipv4: e.ip,
        ipv6: Seq::empty(),
        device_mac: e.mac,
        remote_ip: Seq::empty(),
        remote_mac: Seq::empty(),
        location: Seq::empty(),
    }
}

/// Map the firewall's ARP table to location records, row for row.
pub fn opnsense_records(entries: &Vec<ArpEntry>) -> (out: Vec<DeviceLocation>)
    ensures
        out.deep_view() == entries.deep_view().map_values(|e: ArpModel| spec_arp_record(e)),
{
    let ghost es = entries.deep_view();
    let mut out: Vec<DeviceLocation> = Vec::new();
    let mut i: usize = 0;
    while i < entries.len()
        invariant
            es == entries.deep_view(),
            i <= entries.len(),
            out.len() == i,
            forall|j: int|
                0 <= j < i as int ==> out.deep_view()[j] == spec_arp_record(#[trigger] es[j]),
        decreases entries.len() - i,
    {
        let e = &entries[i];
        let rec = DeviceLocation {
            ipv4: e.ip.clone(),
            ipv6: Vec::new(),
            device_mac: e.mac.clone(),
            remote_ip: String::new(),
            remote_mac: String::new(),
            location: String::new(),
        };
        proof {
            assert(rec@.ipv6 =~= Seq::<Seq<char>>::empty());
            assert(es[i as int] == e@);
            assert(rec@ == spec_arp_record(es[i as int]));
        }
        out.push(rec);
        i += 1;
    }
    proof {
        assert(out.deep_view() =~= es.map_values(|e: ArpModel| spec_arp_record(e)));
    }
    out
}

} // verus!
