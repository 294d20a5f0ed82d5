//! The canonical per-device location record and its mathematical model.

use vstd::prelude::*;

verus! {

/// Mathematical model of a [`DeviceLocation`]: every string field as a
/// sequence of characters.  Contracts and proofs speak of this model.
pub ghost struct LocationModel {
    pub ipv4: Seq<char>,
    pub ipv6: Seq<Seq<char>>,
    pub device_mac: Seq<char>,
    pub remote_ip: Seq<char>,
    pub remote_mac: Seq<char>,
    pub location: Seq<char>,
}

/// One observed client device in a polling cycle.
///
/// `device_mac` is the canonical merge key.  `remote_mac` / `remote_ip`
/// identify the attachment point (switch port, access point); `location`
/// is a human-readable site label when an adapter can resolve one.
pub struct DeviceLocation {
    pub ipv4: String,
    pub ipv6: Vec<String>,
    pub device_mac: String,
    pub remote_ip: String,
    pub remote_mac: String,
    pub location: String,
}

impl View for DeviceLocation {
    type V = LocationModel;

    open spec fn view(&self) -> LocationModel {
        LocationModel {
            ipv4: self.ipv4@,
            ipv6: self.ipv6.deep_view(),
            device_mac: self.device_mac@,
            remote_ip: self.remote_ip@,
            remote_mac: self.remote_mac@,
            location: self.location@,
        }
    }
}

impl DeepView for DeviceLocation {
    type V = LocationModel;

    open spec fn deep_view(&self) -> LocationModel {
        self.view()
    }
}

impl DeviceLocation {
    /// A field-for-field copy whose model equals this record's.
    pub fn duplicate(&self) -> (r: DeviceLocation)
        ensures
            r@ == self@,
    {
        let r = DeviceLocation {
            ipv4: self.ipv4.clone(),
            ipv6: clone_string_vec(&self.ipv6),
            device_mac: self.device_mac.clone(),
            remote_ip: self.remote_ip.clone(),
            remote_mac: self.remote_mac.clone(),
            location: self.location.clone(),
        };
        r
    }
}

/// An element-wise copy of a vector of strings.
pub fn clone_string_vec(v: &Vec<String>) -> (r: Vec<String>)
    ensures
        r.deep_view() == v.deep_view(),
{
    let mut r: Vec<String> = Vec::new();
    let mut i: usize = 0;
    while i < v.len()
        invariant
            i <= v.len(),
            r.len() == i,
            forall|j: int| 0 <= j < i as int ==> r@[j]@ == #[trigger] v@[j]@,
        decreases v.len() - i,
    {
        r.push(v[i].clone());
        i += 1;
    }
    proof {
        assert forall|j: int| 0 <= j < v@.len() implies r.deep_view()[j]
            == v.deep_view()[j] by {
            assert(r@[j]@ == v@[j]@);
        }
        assert(r.deep_view() =~= v.deep_view());
    }
    r
}

} // verus!
