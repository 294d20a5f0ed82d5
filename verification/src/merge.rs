//! The poll orchestrator's merge rule.
//!
//! Within one polling cycle every adapter contributes records keyed by
//! `device_mac`.  A later record for the same device replaces the earlier
//! one as a whole, except that a non-empty `ipv4` already learned in the
//! same cycle is preserved when the new record's `ipv4` is empty.

use vstd::prelude::*;

use crate::record::{DeviceLocation, LocationModel};

verus! {

/// The record that results when `newer` overwrites `older` for the same
/// device: every field of `newer` wins, except that an empty `ipv4` does
/// not clobber a non-empty one learned earlier in the cycle.
pub open spec fn spec_merge_record(older: LocationModel, newer: LocationModel) -> LocationModel {
    LocationModel {
        ipv4: if newer.ipv4.len() == 0 && older.ipv4.len() > 0 {
            older.ipv4
        } else {
            newer.ipv4
        },
        ipv6: newer.ipv6,
        device_mac: newer.device_mac,
        remote_ip: newer.remote_ip,
        remote_mac: newer.remote_mac,
        location: newer.location,
    }
}

/// Index of the first record with the given device MAC, if any.
pub open spec fn spec_find_mac(s: Seq<LocationModel>, mac: Seq<char>) -> Option<int>
    decreases s.len(),
{
    if s.len() == 0 {
        None
    } else if s[0].device_mac == mac {
        Some(0int)
    } else {
        match spec_find_mac(s.drop_first(), mac) {
            Some(i) => Some(i + 1),
            None => None,
        }
    }
}

/// `spec_find_mac` returns the first matching index, and `None` exactly
/// when no record carries the MAC.
pub proof fn lemma_find_mac(s: Seq<LocationModel>, mac: Seq<char>)
    ensures
        match spec_find_mac(s, mac) {
            Some(i) => 0 <= i < s.len() && s[i].device_mac == mac && (forall|j: int|
                0 <= j < i ==> s[j].device_mac != mac),
            None => forall|j: int| 0 <= j < s.len() ==> s[j].device_mac != mac,
        },
    decreases s.len(),
{
    if s.len() > 0 && s[0].device_mac != mac {
        lemma_find_mac(s.drop_first(), mac);
        match spec_find_mac(s.drop_first(), mac) {
            Some(i) => {
                assert(s.drop_first()[i] == s[i + 1]);
                assert forall|j: int| 0 <= j < i + 1 implies s[j].device_mac != mac by {
                    if j > 0 {
                        assert(s[j] == s.drop_first()[j - 1]);
                    }
                }
            },
            None => {
                assert forall|j: int| 0 <= j < s.len() implies s[j].device_mac != mac by {
                    if j > 0 {
                        assert(s[j] == s.drop_first()[j - 1]);
                    }
                }
            },
        }
    }
}

/// One step of the merge fold: insert `r` into the per-device map `s`.
pub open spec fn spec_merge_insert(s: Seq<LocationModel>, r: LocationModel) -> Seq<LocationModel> {
    match spec_find_mac(s, r.device_mac) {
        Some(i) => s.update(i, spec_merge_record(s[i], r)),
        None => s.push(r),
    }
}

/// The whole of one adapter's output merged into the map, in order.
pub open spec fn spec_merge_all(s: Seq<LocationModel>, rs: Seq<LocationModel>) -> Seq<LocationModel>
    decreases rs.len(),
{
    if rs.len() == 0 {
        s
    } else {
        spec_merge_all(spec_merge_insert(s, rs[0]), rs.drop_first())
    }
}

/// The map a whole cycle yields, folding each adapter's outcome in
/// turn into `acc` from index `i` on: a failed or timed-out adapter
/// (`None`) contributes nothing.
pub open spec fn spec_run_cycle_from(
    acc: Seq<LocationModel>,
    results: Seq<Option<Seq<LocationModel>>>,
    i: int,
) -> Seq<LocationModel>
    decreases results.len() - i,
{
    if i >= results.len() {
        acc
    } else {
        let next = match results[i] {
            Some(rs) => spec_merge_all(acc, rs),
            None => acc,
        };
        spec_run_cycle_from(next, results, i + 1)
    }
}

/// One cycle's merged map, from every adapter's outcome in order,
/// starting empty.  Deterministic given the per-adapter results: a
/// pure fold of the merge rule.
pub open spec fn spec_run_cycle(results: Seq<Option<Seq<LocationModel>>>) -> Seq<LocationModel> {
    spec_run_cycle_from(Seq::empty(), results, 0)
}

/// The per-device map a polling cycle accumulates: at most one record
/// per `device_mac`.
pub struct MergedMap {
    records: Vec<DeviceLocation>,
}

impl View for MergedMap {
    type V = Seq<LocationModel>;

    closed spec fn view(&self) -> Seq<LocationModel> {
        self.records.deep_view()
    }
}

/// No two records of the map share a device MAC.
pub open spec fn unique_macs(s: Seq<LocationModel>) -> bool {
    forall|i: int, j: int|
        0 <= i < j < s.len() ==> (#[trigger] s[i].device_mac) != (#[trigger] s[j].device_mac)
}

impl MergedMap {
    pub open spec fn wf(&self) -> bool {
        unique_macs(self@)
    }

    /// An empty cycle map.
    pub fn new() -> (r: MergedMap)
        ensures
            r@ == Seq::<LocationModel>::empty(),
            r.wf(),
    {
        let r = MergedMap { records: Vec::new() };
        proof {
            assert(r@ =~= Seq::<LocationModel>::empty());
        }
        r
    }

    /// The merged records, in the order their devices were first seen.
    pub fn records(&self) -> (r: &Vec<DeviceLocation>)
        ensures
            r.deep_view() == self@,
    {
        &self.records
    }

    /// Index of this map's record for `mac`, if one exists.
    fn find_index(&self, mac: &String) -> (r: Option<usize>)
        ensures
            match r {
                Some(i) => spec_find_mac(self@, mac@) == Some(i as int),
                None => spec_find_mac(self@, mac@) is None,
            },
    {
        proof {
            lemma_find_mac(self@, mac@);
        }
        let n = self.records.len();
        let mut i: usize = 0;
        while i < n
            invariant
                n == self@.len(),
                i <= n,
                forall|j: int| 0 <= j < i as int ==> self@[j].device_mac != mac@,
                match spec_find_mac(self@, mac@) {
                    Some(k) => 0 <= k < self@.len() && self@[k].device_mac == mac@ && (forall|
                        j: int,
                    | 0 <= j < k ==> self@[j].device_mac != mac@),
                    None => forall|j: int| 0 <= j < self@.len() ==> self@[j].device_mac != mac@,
                },
            decreases n - i,
        {
            if self.records[i].device_mac.eq(mac) {
                proof {
                    assert(self@[i as int].device_mac == mac@);
                }
                return Some(i);
            }
            i += 1;
        }
        None
    }

    /// Merge one freshly polled record into the map.
    pub fn insert(&mut self, rec: DeviceLocation)
        requires
            old(self).wf(),
        ensures
            final(self).wf(),
            final(self)@ == spec_merge_insert(old(self)@, rec@),
    {
        proof {
            lemma_find_mac(self@, rec@.device_mac);
        }
        let found = self.find_index(&rec.device_mac);
        match found {
            Some(i) => {
                let ghost old_model = self@;
                let old_rec = &self.records[i];
                let ipv4 = if rec.ipv4.as_str().is_empty() && !old_rec.ipv4.as_str().is_empty() {
                    old_rec.ipv4.clone()
                } else {
                    rec.ipv4
                };
                let merged = DeviceLocation {
                    ipv4,
                    ipv6: rec.ipv6,
                    device_mac: rec.device_mac,
                    remote_ip: rec.remote_ip,
                    remote_mac: rec.remote_mac,
                    location: rec.location,
                };
                self.records.remove(i);
                self.records.insert(i, merged);
                proof {
                    assert(self@ =~= old_model.update(
                        i as int,
                        spec_merge_record(old_model[i as int], rec@),
                    ));
                }
            },
            None => {
                let ghost old_model = self@;
                self.records.push(rec);
                proof {
                    assert(self@ =~= old_model.push(rec@));
                }
            },
        }
    }

    /// Merge a whole adapter result, record by record, in order.
    ///
    /// A timed-out or failed adapter hands `None` and contributes
    /// nothing to the cycle; the map is unchanged.
    pub fn absorb(&mut self, result: Option<Vec<DeviceLocation>>)
        requires
            old(self).wf(),
        ensures
            final(self).wf(),
            match result {
                Some(rs) => final(self)@ == spec_merge_all(old(self)@, rs.deep_view()),
                None => final(self)@ == old(self)@,
            },
    {
        match result {
            None => {},
            Some(rs) => {
                let ghost all = rs.deep_view();
                let mut rest = rs;
                let mut k: usize = 0;
                let n = rest.len();
                proof {
                    assert(all.skip(0) =~= all);
                }
                while k < n
                    invariant
                        self.wf(),
                        n == rest.len(),
                        k <= n,
                        rest.deep_view() == all,
                        all.len() == n,
                        spec_merge_all(old(self)@, all) == spec_merge_all(self@, all.skip(k as int)),
                    decreases n - k,
                {
                    let ghost before = self@;
                    let r = rest[k].duplicate();
                    self.insert(r);
                    k += 1;
                    proof {
                        assert(all.skip(k - 1).drop_first() =~= all.skip(k as int));
                        assert(all.skip(k - 1)[0] == all[k - 1]);
                        assert(spec_merge_all(before, all.skip(k - 1)) == spec_merge_all(
                            spec_merge_insert(before, all[k - 1]),
                            all.skip(k as int),
                        ));
                    }
                }
                proof {
                    assert(all.skip(n as int) =~= Seq::<LocationModel>::empty());
                }
            },
        }
    }
}

/// Fold one cycle's per-adapter outcomes into a fresh per-device map:
/// every adapter's records merged in order, a timed-out or failed
/// adapter contributing nothing.
pub fn run_cycle(results: Vec<Option<Vec<DeviceLocation>>>) -> (r: MergedMap)
    ensures
        r.wf(),
        r@ == spec_run_cycle(results.deep_view()),
{
    let ghost all = results.deep_view();
    let mut map = MergedMap::new();
    let mut rest = results;
    let mut k: usize = 0;
    let n = rest.len();
    proof {
        assert(all.skip(0) =~= all);
    }
    while k < n
        invariant
            map.wf(),
            k <= n,
            all.len() == n,
            rest.len() == n - k,
            rest.deep_view() == all.skip(k as int),
            spec_run_cycle(all) == spec_run_cycle_from(map@, all, k as int),
        decreases n - k,
    {
        let ghost before = map@;
        let ghost prior = rest.deep_view();
        let head = rest.remove(0);
        proof {
            assert(head.deep_view() == prior[0]);
            assert(all.skip(k as int)[0] == all[k as int]);
            assert forall|j: int| 0 <= j < rest.deep_view().len() implies rest.deep_view()[j]
                == all.skip(k as int + 1)[j] by {
                assert(rest.deep_view()[j] == prior[j + 1]);
                assert(all.skip(k as int + 1)[j] == all.skip(k as int)[j + 1]);
            }
            assert(rest.deep_view() =~= all.skip(k as int + 1));
        }
        map.absorb(head);
        k += 1;
        proof {
            assert(spec_run_cycle_from(before, all, k - 1) == spec_run_cycle_from(
                map@,
                all,
                k as int,
            ));
        }
    }
    map
}

} // verus!
