//! The reconciliation engine.
//!
//! After a cycle's observations are merged into one record per device,
//! two lookup tables are drawn from the merged map — device MAC to its
//! IPv4 and IPv4 back to device MAC, from every record whose `ipv4` is
//! known — and used to complete each record's attachment point: a
//! missing `remote_ip` is resolved through the uplink's MAC, then a
//! missing `remote_mac` through the (possibly just resolved) uplink IP.
//! Records whose `remote_mac` is still empty afterwards carry no
//! actionable location and are dropped.

use vstd::prelude::*;

use crate::merge::MergedMap;
use crate::record::{DeviceLocation, LocationModel};

verus! {

/// The `mac_to_ip` table: the IPv4 of the record keyed `mac`, drawn only
/// from records whose `ipv4` is non-empty; a later record wins.
pub open spec fn mac_ip_lookup(s: Seq<LocationModel>, mac: Seq<char>) -> Option<Seq<char>>
    decreases s.len(),
{
    if s.len() == 0 {
        None
    } else if s.last().ipv4.len() > 0 && s.last().device_mac == mac {
        Some(s.last().ipv4)
    } else {
        mac_ip_lookup(s.drop_last(), mac)
    }
}

/// The `ip_to_mac` table: the device MAC of the record whose non-empty
/// `ipv4` equals `ip`; a later record wins.
pub open spec fn ip_mac_lookup(s: Seq<LocationModel>, ip: Seq<char>) -> Option<Seq<char>>
    decreases s.len(),
{
    if s.len() == 0 {
        None
    } else if s.last().ipv4.len() > 0 && s.last().ipv4 == ip {
        Some(s.last().device_mac)
    } else {
        ip_mac_lookup(s.drop_last(), ip)
    }
}

/// One record after the two fill rules, applied in order against the
/// tables drawn from `src`, each only if the target field is empty.
pub open spec fn spec_fill_record(r: LocationModel, src: Seq<LocationModel>) -> LocationModel {
    let r1 = if r.remote_ip.len() == 0 {
        match mac_ip_lookup(src, r.remote_mac) {
            Some(ip) => LocationModel {
                ipv4: r.ipv4,
                ipv6: r.ipv6,
                device_mac: r.device_mac,
                remote_ip: ip,
                remote_mac: r.remote_mac,
                location: r.location,
            },
            None => r,
        }
    } else {
        r
    };
    if r1.remote_mac.len() == 0 {
        match ip_mac_lookup(src, r1.remote_ip) {
            Some(m) => LocationModel {
                ipv4: r1.ipv4,
                ipv6: r1.ipv6,
                device_mac: r1.device_mac,
                remote_ip: r1.remote_ip,
                remote_mac: m,
                location: r1.location,
            },
            None => r1,
        }
    } else {
        r1
    }
}

/// Every record filled against the tables of the whole map.
pub open spec fn spec_fill_all(s: Seq<LocationModel>) -> Seq<LocationModel> {
    s.map_values(|r: LocationModel| spec_fill_record(r, s))
}

/// The final filter: records whose `remote_mac` is still empty are
/// unlocatable this cycle and are dropped; order is kept.
pub open spec fn drop_incomplete(s: Seq<LocationModel>) -> Seq<LocationModel>
    decreases s.len(),
{
    if s.len() == 0 {
        s
    } else {
        let rest = drop_incomplete(s.drop_last());
        if s.last().remote_mac.len() > 0 {
            rest.push(s.last())
        } else {
            rest
        }
    }
}

/// The whole reconciliation: fill, then drop incomplete records.
pub open spec fn spec_reconcile(s: Seq<LocationModel>) -> Seq<LocationModel> {
    drop_incomplete(spec_fill_all(s))
}

/// What a successful `mac_to_ip` lookup means — and that a failed one
/// means no record with that MAC knows its IPv4.
pub proof fn lemma_mac_ip_lookup(s: Seq<LocationModel>, mac: Seq<char>)
    ensures
        match mac_ip_lookup(s, mac) {
            Some(ip) => ip.len() > 0 && exists|i: int|
                0 <= i < s.len() && s[i].device_mac == mac && s[i].ipv4 == ip,
            None => forall|i: int|
                0 <= i < s.len() ==> !((#[trigger] s[i]).device_mac == mac && s[i].ipv4.len()
                    > 0),
        },
    decreases s.len(),
{
    if s.len() > 0 {
        if s.last().ipv4.len() > 0 && s.last().device_mac == mac {
            assert(s[s.len() - 1] == s.last());
        } else {
            lemma_mac_ip_lookup(s.drop_last(), mac);
            match mac_ip_lookup(s.drop_last(), mac) {
                Some(ip) => {
                    let i = choose|i: int|
                        0 <= i < s.drop_last().len() && s.drop_last()[i].device_mac == mac
                            && s.drop_last()[i].ipv4 == ip;
                    assert(s[i] == s.drop_last()[i]);
                },
                None => {
                    assert forall|i: int|
                        0 <= i < s.len() implies !((#[trigger] s[i]).device_mac == mac
                        && s[i].ipv4.len() > 0) by {
                        if i < s.len() - 1 {
                            assert(s[i] == s.drop_last()[i]);
                        } else {
                            assert(s[i] == s.last());
                        }
                    }
                },
            }
        }
    }
}

/// What a successful `ip_to_mac` lookup means; its keys are non-empty
/// IPv4 addresses, so looking up an empty `remote_ip` never fills.
pub proof fn lemma_ip_mac_lookup(s: Seq<LocationModel>, ip: Seq<char>)
    ensures
        match ip_mac_lookup(s, ip) {
            Some(m) => ip.len() > 0 && exists|i: int|
                0 <= i < s.len() && s[i].ipv4 == ip && s[i].device_mac == m,
            None => true,
        },
    decreases s.len(),
{
    if s.len() > 0 {
        if s.last().ipv4.len() > 0 && s.last().ipv4 == ip {
            assert(s[s.len() - 1] == s.last());
        } else {
            lemma_ip_mac_lookup(s.drop_last(), ip);
            match ip_mac_lookup(s.drop_last(), ip) {
                Some(m) => {
                    let i = choose|i: int|
                        0 <= i < s.drop_last().len() && s.drop_last()[i].ipv4 == ip
                            && s.drop_last()[i].device_mac == m;
                    assert(s[i] == s.drop_last()[i]);
                },
                None => {},
            }
        }
    }
}

/// Every record the filter keeps has a non-empty `remote_mac` and was
/// among the filled records.
pub proof fn lemma_drop_incomplete_elems(s: Seq<LocationModel>)
    ensures
        forall|i: int|
            0 <= i < drop_incomplete(s).len() ==> (#[trigger] drop_incomplete(
                s,
            )[i]).remote_mac.len() > 0,
        forall|i: int|
            0 <= i < drop_incomplete(s).len() ==> s.contains(#[trigger] drop_incomplete(s)[i]),
    decreases s.len(),
{
    if s.len() > 0 {
        lemma_drop_incomplete_elems(s.drop_last());
        assert forall|i: int|
            0 <= i < drop_incomplete(s).len() implies (#[trigger] drop_incomplete(
            s,
        )[i]).remote_mac.len() > 0 && s.contains(drop_incomplete(s)[i]) by {
            let rest = drop_incomplete(s.drop_last());
            if i < rest.len() {
                assert(drop_incomplete(s)[i] == rest[i]);
                let j = choose|j: int|
                    0 <= j < s.drop_last().len() && s.drop_last()[j] == rest[i];
                assert(s[j] == rest[i]);
            } else {
                assert(drop_incomplete(s)[i] == s.last());
                assert(s[s.len() - 1] == s.last());
            }
        }
    }
}

/// The filter passes a sequence of complete records through unchanged.
pub proof fn lemma_drop_incomplete_all_complete(s: Seq<LocationModel>)
    requires
        forall|i: int| 0 <= i < s.len() ==> (#[trigger] s[i]).remote_mac.len() > 0,
    ensures
        drop_incomplete(s) == s,
    decreases s.len(),
{
    if s.len() > 0 {
        assert(s[s.len() - 1] == s.last());
        assert forall|i: int|
            0 <= i < s.drop_last().len() implies (#[trigger] s.drop_last()[i]).remote_mac.len()
            > 0 by {
            assert(s.drop_last()[i] == s[i]);
        }
        lemma_drop_incomplete_all_complete(s.drop_last());
        assert(drop_incomplete(s) =~= s);
    }
}

/// Filling changes only `remote_ip` and `remote_mac`, and re-filling a
/// surviving record against the reconciled output changes nothing:
/// each of its empty fields was empty because the tables of the full
/// map had no entry, and the output's tables are drawn from a subset of
/// the same records with unchanged `device_mac` and `ipv4`.
proof fn lemma_fill_identity(s: Seq<LocationModel>, r0: LocationModel, out: Seq<LocationModel>)
    requires
        forall|k: int|
            0 <= k < out.len() ==> exists|j: int|
                0 <= j < s.len() && #[trigger] out[k] == spec_fill_record(s[j], s),
        spec_fill_record(r0, s).remote_mac.len() > 0,
    ensures
        spec_fill_record(spec_fill_record(r0, s), out) == spec_fill_record(r0, s),
{
    let r = spec_fill_record(r0, s);
    lemma_mac_ip_lookup(s, r0.remote_mac);
    lemma_ip_mac_lookup(
        s,
        if r0.remote_ip.len() == 0 {
            match mac_ip_lookup(s, r0.remote_mac) {
                Some(ip) => ip,
                None => r0.remote_ip,
            }
        } else {
            r0.remote_ip
        },
    );
    if r.remote_ip.len() == 0 {
        // Both fill steps left remote_ip empty, so the first lookup found
        // nothing and remote_mac was already non-empty in r0.
        assert(r.remote_mac == r0.remote_mac);
        assert(mac_ip_lookup(s, r0.remote_mac) is None);
        lemma_mac_ip_lookup(out, r.remote_mac);
        match mac_ip_lookup(out, r.remote_mac) {
            Some(ip) => {
                let k = choose|k: int|
                    0 <= k < out.len() && out[k].device_mac == r.remote_mac && out[k].ipv4 == ip;
                let j = choose|j: int|
                    0 <= j < s.len() && out[k] == spec_fill_record(s[j], s);
                assert(s[j].device_mac == r.remote_mac && s[j].ipv4.len() > 0);
            },
            None => {},
        }
        assert(mac_ip_lookup(out, r.remote_mac) is None);
    }
}

/// DROP-FILTER INVARIANT.  Every record of the reconciled output has a
/// non-empty `remote_mac`, whatever the merged map held.
pub proof fn lemma_reconcile_complete(s: Seq<LocationModel>)
    ensures
        forall|i: int|
            0 <= i < spec_reconcile(s).len() ==> (#[trigger] spec_reconcile(
                s,
            )[i]).remote_mac.len() > 0,
{
    lemma_drop_incomplete_elems(spec_fill_all(s));
}

/// IDEMPOTENCE.  Reconciling the reconciled output changes nothing:
/// cross-referencing is exhaustive in one pass and the filter's
/// survivors all stay.
pub proof fn lemma_reconcile_idempotent(s: Seq<LocationModel>)
    ensures
        spec_reconcile(spec_reconcile(s)) == spec_reconcile(s),
{
    let filled = spec_fill_all(s);
    let out = spec_reconcile(s);
    lemma_drop_incomplete_elems(filled);
    assert forall|k: int|
        0 <= k < out.len() implies exists|j: int|
        0 <= j < s.len() && #[trigger] out[k] == spec_fill_record(s[j], s) by {
        assert(filled.contains(out[k]));
        let j = choose|j: int| 0 <= j < filled.len() && filled[j] == out[k];
        assert(filled[j] == spec_fill_record(s[j], s));
        assert(out[k] == spec_fill_record(s[j], s));
    }
    assert forall|k: int| 0 <= k < out.len() implies #[trigger] spec_fill_record(out[k], out)
        == out[k] by {
        let j = choose|j: int| 0 <= j < s.len() && out[k] == spec_fill_record(s[j], s);
        assert(out[k].remote_mac.len() > 0);
        lemma_fill_identity(s, s[j], out);
    }
    assert(spec_fill_all(out) =~= out);
    lemma_drop_incomplete_all_complete(out);
}

/// The record `mac_to_ip` holds for `mac`, scanning the merged records.
fn lookup_ip_by_mac(records: &Vec<DeviceLocation>, mac: &String) -> (r: Option<String>)
    ensures
        match r {
            Some(ip) => mac_ip_lookup(records.deep_view(), mac@) == Some(ip@),
            None => mac_ip_lookup(records.deep_view(), mac@) is None,
        },
{
    let ghost full = records.deep_view();
    let mut i: usize = records.len();
    proof {
        assert(full.take(i as int) =~= full);
    }
    while i > 0
        invariant
            i <= records.len(),
            full == records.deep_view(),
            mac_ip_lookup(full, mac@) == mac_ip_lookup(full.take(i as int), mac@),
        decreases i,
    {
        i -= 1;
        let rec = &records[i];
        proof {
            assert(full.take(i as int + 1).last() == full[i as int]);
            assert(full.take(i as int + 1).drop_last() =~= full.take(i as int));
            assert(full[i as int] == rec@);
        }
        if !rec.ipv4.as_str().is_empty() && rec.device_mac.eq(mac) {
            return Some(rec.ipv4.clone());
        }
    }
    proof {
        assert(full.take(0) =~= Seq::<LocationModel>::empty());
    }
    None
}

/// The record `ip_to_mac` holds for `ip`, scanning the merged records.
fn lookup_mac_by_ip(records: &Vec<DeviceLocation>, ip: &String) -> (r: Option<String>)
    ensures
        match r {
            Some(m) => ip_mac_lookup(records.deep_view(), ip@) == Some(m@),
            None => ip_mac_lookup(records.deep_view(), ip@) is None,
        },
{
    let ghost full = records.deep_view();
    let mut i: usize = records.len();
    proof {
        assert(full.take(i as int) =~= full);
    }
    while i > 0
        invariant
            i <= records.len(),
            full == records.deep_view(),
            ip_mac_lookup(full, ip@) == ip_mac_lookup(full.take(i as int), ip@),
        decreases i,
    {
        i -= 1;
        let rec = &records[i];
        proof {
            assert(full.take(i as int + 1).last() == full[i as int]);
            assert(full.take(i as int + 1).drop_last() =~= full.take(i as int));
            assert(full[i as int] == rec@);
        }
        if !rec.ipv4.as_str().is_empty() && rec.ipv4.eq(ip) {
            return Some(rec.device_mac.clone());
        }
    }
    proof {
        assert(full.take(0) =~= Seq::<LocationModel>::empty());
    }
    None
}

/// One record completed against the tables drawn from `src`.
fn fill_one(src: &Vec<DeviceLocation>, r: &DeviceLocation) -> (out: DeviceLocation)
    ensures
        out@ == spec_fill_record(r@, src.deep_view()),
{
    let mut out = r.duplicate();
    if out.remote_ip.as_str().is_empty() {
        match lookup_ip_by_mac(src, &out.remote_mac) {
            Some(ip) => {
                out.remote_ip = ip;
            },
            None => {},
        }
    }
    if out.remote_mac.as_str().is_empty() {
        match lookup_mac_by_ip(src, &out.remote_ip) {
            Some(m) => {
                out.remote_mac = m;
            },
            None => {},
        }
    }
    out
}

/// Cross-reference the merged map: complete every record's attachment
/// point from what all sources together learned this cycle.
pub fn fill_missing_information(map: &MergedMap) -> (out: Vec<DeviceLocation>)
    ensures
        out.deep_view() == spec_fill_all(map@),
{
    let records = map.records();
    let ghost full = records.deep_view();
    let mut out: Vec<DeviceLocation> = Vec::new();
    let mut i: usize = 0;
    while i < records.len()
        invariant
            i <= records.len(),
            full == records.deep_view(),
            out.len() == i,
            forall|j: int|
                0 <= j < i as int ==> out.deep_view()[j] == spec_fill_record(
                    #[trigger] full[j],
                    full,
                ),
        decreases records.len() - i,
    {
        let filled = fill_one(records, &records[i]);
        out.push(filled);
        i += 1;
    }
    proof {
        assert(out.deep_view() =~= spec_fill_all(full));
    }
    out
}

/// Reconcile a cycle's merged map: fill missing attachment-point fields
/// by cross-reference, then drop the records that remain unlocatable.
/// Every record returned names its attachment point.
pub fn reconcile(map: &MergedMap) -> (out: Vec<DeviceLocation>)
    ensures
        out.deep_view() == spec_reconcile(map@),
        forall|i: int|
            0 <= i < out.deep_view().len() ==> (#[trigger] out.deep_view()[i]).remote_mac.len()
                > 0,
{
    let filled = fill_missing_information(map);
    let ghost fm = filled.deep_view();
    let mut out: Vec<DeviceLocation> = Vec::new();
    let mut i: usize = 0;
    proof {
        assert(fm.take(0) =~= Seq::<LocationModel>::empty());
    }
    while i < filled.len()
        invariant
            i <= filled.len(),
            fm == filled.deep_view(),
            out.deep_view() == drop_incomplete(fm.take(i as int)),
        decreases filled.len() - i,
    {
        let ghost before = out.deep_view();
        let rec = &filled[i];
        proof {
            assert(fm.take(i as int + 1).last() == fm[i as int]);
            assert(fm.take(i as int + 1).drop_last() =~= fm.take(i as int));
            assert(fm[i as int] == rec@);
        }
        if !rec.remote_mac.as_str().is_empty() {
            out.push(rec.duplicate());
            proof {
                assert(out.deep_view() =~= before.push(fm[i as int]));
            }
        }
        i += 1;
    }
    proof {
        assert(fm.take(filled.len() as int) =~= fm);
        lemma_reconcile_complete(map@);
    }
    out
}

} // verus!
