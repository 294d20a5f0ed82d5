//! The shared state between the poll loop and the publish loop.
//!
//! The poll loop replaces the table wholesale and raises the dirty
//! flag; the publish loop drains the table — takes a copy and clears
//! the flag — only when the flag is raised.  No partial updates: each
//! cycle's output replaces the previous table entirely.

use vstd::prelude::*;

use crate::record::{DeviceLocation, LocationModel};

verus! {

/// Mathematical model of the shared publish state.
pub ghost struct PublishModel {
    pub dirty: bool,
    pub records: Seq<LocationModel>,
}

/// What the producer side does at the end of a cycle: replace the
/// table and mark it dirty.
pub open spec fn spec_store(s: PublishModel, rs: Seq<LocationModel>) -> PublishModel {
    PublishModel { dirty: true, records: rs }
}

/// What one consumer iteration does: if dirty, clear the flag and take
/// a copy of the table; otherwise take nothing and leave the state be.
pub open spec fn spec_drain(s: PublishModel) -> (PublishModel, Option<Seq<LocationModel>>) {
    if s.dirty {
        (PublishModel { dirty: false, records: s.records }, Some(s.records))
    } else {
        (s, None)
    }
}

/// DIRTY-FLAG HANDOFF.  After a cycle stores new records, exactly one
/// subsequent drain observes the dirty flag and takes exactly the
/// stored records; every further drain before the next store takes
/// nothing and leaves the state unchanged.
pub proof fn lemma_dirty_handoff(s: PublishModel, rs: Seq<LocationModel>)
    ensures
        ({
            let stored = spec_store(s, rs);
            let first = spec_drain(stored);
            let second = spec_drain(first.0);
            &&& first.1 == Some(rs)
            &&& first.0.records == rs
            &&& second.1 == None::<Seq<LocationModel>>
            &&& second.0 == first.0
        }),
{
}

/// The process-wide table of reconciled records plus its dirty flag.
pub struct SharedPublishState {
    dirty: bool,
    records: Vec<DeviceLocation>,
}

impl View for SharedPublishState {
    type V = PublishModel;

    closed spec fn view(&self) -> PublishModel {
        PublishModel { dirty: self.dirty, records: self.records.deep_view() }
    }
}

impl SharedPublishState {
    /// The state at startup: nothing to publish yet.
    pub fn new() -> (r: SharedPublishState)
        ensures
            r@ == (PublishModel { dirty: false, records: Seq::<LocationModel>::empty() }),
    {
        let r = SharedPublishState { dirty: false, records: Vec::new() };
        proof {
            assert(r@.records =~= Seq::<LocationModel>::empty());
        }
        r
    }

    /// Producer side: replace the table with this cycle's output and
    /// raise the dirty flag.
    pub fn store(&mut self, records: Vec<DeviceLocation>)
        ensures
            final(self)@ == spec_store(old(self)@, records.deep_view()),
    {
        self.records = records;
        self.dirty = true;
    }

    /// Consumer side: take a copy of the table if it changed since the
    /// last drain, clearing the flag; otherwise take nothing.
    pub fn drain(&mut self) -> (r: Option<Vec<DeviceLocation>>)
        ensures
            final(self)@ == spec_drain(old(self)@).0,
            match r {
                Some(v) => spec_drain(old(self)@).1 == Some(v.deep_view()),
                None => spec_drain(old(self)@).1 is None,
            },
    {
        if self.dirty {
            self.dirty = false;
            Some(clone_records(&self.records))
        } else {
            None
        }
    }
}

/// An element-wise copy of a vector of records.
pub fn clone_records(v: &Vec<DeviceLocation>) -> (r: Vec<DeviceLocation>)
    ensures
        r.deep_view() == v.deep_view(),
{
    let mut r: Vec<DeviceLocation> = Vec::new();
    let mut i: usize = 0;
    while i < v.len()
        invariant
            i <= v.len(),
            r.len() == i,
            forall|j: int| 0 <= j < i as int ==> r.deep_view()[j] == v.deep_view()[j],
        decreases v.len() - i,
    {
        r.push(v[i].duplicate());
        i += 1;
    }
    proof {
        assert(r.deep_view() =~= v.deep_view());
    }
    r
}

} // verus!
