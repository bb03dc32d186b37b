//! The capability check of requested features: which features the host
//! offers, and whether a requested feature set is covered by them.

use vstd::prelude::*;
use crate::program::Feature;
use crate::sys::System;

verus! {

/// The features the host offers, each with its availability.
///
/// Ordered so that a listing of the snapshot is deterministic.
pub struct FeaturesList {
    pub list: Vec<(Feature, bool)>,
}

impl View for FeaturesList {
    type V = Seq<(Feature, bool)>;

    open spec fn view(&self) -> Seq<(Feature, bool)> {
        self.list@
    }
}

/// Whether the snapshot carries an entry for `f`, available or not.
pub open spec fn spec_listed(list: Seq<(Feature, bool)>, f: Feature) -> bool {
    exists|i: int| 0 <= i < list.len() && list[i].0 == f
}

/// Whether every requested feature is listed in the snapshot. An entry
/// is enough, whatever its availability flag says; only a feature
/// without any entry fails validation.
pub open spec fn spec_validate(list: Seq<(Feature, bool)>, requested: Seq<Feature>) -> bool {
    forall|i: int| 0 <= i < requested.len() ==> spec_listed(list, requested[i])
}

/// The snapshot a given host yields: display and sound depend on the
/// probed drivers; devices, notifications, timezone and home persistence
/// are always offered; webcam and printer are never listed yet.
pub open spec fn spec_snapshot(wm_present: bool, sd_present: bool) -> Seq<(Feature, bool)> {
    seq![
        (Feature::Display, wm_present),
        (Feature::Sound, sd_present),
        (Feature::Devices, true),
        (Feature::Notification, true),
        (Feature::Time, true),
        (Feature::HomePersistent, true),
    ]
}

impl FeaturesList {
    /// Seeds the snapshot from the probe findings.
    pub fn new(system: &System) -> (r: Self)
        ensures
            r@ == spec_snapshot(system.wm is Some, system.sd is Some),
    {
        let mut list: Vec<(Feature, bool)> = Vec::new();
        list.push((Feature::Display, system.wm.is_some()));
        list.push((Feature::Sound, system.sd.is_some()));
        list.push((Feature::Devices, true));
        list.push((Feature::Notification, true));
        list.push((Feature::Time, true));
        list.push((Feature::HomePersistent, true));
        proof {
            assert(list@ =~= spec_snapshot(system.wm is Some, system.sd is Some));
        }
        FeaturesList { list }
    }

    /// Whether the snapshot lists `f` at all.
    pub fn is_listed(&self, f: Feature) -> (r: bool)
        ensures
            r == spec_listed(self@, f),
    {
        let mut i: usize = 0;
        while i < self.list.len()
            invariant
                i <= self.list.len(),
                forall|j: int| 0 <= j < i ==> self@[j].0 != f,
            decreases self.list.len() - i,
        {
            if self.list[i].0 == f {
                return true;
            }
            i = i + 1;
        }
        false
    }

    /// Validates a requested feature set against the snapshot: every
    /// requested feature must be listed.
    pub fn validate(&self, settings: &Vec<Feature>) -> (r: bool)
        ensures
            r == spec_validate(self@, settings@),
    {
        let mut i: usize = 0;
        while i < settings.len()
            invariant
                i <= settings.len(),
                forall|j: int| 0 <= j < i ==> spec_listed(self@, settings@[j]),
            decreases settings.len() - i,
        {
            if !self.is_listed(settings[i]) {
                return false;
            }
            i = i + 1;
        }
        true
    }
}

} // verus!
