use vstd::prelude::*;
use crate::model::{Date, MirrorRecord, same_signal};

verus! {

/// What a lookup of a freshness signal came back with.
#[derive(Clone, Copy, Debug, PartialEq, Eq, Structural)]
pub enum Lookup {
    Found(Date),
    NoData,
    Failed,
}

impl Lookup {
    /// The signal a lookup yields: a failed lookup counts as no signal.
    pub fn observed(self) -> (r: Option<Date>)
        ensures
            r == (match self {
                Lookup::Found(d) => Some(d),
                _ => None,
            }),
    {
        match self {
            Lookup::Found(d) => Some(d),
            _ => None,
        }
    }
}

/// The fields of a partial update; an absent field is left as stored.
#[derive(Clone, Copy, Debug, PartialEq, Eq, Structural)]
pub struct Patch {
    pub release: Option<Date>,
    pub commit: Option<Date>,
}

pub open spec fn delta_of(observed: Option<Date>, stored: Option<Date>) -> Option<Date> {
    if observed == stored {
        None
    } else {
        observed
    }
}

/// The patch owed to a record with the given stored signals, or `None`
/// when neither field would change.
pub open spec fn patch_of(
    stored_release: Option<Date>,
    stored_commit: Option<Date>,
    observed_release: Option<Date>,
    observed_commit: Option<Date>,
) -> Option<Patch> {
    let release = delta_of(observed_release, stored_release);
    let commit = delta_of(observed_commit, stored_commit);
    if release is None && commit is None {
        None
    } else {
        Some(Patch { release, commit })
    }
}

impl Patch {
    pub open spec fn is_empty(self) -> bool {
        self.release is None && self.commit is None
    }
}

/// The observed signal when it differs from the stored one, else `None`.
pub fn delta(observed: Option<Date>, stored: Option<Date>) -> (r: Option<Date>)
    ensures
        r == delta_of(observed, stored),
{
    if same_signal(observed, stored) {
        None
    } else {
        observed
    }
}

/// Compares a record's stored signals with the observed ones and returns the
/// patch to send, if any. A returned patch always carries at least one field.
pub fn freshness_patch(
    record: &MirrorRecord,
    observed_release: Option<Date>,
    observed_commit: Option<Date>,
) -> (r: Option<Patch>)
    ensures
        r == patch_of(record.stored_release, record.stored_commit, observed_release, observed_commit),
        r matches Some(p) ==> !p.is_empty(),
{
    let release = delta(observed_release, record.stored_release);
    let commit = delta(observed_commit, record.stored_commit);
    if release.is_none() && commit.is_none() {
        None
    } else {
        Some(Patch { release, commit })
    }
}

} // verus!
