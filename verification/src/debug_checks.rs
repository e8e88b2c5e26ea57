//! The set of handles that are valid at the moment.
//!
//! The registry consults it, where it keeps one, before it treats a handle as
//! naming an allocation, so that a stale or forged handle is caught at the
//! door.

use std::collections::BTreeSet;
use vstd::prelude::*;

verus! {

broadcast use vstd::std_specs::btree::group_btree_axioms;

/// The handles that are valid at the moment.
pub struct ValidIds {
    ids: BTreeSet<u64>,
}

impl View for ValidIds {
    type V = Set<u64>;

    closed spec fn view(&self) -> Set<u64> {
        self.ids@
    }
}

impl ValidIds {
    /// No handle is valid.
    pub fn new() -> (valid_ids: ValidIds)
        ensures
            valid_ids@ == Set::<u64>::empty(),
    {
        ValidIds { ids: BTreeSet::new() }
    }

    /// Whether `id` is registered.
    pub fn contains(&self, id: u64) -> (registered: bool)
        ensures
            registered == self@.contains(id),
    {
        self.ids.contains(&id)
    }
}

/// Registers `id`, which must not be registered yet.
pub fn add_id(valid_ids: &mut ValidIds, id: u64)
    requires
        !old(valid_ids)@.contains(id),
    ensures
        final(valid_ids)@ == old(valid_ids)@.insert(id),
{
    valid_ids.ids.insert(id);
}

/// Unregisters `id`, which must be registered.
pub fn remove_id(valid_ids: &mut ValidIds, id: u64)
    requires
        old(valid_ids)@.contains(id),
    ensures
        final(valid_ids)@ == old(valid_ids)@.remove(id),
{
    valid_ids.ids.remove(&id);
}

/// Passes a handle that is registered. A caller that cannot show that `id`
/// is registered has no call to make: it tests with [`ValidIds::contains`]
/// and stops where the handle is unknown.
pub fn check_id(valid_ids: &ValidIds, id: u64)
    requires
        valid_ids@.contains(id),
{
}

} // verus!
