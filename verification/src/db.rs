//! What the archive stores for each observation of an entity, and the
//! record of objects already written, which spares repeated inserts.

use dashmap::DashSet;
use vstd::prelude::*;

use crate::base::uuid_hash;
use crate::boundary::sip128_digest;
use crate::json::Json;
use crate::models::EntityKind;

verus! {

/// An observation of an entity: its data as fetched, when, and how long the
/// request took.
pub struct NewObject {
    pub kind: EntityKind,
    pub entity_id: u128,
    pub data: Json,
    /// Nanoseconds since the Unix epoch at which the request was sent.
    pub timestamp: i128,
    /// The request's duration in nanoseconds.
    pub request_time: i128,
}

#[verifier::external_type_specification]
#[verifier::external_body]
#[verifier::reject_recursive_types(K)]
#[verifier::reject_recursive_types(S)]
pub struct ExDashSet<K, S>(DashSet<K, S>);

/// The hashes a `dashmap::DashSet` holds.
pub uninterp spec fn dash_set_members(set: DashSet<u128>) -> Set<u128>;

/// `dashmap::DashSet::new`. Claims: the new set is empty.
#[verifier::external_body]
fn dash_set_new() -> (r: DashSet<u128>)
    ensures
        dash_set_members(r) == Set::<u128>::empty(),
{
    DashSet::new()
}

/// `dashmap::DashSet::contains`. Claims: whether the set holds `h`.
#[verifier::external_body]
fn dash_set_contains(set: &DashSet<u128>, h: u128) -> (r: bool)
    ensures
        r == dash_set_members(*set).contains(h),
{
    set.contains(&h)
}

/// `dashmap::DashSet::insert`. Claims: the set afterwards holds what it held
/// and `h`.
#[verifier::external_body]
fn dash_set_insert(set: &mut DashSet<u128>, h: u128)
    ensures
        dash_set_members(*final(set)) == dash_set_members(*old(set)).insert(h),
{
    set.insert(h);
}

/// The hashes of the objects this process has already written.
pub struct ObjectCache {
    saved: DashSet<u128>,
}

impl ObjectCache {
    /// The hashes recorded as written.
    pub closed spec fn saved(&self) -> Set<u128> {
        dash_set_members(self.saved)
    }

    pub fn new() -> (r: ObjectCache)
        ensures
            r.saved() == Set::<u128>::empty(),
    {
        ObjectCache { saved: dash_set_new() }
    }

    /// Whether an object with hash `h` still has to be written.
    pub fn needs_insert(&self, h: u128) -> (r: bool)
        ensures
            r == !self.saved().contains(h),
    {
        !dash_set_contains(&self.saved, h)
    }

    /// Records that the object with hash `h` has been written.
    pub fn mark_saved(&mut self, h: u128)
        ensures
            final(self).saved() == old(self).saved().insert(h),
    {
        dash_set_insert(&mut self.saved, h);
    }
}

/// The identifier under which an object is stored: the 128-bit SipHash of
/// its serialized JSON.
pub fn object_hash(body: &[u8]) -> (r: u128)
    ensures
        r == sip128_digest(body@),
{
    uuid_hash(body)
}

/// Once an object is recorded as written it is never written again, and
/// recording it keeps every earlier record.
pub proof fn lemma_mark_saved_is_lasting(before: Set<u128>, h: u128, other: u128)
    ensures
        before.insert(h).contains(h),
        before.contains(other) ==> before.insert(h).contains(other),
{
}

} // verus!
