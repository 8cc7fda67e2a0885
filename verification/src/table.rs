//! The table of jobs in flight: a `slotmap::DenseSlotMap` that hands out a
//! fresh key for each job.
//!
//! Keys are passed around as the 64-bit integers of `KeyData::as_ffi`. What the
//! table holds is modelled as a map from those integers to the job records.
//! The integer of a live key always has an odd upper half (slot versions of
//! occupied slots are odd), and for such an integer `KeyData::from_ffi` gives
//! back the very key.
use vstd::prelude::*;
use slotmap::{DefaultKey, DenseSlotMap, Key, KeyData};
use crate::scheduler::JobInfo;

verus! {

/// The table of jobs in flight. The slot map sits in a private field that
/// only the wrappers below touch; [`table_contents`] says what it holds.
#[verifier::external_body]
pub struct JobTable {
    slots: DenseSlotMap<DefaultKey, JobInfo>,
}

/// What the table holds: the integer of each live key mapped to its record.
pub uninterp spec fn table_contents(t: JobTable) -> Map<u64, JobInfo>;

/// The most jobs the table holds: `DenseSlotMap` keeps fewer than 2^32 - 2 values.
pub const MAX_JOBS: usize = 4294967294;

/// An integer of the shape of a live key's: the version, in the upper half, is odd.
pub open spec fn is_key_id(id: u64) -> bool {
    (id / 4294967296) % 2 == 1
}

/// Tells whether `id` has the shape of a live key's integer.
pub fn key_id_shape(id: u64) -> (b: bool)
    ensures
        b == is_key_id(id),
{
    (id / 4294967296) % 2 == 1
}

/// The contents of an empty table.
pub open spec fn empty_table() -> Map<u64, JobInfo> {
    Map::empty()
}

/// Calls `DenseSlotMap::new`, which creates an empty table.
#[verifier::external_body]
pub(crate) fn table_new() -> (t: JobTable)
    ensures
        table_contents(t) == empty_table(),
{
    JobTable { slots: DenseSlotMap::new() }
}

/// Calls `DenseSlotMap::insert`: the value gets a key that no live value
/// has, whose integer (by `KeyData::as_ffi`) is returned. The crate panics
/// when the table is full, so fewer than `MAX_JOBS` values are required.
#[verifier::external_body]
pub(crate) fn table_insert(t: &mut JobTable, value: JobInfo) -> (id: u64)
    requires
        table_contents(*old(t)).len() < MAX_JOBS,
    ensures
        is_key_id(id),
        !table_contents(*old(t)).contains_key(id),
        table_contents(*final(t)) == table_contents(*old(t)).insert(id, value),
{
    t.slots.insert(value).data().as_ffi()
}

/// Calls `DenseSlotMap::get` with the key of integer `id`: the record of a
/// live key, or `None`.
#[verifier::external_body]
pub(crate) fn table_get(t: &JobTable, id: u64) -> (r: Option<JobInfo>)
    requires
        is_key_id(id),
    ensures
        table_contents(*t).contains_key(id) ==> r == Some(table_contents(*t)[id]),
        !table_contents(*t).contains_key(id) ==> r is None,
{
    let key: DefaultKey = KeyData::from_ffi(id).into();
    t.slots.get(key).copied()
}

/// Writes through `DenseSlotMap`'s `IndexMut` with the key of integer `id`,
/// which must be live (the crate panics otherwise): the key's record is replaced.
#[verifier::external_body]
pub(crate) fn table_set(t: &mut JobTable, id: u64, value: JobInfo)
    requires
        table_contents(*old(t)).contains_key(id),
    ensures
        table_contents(*final(t)) == table_contents(*old(t)).insert(id, value),
{
    let key: DefaultKey = KeyData::from_ffi(id).into();
    t.slots[key] = value;
}

/// Calls `DenseSlotMap::remove` with the key of integer `id`: a live key's
/// record is removed and returned; otherwise `None` comes back and nothing changes.
#[verifier::external_body]
pub(crate) fn table_remove(t: &mut JobTable, id: u64) -> (r: Option<JobInfo>)
    requires
        is_key_id(id),
    ensures
        table_contents(*old(t)).contains_key(id) ==> r == Some(table_contents(*old(t))[id])
            && table_contents(*final(t)) == table_contents(*old(t)).remove(id),
        !table_contents(*old(t)).contains_key(id) ==> r is None && table_contents(*final(t))
            == table_contents(*old(t)),
{
    let key: DefaultKey = KeyData::from_ffi(id).into();
    t.slots.remove(key)
}

} // verus!
