//! The slot map that hands out the layers' keys. The map itself comes from
//! the `slotmap` crate; what this module states of it is taken on trust.

use slotmap::{DefaultKey, SlotMap};
use vstd::prelude::*;

verus! {

/// The key type of `slotmap`: an index into the map's slots together with
/// the version of the slot at the time the key was handed out.
#[verifier::external_type_specification]
#[verifier::external_body]
pub struct ExDefaultKey(DefaultKey);

/// The slot map of `slotmap` that holds the creation number of each layer
/// under the layer's key.
#[verifier::external_body]
#[derive(Debug)]
pub struct LayerSlots {
    inner: SlotMap<DefaultKey, u64>,
}

/// The 64 bits that identify a key: what `KeyData::as_ffi` returns for it,
/// the slot's version in the upper half and its index in the lower.
pub uninterp spec fn key_bits(key: DefaultKey) -> u64;

/// What a slot map holds: the value stored under each live key, the key
/// taken by its bits. A slot map holds finitely many values.
pub uninterp spec fn slot_entries(slots: LayerSlots) -> Map<u64, u64>;

/// The most values that a slot map takes before `insert` panics.
pub const SLOT_LIMIT: usize = 0xffff_fffe;

/// `SlotMap::new`: a slot map that holds nothing.
#[verifier::external_body]
pub(crate) fn slots_new() -> (slots: LayerSlots)
    ensures
        slot_entries(slots) =~= Map::empty(),
{
    LayerSlots { inner: SlotMap::new() }
}

/// `SlotMap::insert`: stores the value under a key that was not live
/// before, and leaves every other key as it was. It panics on a full map,
/// which one with fewer than `SLOT_LIMIT` values is not.
#[verifier::external_body]
pub(crate) fn slots_insert(slots: &mut LayerSlots, value: u64) -> (key: DefaultKey)
    requires
        slot_entries(*old(slots)).dom().finite(),
        slot_entries(*old(slots)).dom().len() < SLOT_LIMIT,
    ensures
        !slot_entries(*old(slots)).contains_key(key_bits(key)),
        slot_entries(*final(slots)) == slot_entries(*old(slots)).insert(key_bits(key), value),
{
    slots.inner.insert(value)
}

/// `SlotMap::remove`: takes the value out that is stored under the key, if
/// the key is live, and leaves every other key as it was.
#[verifier::external_body]
pub(crate) fn slots_remove(slots: &mut LayerSlots, key: DefaultKey) -> (value: Option<u64>)
    ensures
        value == if slot_entries(*old(slots)).contains_key(key_bits(key)) {
            Some(slot_entries(*old(slots))[key_bits(key)])
        } else {
            None
        },
        slot_entries(*final(slots)) == slot_entries(*old(slots)).remove(key_bits(key)),
{
    slots.inner.remove(key)
}

/// `KeyData::as_ffi`, on the data of the key: the 64 bits that identify the
/// key.
#[verifier::external_body]
pub(crate) fn key_as_bits(key: DefaultKey) -> (bits: u64)
    ensures
        bits == key_bits(key),
{
    slotmap::Key::data(&key).as_ffi()
}

/// `SlotMap::get`: the value stored under the key, if the key is live.
#[verifier::external_body]
pub(crate) fn slots_get(slots: &LayerSlots, key: DefaultKey) -> (value: Option<u64>)
    ensures
        value == if slot_entries(*slots).contains_key(key_bits(key)) {
            Some(slot_entries(*slots)[key_bits(key)])
        } else {
            None
        },
{
    slots.inner.get(key).copied()
}

} // verus!
