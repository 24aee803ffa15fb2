//! The `rustc_hash` collections that the monitor and the applet keep, seen
//! through the sets and maps of integers and records that they hold.
//!
//! `FxHashMap` and `FxHashSet` are the standard hash collections with the
//! `FxBuildHasher` of `rustc_hash`. Each function here makes one call of the
//! standard collection method and states what that method does to, or reads
//! from, the contents.

use vstd::prelude::*;
use rustc_hash::{FxBuildHasher, FxHashMap, FxHashSet};
use crate::pipewire_monitor::{DeviceUsage, PendingVideoStream};

verus! {

#[verifier::external_type_specification]
#[verifier::external_body]
pub struct ExFxBuildHasher(FxBuildHasher);

/// A set of PipeWire object ids.
pub type IdSet = FxHashSet<u32>;

/// Link object id to the id of the stream node it feeds.
pub type LinkMap = FxHashMap<u32, u32>;

/// Video stream node id to what is known of the stream before it is classified.
pub type PendingMap = FxHashMap<u32, PendingVideoStream>;

/// Node id (or process id) to the device usage recorded under it.
pub type DeviceMap = FxHashMap<u32, DeviceUsage>;

/// The node ids that an `FxHashSet<u32>` holds.
pub uninterp spec fn id_set_contents(s: FxHashSet<u32>) -> Set<u32>;

/// The entries of an `FxHashMap<u32, u32>` (link id to stream node id).
pub uninterp spec fn link_map_contents(m: FxHashMap<u32, u32>) -> Map<u32, u32>;

/// The entries of an `FxHashMap<u32, PendingVideoStream>`.
pub uninterp spec fn pending_map_contents(m: FxHashMap<u32, PendingVideoStream>) -> Map<u32, PendingVideoStream>;

/// The entries of an `FxHashMap<u32, DeviceUsage>`.
pub uninterp spec fn device_map_contents(m: FxHashMap<u32, DeviceUsage>) -> Map<u32, DeviceUsage>;

/// `FxHashSet::default()`: an empty set.
#[verifier::external_body]
pub(crate) fn id_set_new() -> (r: IdSet)
    ensures
        id_set_contents(r) == Set::<u32>::empty(),
{
    FxHashSet::default()
}

/// `HashSet::insert`: afterwards the set also holds `id`.
#[verifier::external_body]
pub(crate) fn id_set_insert(s: &mut FxHashSet<u32>, id: u32)
    ensures
        id_set_contents(*final(s)) == id_set_contents(*old(s)).insert(id),
{
    s.insert(id);
}

/// `HashSet::remove`: afterwards the set no longer holds `id`.
#[verifier::external_body]
pub(crate) fn id_set_remove(s: &mut FxHashSet<u32>, id: u32)
    ensures
        id_set_contents(*final(s)) == id_set_contents(*old(s)).remove(id),
{
    s.remove(&id);
}

/// `HashSet::contains`.
#[verifier::external_body]
pub(crate) fn id_set_contains(s: &FxHashSet<u32>, id: u32) -> (r: bool)
    ensures
        r == id_set_contents(*s).contains(id),
{
    s.contains(&id)
}

/// `FxHashMap::default()`: an empty map.
#[verifier::external_body]
pub(crate) fn link_map_new() -> (r: LinkMap)
    ensures
        link_map_contents(r).dom() == Set::<u32>::empty(),
{
    FxHashMap::default()
}

/// `HashMap::insert`: afterwards `link` maps to `stream`.
#[verifier::external_body]
pub(crate) fn link_map_insert(m: &mut FxHashMap<u32, u32>, link: u32, stream: u32)
    ensures
        link_map_contents(*final(m)) == link_map_contents(*old(m)).insert(link, stream),
{
    m.insert(link, stream);
}

/// `HashMap::remove`: hands back the entry of `link`, if any, and drops it.
#[verifier::external_body]
pub(crate) fn link_map_remove(m: &mut FxHashMap<u32, u32>, link: u32) -> (r: Option<u32>)
    ensures
        r == link_map_contents(*old(m)).get(link),
        link_map_contents(*final(m)) == link_map_contents(*old(m)).remove(link),
{
    m.remove(&link)
}

/// `FxHashMap::default()`: an empty map.
#[verifier::external_body]
pub(crate) fn pending_map_new() -> (r: PendingMap)
    ensures
        pending_map_contents(r).dom() == Set::<u32>::empty(),
{
    FxHashMap::default()
}

/// `HashMap::insert`: afterwards `id` maps to `p`.
#[verifier::external_body]
pub(crate) fn pending_map_insert(m: &mut FxHashMap<u32, PendingVideoStream>, id: u32, p: PendingVideoStream)
    ensures
        pending_map_contents(*final(m)) == pending_map_contents(*old(m)).insert(id, p),
{
    m.insert(id, p);
}

/// `HashMap::remove`: hands back the entry of `id`, if any, and drops it.
#[verifier::external_body]
pub(crate) fn pending_map_remove(m: &mut FxHashMap<u32, PendingVideoStream>, id: u32) -> (r: Option<PendingVideoStream>)
    ensures
        r == pending_map_contents(*old(m)).get(id),
        pending_map_contents(*final(m)) == pending_map_contents(*old(m)).remove(id),
{
    m.remove(&id)
}

/// `FxHashMap::default()`: an empty map.
#[verifier::external_body]
pub(crate) fn device_map_new() -> (r: DeviceMap)
    ensures
        device_map_contents(r).dom() == Set::<u32>::empty(),
{
    FxHashMap::default()
}

/// `HashMap::insert`: afterwards `id` maps to `u`.
#[verifier::external_body]
pub(crate) fn device_map_insert(m: &mut FxHashMap<u32, DeviceUsage>, id: u32, u: DeviceUsage)
    ensures
        device_map_contents(*final(m)) == device_map_contents(*old(m)).insert(id, u),
{
    m.insert(id, u);
}

/// `HashMap::remove`: hands back the entry of `id`, if any, and drops it.
#[verifier::external_body]
pub(crate) fn device_map_remove(m: &mut FxHashMap<u32, DeviceUsage>, id: u32) -> (r: Option<DeviceUsage>)
    ensures
        r == device_map_contents(*old(m)).get(id),
        device_map_contents(*final(m)) == device_map_contents(*old(m)).remove(id),
{
    m.remove(&id)
}

/// `HashMap::is_empty`.
#[verifier::external_body]
pub(crate) fn device_map_is_empty(m: &FxHashMap<u32, DeviceUsage>) -> (r: bool)
    ensures
        r == device_map_contents(*m).is_empty(),
{
    m.is_empty()
}

/// `HashMap::keys`, collected in the order the map yields them: each key once.
#[verifier::external_body]
pub(crate) fn device_map_keys(m: &FxHashMap<u32, DeviceUsage>) -> (r: Vec<u32>)
    ensures
        r@.no_duplicates(),
        r@.to_set() == device_map_contents(*m).dom(),
{
    m.keys().copied().collect()
}

/// `HashMap::get`.
#[verifier::external_body]
pub(crate) fn device_map_get(m: &FxHashMap<u32, DeviceUsage>, id: u32) -> (r: Option<&DeviceUsage>)
    ensures
        match r {
            Some(u) => device_map_contents(*m).contains_key(id) && *u == device_map_contents(*m)[id],
            None => !device_map_contents(*m).contains_key(id),
        },
{
    m.get(&id)
}

} // verus!
