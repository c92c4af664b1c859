//! Durable memory: the partitioner that splits the stable memory into
//! regions, the cell that keeps a counter in a region, and the ordered map
//! that keeps byte values in a region.
//!
//! Everything in this module is a thin layer over `ic_stable_structures`.
//! The contracts here are taken on trust, not proved: they restate what
//! that crate's source and documentation say.
//!
//! The memory is the process's own default memory, which the partitioner
//! takes for itself: no caller hands one in, and none keeps a handle to it.
//! It is written by these structures alone. Where it cannot grow any
//! further, the outside code aborts the call.
//!
//! Each contract speaks of one structure. That a write to one region leaves
//! the structures in the other regions as they were is the partitioner's
//! promise, and is taken for granted throughout.

use ic_stable_structures::memory_manager::{MemoryId, MemoryManager, VirtualMemory};
use ic_stable_structures::storable::Blob;
use ic_stable_structures::{Cell, DefaultMemoryImpl, Memory, StableBTreeMap};
use vstd::prelude::*;

verus! {

/// The largest value, in bytes, that a [`ByteMap`] stores.
pub const MAX_VALUE_SIZE: usize = 1024;

/// The number of regions a [`Partitioner`] hands out: tags run from 0 up to,
/// and not including, this number.
pub const REGION_TAGS: u8 = 255;

/// A `MemoryManager` over the default memory: one memory seen as up to 255
/// independent regions.
#[verifier::external_body]
pub struct Partitioner {
    inner: MemoryManager<DefaultMemoryImpl>,
}

/// A `VirtualMemory`: one region of a [`Partitioner`].
#[verifier::external_body]
pub struct Region {
    inner: VirtualMemory<DefaultMemoryImpl>,
}

/// A `Cell<u64, _>` in a region: one durable 64-bit value.
#[verifier::external_body]
pub struct IdCell {
    inner: Cell<u64, VirtualMemory<DefaultMemoryImpl>>,
}

/// A `StableBTreeMap<u64, Blob<1024>, _>` in a region: an ordered map from
/// 64-bit keys to byte strings of at most [`MAX_VALUE_SIZE`] bytes.
#[verifier::external_body]
pub struct ByteMap {
    inner: StableBTreeMap<u64, Blob<MAX_VALUE_SIZE>, VirtualMemory<DefaultMemoryImpl>>,
}

/// The tag a region was asked for by.
pub uninterp spec fn region_tag(region: Region) -> u8;

/// The size of a region, in pages. A region of no pages holds nothing yet.
pub uninterp spec fn region_pages(region: Region) -> u64;

/// The value a cell holds.
pub uninterp spec fn cell_value(cell: IdCell) -> u64;

/// The tag of the region a cell lives in.
pub uninterp spec fn cell_tag(cell: IdCell) -> u8;

/// The entries a map holds.
pub uninterp spec fn map_contents(map: ByteMap) -> Map<u64, Seq<u8>>;

/// The tag of the region a map lives in.
pub uninterp spec fn map_tag(map: ByteMap) -> u8;

impl Partitioner {
    /// `MemoryManager::init` on `DefaultMemoryImpl::default()`: the
    /// partitioning of the process's default memory, loaded where the
    /// memory holds one and started where it holds none.
    #[verifier::external_body]
    pub(crate) fn open() -> (partitioner: Partitioner) {
        Partitioner { inner: MemoryManager::init(DefaultMemoryImpl::default()) }
    }

    /// `MemoryManager::get` on `MemoryId::new(tag)`: the region with that
    /// tag. The tag 255 is not a region, and is left out.
    #[verifier::external_body]
    pub(crate) fn region(&self, tag: u8) -> (region: Region)
        requires
            tag < REGION_TAGS,
        ensures
            region_tag(region) == tag,
    {
        Region { inner: self.inner.get(MemoryId::new(tag)) }
    }
}

impl Region {
    /// `Memory::size`: the size of the region, in pages.
    #[verifier::external_body]
    pub(crate) fn pages(&self) -> (pages: u64)
        ensures
            pages == region_pages(*self),
    {
        self.inner.size()
    }
}

impl IdCell {
    /// `Cell::init`: the cell that the region holds, or, where it holds
    /// none, a new cell with `initial` written to it. A region of no pages
    /// holds none. `None` stands for the crate's `InitError`.
    #[verifier::external_body]
    pub(crate) fn init(region: Region, initial: u64) -> (cell: Option<IdCell>)
        ensures
            match cell {
                Some(c) => cell_tag(c) == region_tag(region) && (region_pages(region) == 0
                    ==> cell_value(c) == initial),
                None => true,
            },
    {
        Cell::init(region.inner, initial).ok().map(|inner| IdCell { inner })
    }

    /// `Cell::get`: the current value.
    #[verifier::external_body]
    pub(crate) fn get(&self) -> (value: u64)
        ensures
            value == cell_value(*self),
    {
        *self.inner.get()
    }

    /// `Cell::set`: writes `value` through to memory and returns the value
    /// held before. `None` stands for the crate's `ValueError`, which comes
    /// only where the memory has to grow for the value and cannot. For this
    /// cell it never has to: the value takes 8 bytes, and the region of a
    /// cell that `Cell::init` returned has a page or more.
    #[verifier::external_body]
    pub(crate) fn set(&mut self, value: u64) -> (previous: Option<u64>)
        ensures
            previous == Some(cell_value(*old(self))),
            cell_value(*final(self)) == value,
            cell_tag(*final(self)) == cell_tag(*old(self)),
    {
        self.inner.set(value).ok()
    }
}

impl ByteMap {
    /// `StableBTreeMap::init`: the map that the region holds, or a new,
    /// empty one where it holds none. A region of no pages holds none.
    #[verifier::external_body]
    pub(crate) fn init(region: Region) -> (map: ByteMap)
        ensures
            map_tag(map) == region_tag(region),
            (region_pages(region) == 0 ==> map_contents(map) == Map::<u64, Seq<u8>>::empty()),
    {
        ByteMap { inner: StableBTreeMap::init(region.inner) }
    }

    /// `StableBTreeMap::get`: the value stored under `key`, if any.
    #[verifier::external_body]
    pub(crate) fn get(&self, key: u64) -> (value: Option<Vec<u8>>)
        ensures
            match value {
                Some(bytes) => map_contents(*self).contains_key(key) && map_contents(*self)[key]
                    == bytes@,
                None => !map_contents(*self).contains_key(key),
            },
    {
        self.inner.get(&key).map(|blob| blob.as_slice().to_vec())
    }

    /// `StableBTreeMap::insert`: stores `bytes` under `key`, replacing what
    /// was there. The value is handed over as a `Blob`, which holds no more
    /// than [`MAX_VALUE_SIZE`] bytes; longer values are left out.
    #[verifier::external_body]
    pub(crate) fn insert(&mut self, key: u64, bytes: &Vec<u8>)
        requires
            bytes@.len() <= MAX_VALUE_SIZE,
        ensures
            map_contents(*final(self)) == map_contents(*old(self)).insert(key, bytes@),
            map_tag(*final(self)) == map_tag(*old(self)),
    {
        if let Ok(blob) = Blob::try_from(bytes.as_slice()) {
            self.inner.insert(key, blob);
        }
    }

    /// `StableBTreeMap::remove`: removes the entry under `key` and returns
    /// its value, if there was one.
    #[verifier::external_body]
    pub(crate) fn remove(&mut self, key: u64) -> (value: Option<Vec<u8>>)
        ensures
            map_contents(*final(self)) == map_contents(*old(self)).remove(key),
            map_tag(*final(self)) == map_tag(*old(self)),
            match value {
                Some(bytes) => map_contents(*old(self)).contains_key(key) && map_contents(
                    *old(self),
                )[key] == bytes@,
                None => !map_contents(*old(self)).contains_key(key),
            },
    {
        self.inner.remove(&key).map(|blob| blob.as_slice().to_vec())
    }

    /// `StableBTreeMap::iter`, collected: every entry of the map, once, in
    /// ascending order of the keys.
    #[verifier::external_body]
    pub(crate) fn entries(&self) -> (entries: Vec<(u64, Vec<u8>)>)
        ensures
            forall|i: int|
                0 <= i < entries@.len() ==> map_contents(*self).contains_key(
                    (#[trigger] entries@[i]).0,
                ) && map_contents(*self)[entries@[i].0] == entries@[i].1@,
            forall|i: int, j: int|
                0 <= i < j < entries@.len() ==> (#[trigger] entries@[i]).0 < (
                #[trigger] entries@[j]).0,
            forall|key: u64| #[trigger]
                map_contents(*self).contains_key(key) ==> exists|i: int|
                    0 <= i < entries@.len() && (#[trigger] entries@[i]).0 == key,
    {
        self.inner.iter().map(|(key, blob)| (key, blob.as_slice().to_vec())).collect()
    }
}

} // verus!
