//! Map definitions: the numeric type vocabulary the loader recognizes and
//! the dimensions of each map.

use vstd::prelude::*;

verus! {

/// The map type vocabulary. The loader recognizes all of these; the runtime
/// implements only a subset.
#[derive(Debug, Clone, Copy, PartialEq, Eq, Structural)]
pub enum MapType {
    Unspec,
    Hash,
    Array,
    ProgArray,
    PerfEventArray,
    PerCpuHash,
    PerCpuArray,
    StackTrace,
    CgroupArray,
    LruHash,
    LruPerCpuHash,
    LpmTrie,
    ArrayOfMaps,
    HashOfMaps,
    DevMap,
    SockMap,
    CpuMap,
    XskMap,
    SockHash,
    CgroupStorage,
    ReuseportSockArray,
    PerCpuCgroupStorage,
    Queue,
    Stack,
    SkStorage,
    DevMapHash,
    StructOps,
    RingBuf,
    InodeStorage,
}

/// The numeric code of each map type, as the wire format carries it.
pub open spec fn spec_map_type_code(t: MapType) -> u32 {
    match t {
        MapType::Unspec => 0,
        MapType::Hash => 1,
        MapType::Array => 2,
        MapType::ProgArray => 3,
        MapType::PerfEventArray => 4,
        MapType::PerCpuHash => 5,
        MapType::PerCpuArray => 6,
        MapType::StackTrace => 7,
        MapType::CgroupArray => 8,
        MapType::LruHash => 9,
        MapType::LruPerCpuHash => 10,
        MapType::LpmTrie => 11,
        MapType::ArrayOfMaps => 12,
        MapType::HashOfMaps => 13,
        MapType::DevMap => 14,
        MapType::SockMap => 15,
        MapType::CpuMap => 16,
        MapType::XskMap => 17,
        MapType::SockHash => 18,
        MapType::CgroupStorage => 19,
        MapType::ReuseportSockArray => 20,
        MapType::PerCpuCgroupStorage => 21,
        MapType::Queue => 22,
        MapType::Stack => 23,
        MapType::SkStorage => 24,
        MapType::DevMapHash => 25,
        MapType::StructOps => 26,
        MapType::RingBuf => 27,
        MapType::InodeStorage => 28,
    }
}

impl MapType {
    /// Decodes a numeric map type; fails on a code outside the vocabulary.
    pub fn from_code(code: u32) -> (r: Option<MapType>)
        ensures
            r is Some ==> spec_map_type_code(r->Some_0) == code,
            r is None ==> code > 28,
    {
        if code == 0 {
            Some(MapType::Unspec)
        } else if code == 1 {
            Some(MapType::Hash)
        } else if code == 2 {
            Some(MapType::Array)
        } else if code == 3 {
            Some(MapType::ProgArray)
        } else if code == 4 {
            Some(MapType::PerfEventArray)
        } else if code == 5 {
            Some(MapType::PerCpuHash)
        } else if code == 6 {
            Some(MapType::PerCpuArray)
        } else if code == 7 {
            Some(MapType::StackTrace)
        } else if code == 8 {
            Some(MapType::CgroupArray)
        } else if code == 9 {
            Some(MapType::LruHash)
        } else if code == 10 {
            Some(MapType::LruPerCpuHash)
        } else if code == 11 {
            Some(MapType::LpmTrie)
        } else if code == 12 {
            Some(MapType::ArrayOfMaps)
        } else if code == 13 {
            Some(MapType::HashOfMaps)
        } else if code == 14 {
            Some(MapType::DevMap)
        } else if code == 15 {
            Some(MapType::SockMap)
        } else if code == 16 {
            Some(MapType::CpuMap)
        } else if code == 17 {
            Some(MapType::XskMap)
        } else if code == 18 {
            Some(MapType::SockHash)
        } else if code == 19 {
            Some(MapType::CgroupStorage)
        } else if code == 20 {
            Some(MapType::ReuseportSockArray)
        } else if code == 21 {
            Some(MapType::PerCpuCgroupStorage)
        } else if code == 22 {
            Some(MapType::Queue)
        } else if code == 23 {
            Some(MapType::Stack)
        } else if code == 24 {
            Some(MapType::SkStorage)
        } else if code == 25 {
            Some(MapType::DevMapHash)
        } else if code == 26 {
            Some(MapType::StructOps)
        } else if code == 27 {
            Some(MapType::RingBuf)
        } else if code == 28 {
            Some(MapType::InodeStorage)
        } else {
            None
        }
    }
}

/// A map's declared shape: type, key and value widths, capacity, and flags.
#[derive(Debug, Clone, Copy, PartialEq, Eq, Structural)]
pub struct MapDef {
    pub map_type: MapType,
    pub key_size: u32,
    pub value_size: u32,
    pub max_entries: u32,
    pub flags: u32,
}

impl MapDef {
    /// Builds a definition with no flags.
    pub fn new(map_type: MapType, key_size: u32, value_size: u32, max_entries: u32) -> (r: MapDef)
        ensures
            r == (MapDef { map_type, key_size, value_size, max_entries, flags: 0u32 }),
    {
        MapDef { map_type, key_size, value_size, max_entries, flags: 0 }
    }
}

} // verus!
