//! Finding a sender by name: the shared-memory readers first, then the
//! registry keys, in a fixed order, each of them total.
//!
//! The caller opens the regions and keys named here and hands over what it
//! could read; everything decided from those bytes and values is here.
use vstd::prelude::*;
use vstd::string::{StringSliceAdditionalSpecFns, StringExecFns};
use crate::record::{
    SenderInfo, valid_info, is_valid_info, table_lookup, region_lookup, scan_sender_list,
    read_individual_sender, lemma_table_lookup_valid,
};

verus! {

/// The three values read from one registry key; `None` where the key or
/// the value could not be read.
#[derive(Clone, Copy, Debug)]
pub struct RegistryEntry {
    pub width: Option<u32>,
    pub height: Option<u32>,
    pub handle: Option<u32>,
}

/// What one poll could read of the places a sender announces itself in.
pub struct DiscoverySnapshot {
    /// Contents of each aggregate table region, in the order of
    /// `sender_list_regions`; `None` where the region could not be opened.
    pub sender_lists: Vec<Option<Vec<u8>>>,
    /// Contents of each per-sender region, in the order of `sender_regions`.
    pub sender_regions: Vec<Option<Vec<u8>>>,
    /// The values under each key, in the order of `registry_paths`.
    pub registry: Vec<RegistryEntry>,
}

/// Some aggregate table region could be opened.
pub open spec fn any_open(regions: Seq<Option<Vec<u8>>>) -> bool {
    exists|i: int| 0 <= i < regions.len() && (#[trigger] regions[i]) is Some
}

/// The first match for `name` in the open aggregate tables from `i` on.
pub open spec fn lists_lookup_from(lists: Seq<Option<Vec<u8>>>, name: Seq<u8>, i: int) -> Option<
    SenderInfo,
>
    decreases lists.len() - i,
{
    if i < 0 || i >= lists.len() {
        None
    } else {
        match lists[i] {
            Some(t) => match table_lookup(t@, name) {
                Some(info) => Some(info),
                None => lists_lookup_from(lists, name, i + 1),
            },
            None => lists_lookup_from(lists, name, i + 1),
        }
    }
}

/// The first valid record among the open per-sender regions from `i` on.
pub open spec fn regions_lookup_from(regions: Seq<Option<Vec<u8>>>, i: int) -> Option<SenderInfo>
    decreases regions.len() - i,
{
    if i < 0 || i >= regions.len() {
        None
    } else {
        match regions[i] {
            Some(r) => match region_lookup(r@) {
                Some(info) => Some(info),
                None => regions_lookup_from(regions, i + 1),
            },
            None => regions_lookup_from(regions, i + 1),
        }
    }
}

/// The shared-memory answer: the aggregate tables when any of them is
/// there, else the per-sender regions.
pub open spec fn memory_lookup(
    lists: Seq<Option<Vec<u8>>>,
    regions: Seq<Option<Vec<u8>>>,
    name: Seq<u8>,
) -> Option<SenderInfo> {
    if any_open(lists) {
        lists_lookup_from(lists, name, 0)
    } else {
        regions_lookup_from(regions, 0)
    }
}

/// A registry key answers only when all three values were read and they
/// form a valid record.
pub open spec fn registry_info(e: RegistryEntry) -> Option<SenderInfo> {
    match (e.width, e.height, e.handle) {
        (Some(w), Some(h), Some(k)) => {
            let info = SenderInfo { width: w, height: h, handle: k };
            if valid_info(info) {
                Some(info)
            } else {
                None
            }
        },
        _ => None,
    }
}

pub open spec fn registry_lookup_from(entries: Seq<RegistryEntry>, i: int) -> Option<SenderInfo>
    decreases entries.len() - i,
{
    if i < 0 || i >= entries.len() {
        None
    } else {
        match registry_info(entries[i]) {
            Some(info) => Some(info),
            None => registry_lookup_from(entries, i + 1),
        }
    }
}

/// The whole chain: shared memory, then the registry.
pub open spec fn sender_lookup(snapshot: DiscoverySnapshot, name: Seq<u8>) -> Option<SenderInfo> {
    match memory_lookup(snapshot.sender_lists@, snapshot.sender_regions@, name) {
        Some(info) => Some(info),
        None => registry_lookup_from(snapshot.registry@, 0),
    }
}

proof fn lemma_lists_lookup_valid(lists: Seq<Option<Vec<u8>>>, name: Seq<u8>, i: int)
    ensures
        lists_lookup_from(lists, name, i) matches Some(info) ==> valid_info(info),
    decreases lists.len() - i,
{
    if 0 <= i < lists.len() {
        if let Some(t) = lists[i] {
            lemma_table_lookup_valid(t@, name, 0);
        }
        lemma_lists_lookup_valid(lists, name, i + 1);
    }
}

proof fn lemma_regions_lookup_valid(regions: Seq<Option<Vec<u8>>>, i: int)
    ensures
        regions_lookup_from(regions, i) matches Some(info) ==> valid_info(info),
    decreases regions.len() - i,
{
    if 0 <= i < regions.len() {
        lemma_regions_lookup_valid(regions, i + 1);
    }
}

proof fn lemma_registry_lookup_valid(entries: Seq<RegistryEntry>, i: int)
    ensures
        registry_lookup_from(entries, i) matches Some(info) ==> valid_info(info),
    decreases entries.len() - i,
{
    if 0 <= i < entries.len() {
        lemma_registry_lookup_valid(entries, i + 1);
    }
}

/// Whatever the chain reports for a name is a valid record: a size in
/// `1..=MAX_DIM` on both axes and a handle other than zero.
pub proof fn lemma_sender_lookup_valid(snapshot: DiscoverySnapshot, name: Seq<u8>)
    ensures
        sender_lookup(snapshot, name) matches Some(info) ==> valid_info(info),
{
    lemma_lists_lookup_valid(snapshot.sender_lists@, name, 0);
    lemma_regions_lookup_valid(snapshot.sender_regions@, 0);
    lemma_registry_lookup_valid(snapshot.registry@, 0);
}

/// Whether any aggregate table region was opened.
pub fn any_region_open(regions: &Vec<Option<Vec<u8>>>) -> (r: bool)
    ensures
        r == any_open(regions@),
{
    let mut i: usize = 0;
    while i < regions.len()
        invariant
            i <= regions@.len(),
            forall|j: int| 0 <= j < i ==> (#[trigger] regions@[j]) is None,
        decreases regions.len() - i,
    {
        if regions[i].is_some() {
            return true;
        }
        i = i + 1;
    }
    false
}

/// Scans the open aggregate tables in order for `name`.
pub fn read_from_sender_names(name: &[u8], lists: &Vec<Option<Vec<u8>>>) -> (r: Option<SenderInfo>)
    ensures
        r == lists_lookup_from(lists@, name@, 0),
{
    let mut i: usize = 0;
    while i < lists.len()
        invariant
            i <= lists@.len(),
            lists_lookup_from(lists@, name@, i as int) == lists_lookup_from(lists@, name@, 0),
        decreases lists.len() - i,
    {
        match &lists[i] {
            Some(t) => {
                let found = scan_sender_list(t.as_slice(), name);
                if found.is_some() {
                    return found;
                }
            },
            None => {},
        }
        i = i + 1;
    }
    None
}

/// Reads the per-sender regions in order and keeps the first valid record.
pub fn read_sender_regions(regions: &Vec<Option<Vec<u8>>>) -> (r: Option<SenderInfo>)
    ensures
        r == regions_lookup_from(regions@, 0),
{
    let mut i: usize = 0;
    while i < regions.len()
        invariant
            i <= regions@.len(),
            regions_lookup_from(regions@, i as int) == regions_lookup_from(regions@, 0),
        decreases regions.len() - i,
    {
        match &regions[i] {
            Some(r) => {
                let found = read_individual_sender(r.as_slice());
                if found.is_some() {
                    return found;
                }
            },
            None => {},
        }
        i = i + 1;
    }
    None
}

/// The shared-memory reader: the aggregate tables, or the per-sender
/// regions when no table could be opened.
pub fn get_sender_from_memory_map(
    name: &[u8],
    lists: &Vec<Option<Vec<u8>>>,
    regions: &Vec<Option<Vec<u8>>>,
) -> (r: Option<SenderInfo>)
    ensures
        r == memory_lookup(lists@, regions@, name@),
{
    if any_region_open(lists) {
        read_from_sender_names(name, lists)
    } else {
        read_sender_regions(regions)
    }
}

/// What one registry key yields.
pub fn try_registry_path(entry: &RegistryEntry) -> (r: Option<SenderInfo>)
    ensures
        r == registry_info(*entry),
{
    match (entry.width, entry.height, entry.handle) {
        (Some(w), Some(h), Some(k)) => {
            let info = SenderInfo { width: w, height: h, handle: k };
            if is_valid_info(info) {
                Some(info)
            } else {
                None
            }
        },
        _ => None,
    }
}

/// The registry reader: the first key, in order, that yields a record.
pub fn read_registry(entries: &Vec<RegistryEntry>) -> (r: Option<SenderInfo>)
    ensures
        r == registry_lookup_from(entries@, 0),
{
    let mut i: usize = 0;
    while i < entries.len()
        invariant
            i <= entries@.len(),
            registry_lookup_from(entries@, i as int) == registry_lookup_from(entries@, 0),
        decreases entries.len() - i,
    {
        let found = try_registry_path(&entries[i]);
        if found.is_some() {
            return found;
        }
        i = i + 1;
    }
    None
}

/// Looks `name` up in what one poll read: shared memory first, the
/// registry on a miss.
pub fn get_sender_info(name: &str, snapshot: &DiscoverySnapshot) -> (r: Option<SenderInfo>)
    ensures
        r == sender_lookup(*snapshot, name.spec_bytes()),
        r matches Some(info) ==> valid_info(info),
{
    proof {
        lemma_sender_lookup_valid(*snapshot, name.spec_bytes());
    }
    let bytes = name.as_bytes();
    let found = get_sender_from_memory_map(bytes, &snapshot.sender_lists, &snapshot.sender_regions);
    if found.is_some() {
        found
    } else {
        read_registry(&snapshot.registry)
    }
}

/// Names of the aggregate sender table regions, in the order they are read.
pub fn sender_list_regions() -> (r: Vec<String>)
    ensures
        r@.len() == 2,
        r@[0]@ == "SpoutSenderNames"@,
        r@[1]@ == "Local\\SpoutSenderNames"@,
{
    let mut r: Vec<String> = Vec::new();
    r.push(String::from_str("SpoutSenderNames"));
    r.push(String::from_str("Local\\SpoutSenderNames"));
    r
}

/// Names of the regions a single sender may publish its record under.
pub fn sender_regions(name: &str) -> (r: Vec<String>)
    ensures
        r@.len() == 3,
        r@[0]@ == name@,
        r@[1]@ == "Local\\"@ + name@,
        r@[2]@ == "Global\\"@ + name@,
{
    let mut r: Vec<String> = Vec::new();
    r.push(String::from_str(name));
    r.push(String::from_str("Local\\").concat(name));
    r.push(String::from_str("Global\\").concat(name));
    r
}

/// Registry keys, under the current user, that may describe a sender.
pub fn registry_paths(name: &str) -> (r: Vec<String>)
    ensures
        r@.len() == 2,
        r@[0]@ == "SOFTWARE\\Leading Edge\\Spout\\"@ + name@,
        r@[1]@ == "SOFTWARE\\WOW6432Node\\Leading Edge\\Spout\\"@ + name@,
{
    let mut r: Vec<String> = Vec::new();
    r.push(String::from_str("SOFTWARE\\Leading Edge\\Spout\\").concat(name));
    r.push(String::from_str("SOFTWARE\\WOW6432Node\\Leading Edge\\Spout\\").concat(name));
    r
}

} // verus!
