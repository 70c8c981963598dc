//! The fixed-capacity map in which the runtime keeps what it knows of each task,
//! a `heapless` index map keyed by task id, and what this crate relies on of it.
use vstd::prelude::*;

use crate::start_stop::TaskData;

verus! {

/// How many tasks the runtime can remember.
pub const TASK_COUNT: usize = 16;

/// The map type: task id to what is known of the task, in first-seen order.
pub type TaskMap = heapless::index_map::FnvIndexMap<u32, TaskData, TASK_COUNT>;

/// `heapless::index_map::IndexMap`, made known to Verus as an opaque type;
/// nothing is claimed of its insides.
#[verifier::external_type_specification]
#[verifier::external_body]
#[verifier::reject_recursive_types(K)]
#[verifier::reject_recursive_types(V)]
#[verifier::reject_recursive_types(S)]
pub struct ExIndexMap<K, V, S, const N: usize>(heapless::index_map::IndexMap<K, V, S, N>);

/// `hash32::BuildHasherDefault`, the hasher builder of the map type, made
/// known to Verus as an opaque type; nothing is claimed of it.
#[verifier::external_type_specification]
#[verifier::external_body]
#[verifier::reject_recursive_types(H)]
pub struct ExBuildHasherDefault<H>(hash32::BuildHasherDefault<H>);

/// `hash32::FnvHasher`, the hasher of the map type, made known to Verus as an
/// opaque type; nothing is claimed of it.
#[verifier::external_type_specification]
#[verifier::external_body]
pub struct ExFnvHasher(hash32::FnvHasher);

/// The entries of a task map, in the map's order: the order of its backing
/// vector of buckets, which `insert` extends at the end and otherwise updates
/// in place (nothing is ever removed here).
pub uninterp spec fn task_map_entries(m: TaskMap) -> Seq<(u32, TaskData)>;

/// Whether `k` is the key of some entry.
pub open spec fn has_key(entries: Seq<(u32, TaskData)>, k: u32) -> bool {
    exists|i: int| 0 <= i < entries.len() && entries[i].0 == k
}

/// No key occurs twice.
pub open spec fn keys_distinct(entries: Seq<(u32, TaskData)>) -> bool {
    forall|i: int, j: int|
        0 <= i < entries.len() && 0 <= j < entries.len() && i != j ==> entries[i].0 != entries[j].0
}

/// The position of key `k`; meaningful only where `has_key(entries, k)`.
pub open spec fn key_index(entries: Seq<(u32, TaskData)>, k: u32) -> int {
    choose|i: int| 0 <= i < entries.len() && entries[i].0 == k
}

/// The value stored under `k`, if any.
pub open spec fn lookup(entries: Seq<(u32, TaskData)>, k: u32) -> Option<TaskData> {
    if has_key(entries, k) {
        Some(entries[key_index(entries, k)].1)
    } else {
        None
    }
}

/// The entries after storing `v` under `k`: in place where `k` is present,
/// appended at the end where it is not.
pub open spec fn upsert(entries: Seq<(u32, TaskData)>, k: u32, v: TaskData) -> Seq<(u32, TaskData)> {
    if has_key(entries, k) {
        entries.update(key_index(entries, k), (k, v))
    } else {
        entries.push((k, v))
    }
}

/// Storing under a key keeps keys distinct and leaves the other entries in place.
pub proof fn lemma_upsert(entries: Seq<(u32, TaskData)>, k: u32, v: TaskData)
    requires
        keys_distinct(entries),
    ensures
        keys_distinct(upsert(entries, k, v)),
        upsert(entries, k, v).len() == if has_key(entries, k) { entries.len() } else { entries.len() + 1 },
        forall|i: int| 0 <= i < entries.len() ==> #[trigger] upsert(entries, k, v)[i].0 == entries[i].0,
        forall|i: int|
            0 <= i < entries.len() && entries[i].0 != k ==> #[trigger] upsert(entries, k, v)[i] == entries[i],
        upsert(entries, k, v)[if has_key(entries, k) { key_index(entries, k) } else { entries.len() as int }] == (k, v),
{
    if has_key(entries, k) {
        let j = key_index(entries, k);
        assert(entries[j].0 == k);
    }
}

/// `IndexMap::new`: a map with no entries.
#[verifier::external_body]
pub(crate) fn task_map_new() -> (m: TaskMap)
    ensures
        task_map_entries(m) == Seq::<(u32, TaskData)>::empty(),
{
    TaskMap::new()
}

/// `IndexMap::len`: the number of entries.
#[verifier::external_body]
pub(crate) fn task_map_len(m: &TaskMap) -> (n: usize)
    ensures
        n == task_map_entries(*m).len(),
{
    m.len()
}

/// `IndexMap::get`: the value stored under `k`, if any.
#[verifier::external_body]
pub(crate) fn task_map_get(m: &TaskMap, k: u32) -> (r: Option<TaskData>)
    ensures
        r == lookup(task_map_entries(*m), k),
{
    m.get(&k).copied()
}

/// `IndexMap::get_index`: the entry at position `i`, if there is one.
#[verifier::external_body]
pub(crate) fn task_map_get_index(m: &TaskMap, i: usize) -> (r: Option<(u32, TaskData)>)
    ensures
        i < task_map_entries(*m).len() ==> r == Some(task_map_entries(*m)[i as int]),
        i >= task_map_entries(*m).len() ==> r is None,
{
    m.get_index(i).map(|(k, v)| (*k, *v))
}

/// `IndexMap::insert`: a present key keeps its place and gets the new value,
/// the old one being returned; an absent key is appended while there is room
/// (`TASK_COUNT` entries); on a full map an absent key is handed back with its
/// value and the map is left as it was.
#[verifier::external_body]
pub(crate) fn task_map_insert(m: &mut TaskMap, k: u32, v: TaskData) -> (r: Result<
    Option<TaskData>,
    (u32, TaskData),
>)
    ensures
        ({
            let before = task_map_entries(*old(m));
            let after = task_map_entries(*final(m));
            match r {
                Ok(Some(prev)) => has_key(before, k) && prev == before[key_index(before, k)].1
                    && after == before.update(key_index(before, k), (k, v)),
                Ok(None) => !has_key(before, k) && before.len() < TASK_COUNT && after == before.push(
                    (k, v),
                ),
                Err(back) => !has_key(before, k) && before.len() >= TASK_COUNT && after == before
                    && back == (k, v),
            }
        }),
{
    m.insert(k, v)
}

} // verus!
