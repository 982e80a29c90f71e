//! The insertion-ordered map of transaction execution results.
//!
//! The block builder records each accepted transaction's execution record in
//! an `indexmap::IndexMap`, keyed by transaction hash, so that the block's
//! contents keep submission order. The map type is opaque to the verifier;
//! `exec_info_entries` names its contents as a sequence of key-value pairs in
//! iteration order, and the wrappers below state what each operation does to
//! that sequence, as indexmap documents it.

use indexmap::IndexMap;
use vstd::prelude::*;

use crate::execution::TxExecutionInfo;

verus! {

/// Relies on indexmap's `IndexMap` being an ordinary container type; the
/// verifier treats its values as opaque and learns about them only through the
/// wrappers below.
#[verifier::external_type_specification]
#[verifier::external_body]
#[verifier::reject_recursive_types(K)]
#[verifier::reject_recursive_types(V)]
#[verifier::reject_recursive_types(S)]
pub struct ExIndexMap<K, V, S>(IndexMap<K, V, S>);

/// The contents of an execution-info map: its key-value pairs in iteration
/// order, which indexmap keeps equal to insertion order.
pub uninterp spec fn exec_info_entries(m: IndexMap<u64, TxExecutionInfo>) -> Seq<(
    u64,
    TxExecutionInfo,
)>;

/// Whether a key occurs among the entries.
pub open spec fn entries_have_key(es: Seq<(u64, TxExecutionInfo)>, k: u64) -> bool {
    exists|j: int| 0 <= j < es.len() && (#[trigger] es[j]).0 == k
}

/// The position of a key among entries with distinct keys.
pub open spec fn entries_key_index(es: Seq<(u64, TxExecutionInfo)>, k: u64) -> int {
    choose|j: int| 0 <= j < es.len() && (#[trigger] es[j]).0 == k
}

/// Whether the entries carry pairwise-distinct keys, as a map's always do.
pub open spec fn entries_keys_distinct(es: Seq<(u64, TxExecutionInfo)>) -> bool {
    forall|i: int, j: int| 0 <= i < j < es.len() ==> (#[trigger] es[i]).0 != (#[trigger] es[j]).0
}

/// How inserting a pair changes the entries: an existing key keeps its place
/// and takes the new value; a new key is appended last.
pub open spec fn entries_upsert(
    es: Seq<(u64, TxExecutionInfo)>,
    k: u64,
    v: TxExecutionInfo,
) -> Seq<(u64, TxExecutionInfo)> {
    if entries_have_key(es, k) {
        es.update(entries_key_index(es, k), (k, v))
    } else {
        es.push((k, v))
    }
}

/// Relies on indexmap's `IndexMap::new`: a new map is empty.
#[verifier::external_body]
pub fn exec_info_map_new() -> (r: IndexMap<u64, TxExecutionInfo>)
    ensures
        exec_info_entries(r) == Seq::<(u64, TxExecutionInfo)>::empty(),
        entries_keys_distinct(exec_info_entries(r)),
{
    IndexMap::new()
}

/// Relies on indexmap's `IndexMap::insert`: if an equivalent key already
/// exists it keeps its place in the order, its value is updated, and the old
/// value is returned; otherwise the pair is inserted last and `None` is
/// returned.
#[verifier::external_body]
pub fn exec_info_map_insert(
    m: &mut IndexMap<u64, TxExecutionInfo>,
    k: u64,
    v: TxExecutionInfo,
) -> (r: Option<TxExecutionInfo>)
    ensures
        exec_info_entries(*final (m)) == entries_upsert(exec_info_entries(*old(m)), k, v),
        entries_have_key(exec_info_entries(*old(m)), k) ==> r == Some(
            exec_info_entries(*old(m))[entries_key_index(exec_info_entries(*old(m)), k)].1,
        ),
        !entries_have_key(exec_info_entries(*old(m)), k) ==> r is None,
        // A map's keys are pairwise distinct.
        entries_keys_distinct(exec_info_entries(*final (m))),
{
    m.insert(k, v)
}

/// Relies on indexmap's `IndexMap::len`: the number of entries.
#[verifier::external_body]
pub fn exec_info_map_len(m: &IndexMap<u64, TxExecutionInfo>) -> (r: usize)
    ensures
        r == exec_info_entries(*m).len(),
{
    m.len()
}

/// Relies on indexmap's `IndexMap::get_index`: the pair at a position in
/// iteration order, or nothing past the end.
#[verifier::external_body]
pub fn exec_info_map_get_index(m: &IndexMap<u64, TxExecutionInfo>, i: usize) -> (r: Option<
    (u64, TxExecutionInfo),
>)
    ensures
        i < exec_info_entries(*m).len() ==> r == Some(exec_info_entries(*m)[i as int]),
        i >= exec_info_entries(*m).len() ==> r is None,
{
    m.get_index(i).map(|(k, v)| (*k, *v))
}

} // verus!
