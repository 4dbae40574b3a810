//! The insertion-ordered map that a scan returns.
//!
//! The map is `indexmap::IndexMap`. Its content is named as the list of
//! its entries in their order, and the methods the scanner calls are given
//! contracts over that list, as the crate documents them.

use vstd::prelude::*;
use crate::assoc::with_entry;
use crate::models::{ModInfo, ModInfoView};

verus! {

/// Makes `indexmap::IndexMap` known to the verifier, as a type of which
/// nothing is seen but what the functions below say.
#[verifier::external_type_specification]
#[verifier::external_body]
#[verifier::reject_recursive_types(K)]
#[verifier::reject_recursive_types(V)]
#[verifier::reject_recursive_types(S)]
pub struct ExIndexMap<K, V, S>(indexmap::IndexMap<K, V, S>);

/// The entries of a map of records, in the map's order: each key with the
/// value of its record.
pub uninterp spec fn index_entries(m: indexmap::IndexMap<String, ModInfo>) -> Seq<
    (Seq<char>, ModInfoView),
>;

/// Makes an empty map.
///
/// Wraps `IndexMap::new`, which creates a new map without entries.
#[verifier::external_body]
pub(crate) fn index_new() -> (m: indexmap::IndexMap<String, ModInfo>)
    ensures
        index_entries(m) == Seq::<(Seq<char>, ModInfoView)>::empty(),
{
    indexmap::IndexMap::new()
}

/// Puts a record under a key.
///
/// Wraps `IndexMap::insert`: if an equivalent key already exists, the key
/// keeps its place in the order and its value is replaced; if not, the new
/// pair is inserted last in order.
#[verifier::external_body]
pub(crate) fn index_insert(m: &mut indexmap::IndexMap<String, ModInfo>, key: String, value: ModInfo)
    ensures
        index_entries(*final(m)) == with_entry(index_entries(*old(m)), key@, value@),
{
    m.insert(key, value);
}

} // verus!
