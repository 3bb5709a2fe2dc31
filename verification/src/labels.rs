//! The label table: where in the program each label has been defined.
//!
//! The table is a standard hash map driven by the FNV hasher.  What it
//! holds is named by [`label_offsets`].  The contracts of the operations
//! below say what the documentation of `HashMap` says of them; they are
//! taken on trust and not proved.

use vstd::prelude::*;
use fnv::FnvHashMap;

verus! {

/// The FNV hasher, `fnv::FnvHasher`; nothing is known of its inside.
#[verifier::external_type_specification]
#[verifier::external_body]
pub struct ExFnvHasher(fnv::FnvHasher);

/// The builder of default hashers, `std::hash::BuildHasherDefault`; nothing
/// is known of its inside.
#[verifier::external_type_specification]
#[verifier::external_body]
#[verifier::reject_recursive_types(H)]
pub struct ExBuildHasherDefault<H>(std::hash::BuildHasherDefault<H>);

/// The definitions held by a label table: label name to byte offset.
pub uninterp spec fn label_offsets(table: FnvHashMap<&'static str, u64>) -> Map<Seq<char>, u64>;

/// An empty label table with room for `capacity` labels.
///
/// Calls `HashMap::with_capacity_and_hasher` with the default FNV hasher,
/// which yields a map without entries.
#[verifier::external_body]
pub(crate) fn table_with_capacity(capacity: u8) -> (table: FnvHashMap<&'static str, u64>)
    ensures
        label_offsets(table) == (Map::<Seq<char>, u64>::empty()),
{
    FnvHashMap::with_capacity_and_hasher(usize::from(capacity), Default::default())
}

/// Records that `name` is defined at `offset`.
///
/// Calls `HashMap::insert`: the entry for `name` is created, or replaced if
/// the label was defined before, and every other entry stays.
#[verifier::external_body]
pub(crate) fn table_define(table: &mut FnvHashMap<&'static str, u64>, name: &'static str, offset: u64)
    ensures
        label_offsets(*final(table)) == label_offsets(*old(table)).insert(name@, offset),
{
    table.insert(name, offset);
}

/// Looks up where `name` is defined.
///
/// Calls `HashMap::get`: the offset recorded for a key equal to `name`, or
/// nothing if no such key is present.
#[verifier::external_body]
pub(crate) fn table_lookup(table: &FnvHashMap<&'static str, u64>, name: &str) -> (found: Option<u64>)
    ensures
        found == (if label_offsets(*table).contains_key(name@) {
            Some(label_offsets(*table)[name@])
        } else {
            None
        }),
{
    table.get(name).copied()
}

/// Forgets every definition.
///
/// Calls `HashMap::clear`, which removes all entries.
#[verifier::external_body]
pub(crate) fn table_clear(table: &mut FnvHashMap<&'static str, u64>)
    ensures
        label_offsets(*final(table)) == (Map::<Seq<char>, u64>::empty()),
{
    table.clear();
}

} // verus!
