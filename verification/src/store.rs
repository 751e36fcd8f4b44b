//! The cache store as the operations see it: a mapping from identity to
//! pointer with at most one record per identity, which can be looked up,
//! inserted into and removed from, and never updated in place.

use vstd::prelude::*;
use crate::entry::{EntryModel, KeyModel, Pointer};
use crate::protocol::Failure;

verus! {

/// The records of a store: one pointer per identity.
pub type StoreModel = Map<KeyModel, Pointer>;

/// Looks a record up.
pub open spec fn find(store: StoreModel, key: KeyModel) -> Option<EntryModel> {
    if store.contains_key(key) {
        Some(EntryModel { key, pointer: store[key] })
    } else {
        None
    }
}

/// Inserts a record. Under an identity that already has one the store stays
/// as it is and the insertion fails with a conflict.
pub open spec fn create(store: StoreModel, entry: EntryModel) -> (
    StoreModel,
    Result<EntryModel, Failure>,
) {
    if store.contains_key(entry.key) {
        (store, Err(Failure::Conflict))
    } else {
        (store.insert(entry.key, entry.pointer), Ok(entry))
    }
}

/// Removes the record of an identity, if there is one.
pub open spec fn delete(store: StoreModel, key: KeyModel) -> StoreModel {
    store.remove(key)
}

/// A record created is the record found afterwards, and creating under the
/// same identity again conflicts and changes nothing.
pub proof fn law_create_then_find(store: StoreModel, entry: EntryModel)
    requires
        !store.contains_key(entry.key),
    ensures
        create(store, entry).1 == Ok::<EntryModel, Failure>(entry),
        find(create(store, entry).0, entry.key) == Some(entry),
        forall|other: EntryModel|
            other.key == entry.key ==> #[trigger] create(create(store, entry).0, other) == (
                create(store, entry).0,
                Err::<EntryModel, Failure>(Failure::Conflict),
            ),
{
}

/// Creating a record leaves every other identity as it was.
pub proof fn law_create_keeps_others(store: StoreModel, entry: EntryModel, key: KeyModel)
    requires
        key != entry.key,
    ensures
        find(create(store, entry).0, key) == find(store, key),
{
}

/// Removal is idempotent, leaves no record under the identity, and leaves
/// every other identity as it was.
pub proof fn law_delete_is_idempotent(store: StoreModel, key: KeyModel, other: KeyModel)
    ensures
        find(delete(store, key), key) is None,
        delete(delete(store, key), key) == delete(store, key),
        other != key ==> find(delete(store, key), other) == find(store, other),
{
    assert(delete(delete(store, key), key) =~= delete(store, key));
}

} // verus!
