//! The persisted cache record and its identity.
//!
//! A record maps one representation of one catalog item, named by
//! `(object_id, object_type)`, to the place in the blob relay where its bytes
//! are kept. Contracts speak of records through their models, in which text
//! is a sequence of characters.

use vstd::prelude::*;

verus! {

/// Where cached bytes live inside the blob relay.
#[derive(Clone, Copy, Debug, PartialEq, Eq, Structural)]
pub struct Pointer {
    pub chat_id: i64,
    pub message_id: i64,
}

impl View for Pointer {
    type V = Pointer;

    open spec fn view(&self) -> Pointer {
        *self
    }
}

impl DeepView for Pointer {
    type V = Pointer;

    open spec fn deep_view(&self) -> Pointer {
        *self
    }
}

/// Model of a record's identity.
pub struct KeyModel {
    pub object_id: i32,
    pub object_type: Seq<char>,
}

/// Identity of a record: the catalog item and the representation cached.
#[derive(Debug, PartialEq, Eq)]
pub struct CacheKey {
    pub object_id: i32,
    pub object_type: String,
}

impl View for CacheKey {
    type V = KeyModel;

    open spec fn view(&self) -> KeyModel {
        KeyModel { object_id: self.object_id, object_type: self.object_type@ }
    }
}

impl DeepView for CacheKey {
    type V = KeyModel;

    open spec fn deep_view(&self) -> KeyModel {
        self@
    }
}

impl Clone for CacheKey {
    fn clone(&self) -> (copy: CacheKey)
        ensures
            copy == *self,
    {
        CacheKey { object_id: self.object_id, object_type: self.object_type.clone() }
    }
}

/// Model of a record: its identity and the pointer stored under it.
pub struct EntryModel {
    pub key: KeyModel,
    pub pointer: Pointer,
}

/// The only persisted entity.
#[derive(Debug, PartialEq, Eq)]
pub struct CacheEntry {
    pub object_id: i32,
    pub object_type: String,
    pub message_id: i64,
    pub chat_id: i64,
}

impl View for CacheEntry {
    type V = EntryModel;

    open spec fn view(&self) -> EntryModel {
        EntryModel {
            key: KeyModel { object_id: self.object_id, object_type: self.object_type@ },
            pointer: Pointer { chat_id: self.chat_id, message_id: self.message_id },
        }
    }
}

impl DeepView for CacheEntry {
    type V = EntryModel;

    open spec fn deep_view(&self) -> EntryModel {
        self@
    }
}

impl Clone for CacheEntry {
    fn clone(&self) -> (copy: CacheEntry)
        ensures
            copy == *self,
    {
        CacheEntry {
            object_id: self.object_id,
            object_type: self.object_type.clone(),
            message_id: self.message_id,
            chat_id: self.chat_id,
        }
    }
}

impl CacheEntry {
    /// Builds the record that stores `pointer` under `key`.
    pub fn new(key: CacheKey, pointer: Pointer) -> (entry: CacheEntry)
        ensures
            entry@ == (EntryModel { key: key@, pointer: pointer }),
    {
        CacheEntry {
            object_id: key.object_id,
            object_type: key.object_type,
            message_id: pointer.message_id,
            chat_id: pointer.chat_id,
        }
    }

    /// The identity under which this record is stored.
    pub fn key(&self) -> (key: CacheKey)
        ensures
            key@ == self@.key,
    {
        CacheKey { object_id: self.object_id, object_type: self.object_type.clone() }
    }

    /// The relay pointer this record holds.
    pub fn pointer(&self) -> (pointer: Pointer)
        ensures
            pointer == self@.pointer,
    {
        Pointer { chat_id: self.chat_id, message_id: self.message_id }
    }
}

} // verus!
