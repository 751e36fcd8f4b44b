//! Direct invalidation: the removal of a record on request, which makes the
//! next read of its identity populate afresh.

use vstd::prelude::*;
use crate::entry::{CacheEntry, CacheKey, EntryModel, KeyModel};
use crate::protocol::{Progress, Reply, ReplyModel, Request, RequestModel};

verus! {

/// Model of an invalidation in flight.
pub struct InvalidateModel {}

impl InvalidateModel {
    /// What an invalidation does with the reply: it ends with the record
    /// that was removed, or with nothing if there was none or the removal
    /// failed.
    pub open spec fn next<B>(self, reply: ReplyModel<B>) -> Progress<
        InvalidateModel,
        RequestModel<B>,
        Option<EntryModel>,
    > {
        match reply {
            ReplyModel::Deleted(removed) => Progress::Done(removed),
            _ => Progress::Done(None),
        }
    }

    /// The invalidation of `key`, about to remove its record.
    pub open spec fn start<B>(key: KeyModel) -> (InvalidateModel, RequestModel<B>) {
        (InvalidateModel {}, RequestModel::DeleteEntry { key })
    }
}

/// An invalidation in flight: it waits for the store to remove the record.
#[derive(Debug, PartialEq, Eq)]
pub struct Invalidate {}

impl View for Invalidate {
    type V = InvalidateModel;

    open spec fn view(&self) -> InvalidateModel {
        InvalidateModel {}
    }
}

/// Starts the invalidation of `(object_id, object_type)`: its only call
/// removes the record, without touching the origin or the relay.
pub fn delete_cached_file<B>(object_id: i32, object_type: String) -> (start: (
    Invalidate,
    Request<B>,
))
    ensures
        (start.0@, start.1@) == InvalidateModel::start::<B>(
            KeyModel { object_id, object_type: object_type@ },
        ),
{
    (Invalidate {}, Request::DeleteEntry { key: CacheKey { object_id, object_type } })
}

impl Invalidate {
    /// Takes the reply to the removal and ends: with the record removed, or
    /// with nothing. It never asks for another call.
    pub fn next<B>(self, reply: Reply<B>) -> (step: Progress<
        Invalidate,
        Request<B>,
        Option<CacheEntry>,
    >)
        ensures
            step.model() == self@.next(reply@),
            step is Done,
    {
        match reply {
            Reply::Deleted(removed) => Progress::Done(removed),
            _ => Progress::Done(None),
        }
    }
}

} // verus!
