//! Turning a cache miss into a cache record, and the read that does so on
//! demand.

use vstd::prelude::*;
use crate::entry::{CacheEntry, CacheKey, EntryModel, KeyModel};
use crate::protocol::{Progress, Reply, ReplyModel, Request, RequestModel};

verus! {

/// Model of a population in flight.
pub enum PopulateModel {
    AwaitBook { key: KeyModel },
    AwaitContent { key: KeyModel, caption: Seq<char> },
    AwaitUpload { key: KeyModel },
    AwaitCreate,
}

impl PopulateModel {
    /// What a population does with a reply. The four calls are made strictly
    /// in turn, each with what the one before it returned; any reply other
    /// than the success of the pending call ends the population with nothing.
    pub open spec fn next<B>(self, reply: ReplyModel<B>) -> Progress<
        PopulateModel,
        RequestModel<B>,
        Option<EntryModel>,
    > {
        match (self, reply) {
            (PopulateModel::AwaitBook { key }, ReplyModel::Book(book)) => Progress::Call(
                PopulateModel::AwaitContent { key, caption: book.caption },
                RequestModel::FetchContent { source_id: book.source_id, key },
            ),
            (PopulateModel::AwaitContent { key, caption }, ReplyModel::Content(content)) => {
                Progress::Call(
                    PopulateModel::AwaitUpload { key },
                    RequestModel::Upload { content, caption },
                )
            },
            (PopulateModel::AwaitUpload { key }, ReplyModel::Uploaded(pointer)) => Progress::Call(
                PopulateModel::AwaitCreate,
                RequestModel::CreateEntry { entry: EntryModel { key, pointer } },
            ),
            (PopulateModel::AwaitCreate, ReplyModel::Created(entry)) => Progress::Done(
                Some(entry),
            ),
            _ => Progress::Done(None),
        }
    }

    /// An upper bound on the calls still to be answered.
    pub open spec fn calls_left(self) -> nat {
        match self {
            PopulateModel::AwaitBook { .. } => 4,
            PopulateModel::AwaitContent { .. } => 3,
            PopulateModel::AwaitUpload { .. } => 2,
            PopulateModel::AwaitCreate => 1,
        }
    }

    /// The population of `key`, about to read the catalog.
    pub open spec fn start<B>(key: KeyModel) -> (PopulateModel, RequestModel<B>) {
        (PopulateModel::AwaitBook { key }, RequestModel::GetBook { object_id: key.object_id })
    }
}

/// A population in flight: the catalog item is read, its bytes are fetched
/// from the origin, uploaded to the relay, and the pointer is stored.
#[derive(Debug, PartialEq, Eq)]
pub enum Populate {
    AwaitBook { key: CacheKey },
    AwaitContent { key: CacheKey, caption: String },
    AwaitUpload { key: CacheKey },
    AwaitCreate,
}

impl View for Populate {
    type V = PopulateModel;

    open spec fn view(&self) -> PopulateModel {
        match *self {
            Populate::AwaitBook { key } => PopulateModel::AwaitBook { key: key@ },
            Populate::AwaitContent { key, caption } => PopulateModel::AwaitContent {
                key: key@,
                caption: caption@,
            },
            Populate::AwaitUpload { key } => PopulateModel::AwaitUpload { key: key@ },
            Populate::AwaitCreate => PopulateModel::AwaitCreate,
        }
    }
}

/// Starts the population of `(object_id, object_type)`, whether or not a
/// record exists: the first call reads the catalog item.
pub fn cache_file<B>(object_id: i32, object_type: String) -> (start: (Populate, Request<B>))
    ensures
        (start.0@, start.1@) == PopulateModel::start::<B>(
            KeyModel { object_id, object_type: object_type@ },
        ),
{
    (Populate::AwaitBook { key: CacheKey { object_id, object_type } }, Request::GetBook { object_id })
}

impl Populate {
    /// Takes the reply to the pending call and either names the next call or
    /// ends: with the record as the store created it, or with nothing if any
    /// call failed, the creation by conflict included.
    pub fn next<B>(self, reply: Reply<B>) -> (step: Progress<
        Populate,
        Request<B>,
        Option<CacheEntry>,
    >)
        ensures
            step.model() == self@.next(reply@),
            step matches Progress::Call(machine, _) ==> machine@.calls_left() < self@.calls_left(),
    {
        match (self, reply) {
            (Populate::AwaitBook { key }, Reply::Book(book)) => {
                let request = Request::FetchContent { source_id: book.source_id, key: key.clone() };
                Progress::Call(Populate::AwaitContent { key, caption: book.caption }, request)
            },
            (Populate::AwaitContent { key, caption }, Reply::Content(content)) => Progress::Call(
                Populate::AwaitUpload { key },
                Request::Upload { content, caption },
            ),
            (Populate::AwaitUpload { key }, Reply::Uploaded(pointer)) => Progress::Call(
                Populate::AwaitCreate,
                Request::CreateEntry { entry: CacheEntry::new(key, pointer) },
            ),
            (Populate::AwaitCreate, Reply::Created(entry)) => Progress::Done(Some(entry)),
            _ => Progress::Done(None),
        }
    }
}

/// Model of a read that populates on a miss.
pub enum GetOrPopulateModel {
    Finding { key: KeyModel },
    Populating(PopulateModel),
}

impl GetOrPopulateModel {
    /// What the read does with a reply: a record found is the outcome, a miss
    /// starts the population, whose outcome is then the outcome of the read.
    pub open spec fn next<B>(self, reply: ReplyModel<B>) -> Progress<
        GetOrPopulateModel,
        RequestModel<B>,
        Option<EntryModel>,
    > {
        match self {
            GetOrPopulateModel::Finding { key } => match reply {
                ReplyModel::Entry(Some(entry)) => Progress::Done(Some(entry)),
                ReplyModel::Entry(None) => {
                    let (inner, request) = PopulateModel::start::<B>(key);
                    Progress::Call(GetOrPopulateModel::Populating(inner), request)
                },
                _ => Progress::Done(None),
            },
            GetOrPopulateModel::Populating(inner) => match inner.next(reply) {
                Progress::Call(inner, request) => Progress::Call(
                    GetOrPopulateModel::Populating(inner),
                    request,
                ),
                Progress::Done(outcome) => Progress::Done(outcome),
            },
        }
    }

    /// An upper bound on the calls still to be answered.
    pub open spec fn calls_left(self) -> nat {
        match self {
            GetOrPopulateModel::Finding { .. } => 5,
            GetOrPopulateModel::Populating(inner) => inner.calls_left(),
        }
    }

    /// The read of `key`, about to consult the store.
    pub open spec fn start<B>(key: KeyModel) -> (GetOrPopulateModel, RequestModel<B>) {
        (GetOrPopulateModel::Finding { key }, RequestModel::FindEntry { key })
    }
}

/// A read that populates on a miss: the sole entry point of the paths that
/// read a record.
#[derive(Debug, PartialEq, Eq)]
pub enum GetOrPopulate {
    Finding { key: CacheKey },
    Populating(Populate),
}

impl View for GetOrPopulate {
    type V = GetOrPopulateModel;

    open spec fn view(&self) -> GetOrPopulateModel {
        match *self {
            GetOrPopulate::Finding { key } => GetOrPopulateModel::Finding { key: key@ },
            GetOrPopulate::Populating(inner) => GetOrPopulateModel::Populating(inner@),
        }
    }
}

/// Starts the read of `(object_id, object_type)`: the first call consults the
/// store.
pub fn get_cached_file_or_cache<B>(object_id: i32, object_type: String) -> (start: (
    GetOrPopulate,
    Request<B>,
))
    ensures
        (start.0@, start.1@) == GetOrPopulateModel::start::<B>(
            KeyModel { object_id, object_type: object_type@ },
        ),
{
    let key = CacheKey { object_id, object_type };
    let request = Request::FindEntry { key: key.clone() };
    (GetOrPopulate::Finding { key }, request)
}

impl GetOrPopulate {
    /// Takes the reply to the pending call. A record found ends the read with
    /// that record and no further call; a miss starts the population; a
    /// failed lookup ends the read with nothing.
    pub fn next<B>(self, reply: Reply<B>) -> (step: Progress<
        GetOrPopulate,
        Request<B>,
        Option<CacheEntry>,
    >)
        ensures
            step.model() == self@.next(reply@),
            step matches Progress::Call(machine, _) ==> machine@.calls_left() < self@.calls_left(),
    {
        match self {
            GetOrPopulate::Finding { key } => match reply {
                Reply::Entry(Some(entry)) => Progress::Done(Some(entry)),
                Reply::Entry(None) => {
                    let (inner, request) = cache_file(key.object_id, key.object_type);
                    Progress::Call(GetOrPopulate::Populating(inner), request)
                },
                _ => Progress::Done(None),
            },
            GetOrPopulate::Populating(inner) => match inner.next(reply) {
                Progress::Call(inner, request) => Progress::Call(
                    GetOrPopulate::Populating(inner),
                    request,
                ),
                Progress::Done(outcome) => Progress::Done(outcome),
            },
        }
    }
}

} // verus!
