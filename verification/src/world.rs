//! A model of everything an operation talks to, and of an operation run to
//! its end against it.
//!
//! The store answers as a store does. The remote services (catalog,
//! retrieval adapter, blob relay) may answer anything, and differently each
//! time they are asked: the model only fixes that what they answer depends on
//! the moment and on the call. Nothing here is executable; it is what the
//! laws of the library are stated over.

use vstd::prelude::*;
use crate::backfill::{ListingModel, ReconcileModel};
use crate::catalog::BookModel;
use crate::download::{DownloadModel, DownloadResultModel, RepairModel};
use crate::entry::{EntryModel, KeyModel};
use crate::invalidate::InvalidateModel;
use crate::populate::{GetOrPopulateModel, PopulateModel};
use crate::protocol::{Failure, Progress, ReplyModel, RequestModel};
use crate::store::{create, delete, find, StoreModel};

verus! {

/// The store, the calls answered so far, oldest first, and the replies the
/// remote services will give at each moment to each call. A moment is the
/// number of calls answered before it.
#[verifier::reject_recursive_types(B)]
pub struct World<B> {
    pub store: StoreModel,
    pub calls: Seq<RequestModel<B>>,
    pub remote: spec_fn(nat, RequestModel<B>) -> ReplyModel<B>,
}

/// Whether `reply` is the success of `request`, as far as the remote
/// services are concerned: the right kind of reply, and for the joined reads
/// of a download all three of them.
pub open spec fn succeeds<B>(request: RequestModel<B>, reply: ReplyModel<B>) -> bool {
    match request {
        RequestModel::GetBook { .. } => reply is Book,
        RequestModel::FetchContent { .. } => reply is Content,
        RequestModel::Upload { .. } => reply is Uploaded,
        RequestModel::Fetch { .. } => reply matches ReplyModel::Fetched { blob, filename, book }
            && blob is Some && filename is Some && book is Some,
        RequestModel::ListPage { .. } => reply is Page,
        _ => true,
    }
}

/// What remote services that behave as `remote` answer to `request` at
/// moment `at`.
pub open spec fn ask<B>(
    remote: spec_fn(nat, RequestModel<B>) -> ReplyModel<B>,
    at: nat,
    request: RequestModel<B>,
) -> ReplyModel<B> {
    remote(at, request)
}

impl<B> World<B> {
    /// The present moment.
    pub open spec fn now(self) -> nat {
        self.calls.len()
    }

    /// The world after `request` was answered and left the given store.
    pub open spec fn later(self, store: StoreModel, request: RequestModel<B>) -> World<B> {
        World { store, calls: self.calls.push(request), remote: self.remote }
    }

    /// Whether `after` is this world some calls later: the calls answered
    /// here are the first of those answered there, and the remote services
    /// are the same.
    pub open spec fn precedes(self, after: World<B>) -> bool {
        &&& self.remote == after.remote
        &&& self.calls.len() <= after.calls.len()
        &&& after.calls.subrange(0, self.calls.len() as int) == self.calls
    }

    /// The calls answered in `after` that were not yet answered here.
    pub open spec fn calls_until(self, after: World<B>) -> Seq<RequestModel<B>> {
        after.calls.subrange(self.calls.len() as int, after.calls.len() as int)
    }

    /// Answers one call: the store's calls by the store, every other call by
    /// the remote services as they are at this moment.
    pub open spec fn respond(self, request: RequestModel<B>) -> (World<B>, ReplyModel<B>) {
        match request {
            RequestModel::FindEntry { key } => (
                self.later(self.store, request),
                ReplyModel::Entry(find(self.store, key)),
            ),
            RequestModel::CreateEntry { entry } => match create(self.store, entry) {
                (store, Ok(created)) => (self.later(store, request), ReplyModel::Created(created)),
                (store, Err(failure)) => (self.later(store, request), ReplyModel::Failed(failure)),
            },
            RequestModel::DeleteEntry { key } => (
                self.later(delete(self.store, key), request),
                ReplyModel::Deleted(find(self.store, key)),
            ),
            _ => (self.later(self.store, request), ask(self.remote, self.now(), request)),
        }
    }

    /// Every remote call succeeds, whenever it is made.
    pub open spec fn healthy(self) -> bool {
        forall|at: nat, request: RequestModel<B>|
            succeeds(request, #[trigger] ask(self.remote, at, request))
    }

    /// No remote call succeeds, whenever it is made.
    pub open spec fn unreachable(self) -> bool {
        forall|at: nat, request: RequestModel<B>|
            !(request is FindEntry || request is CreateEntry || request is DeleteEntry)
                ==> !succeeds(request, #[trigger] ask(self.remote, at, request))
    }
}

/// A population run to its end.
pub open spec fn run_populate<B>(
    world: World<B>,
    machine: PopulateModel,
    request: RequestModel<B>,
) -> (World<B>, Option<EntryModel>)
    decreases machine.calls_left(),
{
    let (world, reply) = world.respond(request);
    match machine.next(reply) {
        Progress::Call(machine, request) => run_populate(world, machine, request),
        Progress::Done(outcome) => (world, outcome),
    }
}

/// A read that populates on a miss, run to its end.
pub open spec fn run_get_or_populate<B>(
    world: World<B>,
    machine: GetOrPopulateModel,
    request: RequestModel<B>,
) -> (World<B>, Option<EntryModel>)
    decreases machine.calls_left(),
{
    let (world, reply) = world.respond(request);
    match machine.next(reply) {
        Progress::Call(machine, request) => run_get_or_populate(world, machine, request),
        Progress::Done(outcome) => (world, outcome),
    }
}

/// A download run to its end.
pub open spec fn run_download<B>(
    world: World<B>,
    machine: DownloadModel,
    request: RequestModel<B>,
) -> (World<B>, Option<DownloadResultModel<B>>)
    decreases machine.calls_left(),
{
    let (world, reply) = world.respond(request);
    match machine.next(reply) {
        Progress::Call(machine, request) => run_download(world, machine, request),
        Progress::Done(outcome) => (world, outcome),
    }
}

/// A download with its repair cycle, run to its end.
pub open spec fn run_repair<B>(
    world: World<B>,
    machine: RepairModel,
    request: RequestModel<B>,
) -> (World<B>, Option<DownloadResultModel<B>>)
    decreases machine.calls_left(),
{
    let (world, reply) = world.respond(request);
    match machine.next(reply) {
        Progress::Call(machine, request) => run_repair(world, machine, request),
        Progress::Done(outcome) => (world, outcome),
    }
}

/// The population of `key`, from its first call to its end.
pub open spec fn populate<B>(world: World<B>, key: KeyModel) -> (World<B>, Option<EntryModel>) {
    let (machine, request) = PopulateModel::start::<B>(key);
    run_populate(world, machine, request)
}

/// The read of `key` that populates on a miss, from its first call to its
/// end.
pub open spec fn get_or_populate<B>(world: World<B>, key: KeyModel) -> (
    World<B>,
    Option<EntryModel>,
) {
    let (machine, request) = GetOrPopulateModel::start::<B>(key);
    run_get_or_populate(world, machine, request)
}

/// The removal of the record of `key`: a single call.
pub open spec fn invalidate<B>(world: World<B>, key: KeyModel) -> (World<B>, Option<EntryModel>) {
    let (machine, request) = InvalidateModel::start::<B>(key);
    let (world, reply) = world.respond(request);
    match machine.next(reply) {
        Progress::Call(_, _) => (world, None),
        Progress::Done(outcome) => (world, outcome),
    }
}

/// The download through `entry`, from its first call to its end.
pub open spec fn download<B>(world: World<B>, entry: EntryModel) -> (
    World<B>,
    Option<DownloadResultModel<B>>,
) {
    let (machine, request) = DownloadModel::start::<B>(entry);
    run_download(world, machine, request)
}

/// The download path for `key`, repair cycle included, from its first call
/// to its end.
pub open spec fn download_with_repair<B>(world: World<B>, key: KeyModel) -> (
    World<B>,
    Option<DownloadResultModel<B>>,
) {
    let (machine, request) = RepairModel::start::<B>(key);
    run_repair(world, machine, request)
}

/// A listing of the catalog run to its end.
pub open spec fn run_listing<B>(
    world: World<B>,
    machine: ListingModel,
    request: RequestModel<B>,
) -> (World<B>, Result<Seq<BookModel>, Failure>)
    decreases machine.phase(), machine.pages_left(),
{
    let (world, reply) = world.respond(request);
    match machine.next(reply) {
        Progress::Call(machine, request) => run_listing(world, machine, request),
        Progress::Done(outcome) => (world, outcome),
    }
}

/// A backfill run to its end.
pub open spec fn run_reconcile<B>(
    world: World<B>,
    machine: ReconcileModel,
    request: RequestModel<B>,
) -> World<B>
    decreases machine.phase(), machine.span(), machine.calls_left(),
{
    let (world, reply) = world.respond(request);
    match machine.next(reply) {
        Progress::Call(machine, request) => run_reconcile(world, machine, request),
        Progress::Done(_) => world,
    }
}

/// The listing of the whole catalog, from its first call to its end.
pub open spec fn list_all_items<B>(world: World<B>) -> (
    World<B>,
    Result<Seq<BookModel>, Failure>,
) {
    let (machine, request) = ListingModel::start::<B>();
    run_listing(world, machine, request)
}

/// The backfill, from its first call to its end.
pub open spec fn reconcile<B>(world: World<B>) -> World<B> {
    let (machine, request) = ReconcileModel::start::<B>();
    run_reconcile(world, machine, request)
}

} // verus!
