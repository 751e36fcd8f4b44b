//! What holds of the operations when they are run to their end, whatever the
//! remote services do, as long as the store behaves as a store.

use vstd::prelude::*;
use crate::backfill::{lemma_pairs_of_contains, listed, pairs_of, ListingModel, ReconcileModel};
use crate::catalog::{BookModel, PageModel};
use crate::download::{DownloadModel, DownloadResultModel, RepairModel};
use crate::entry::{EntryModel, KeyModel};
use crate::populate::{GetOrPopulateModel, PopulateModel};
use crate::protocol::{Failure, Progress, ReplyModel, RequestModel};
use crate::store::{find, StoreModel};
use crate::world::{
    ask, download, download_with_repair, get_or_populate, invalidate, list_all_items, populate,
    reconcile,
    run_download, run_get_or_populate, run_listing, run_populate, run_reconcile, run_repair,
    succeeds, World,
};

verus! {

// ---------------------------------------------------------------------------
// One call
// ---------------------------------------------------------------------------

/// Answering a call adds that call to the calls answered and nothing else,
/// and leaves the remote services as they are.
pub proof fn law_calls_are_recorded<B>(world: World<B>, request: RequestModel<B>)
    ensures
        world.precedes(world.respond(request).0),
        world.calls_until(world.respond(request).0) == seq![request],
{
    let after = world.respond(request).0;
    assert(after.calls == world.calls.push(request));
    assert(after.calls.subrange(0, world.calls.len() as int) =~= world.calls);
    assert(world.calls_until(after) =~= seq![request]);
}

/// No call ever edits a record in place: an identity that has a record
/// before and after a call has the same pointer before and after it. A
/// pointer changes only by the removal of the record and the creation of
/// another.
pub proof fn law_records_are_never_edited<B>(
    world: World<B>,
    request: RequestModel<B>,
    key: KeyModel,
)
    requires
        world.store.contains_key(key),
        world.respond(request).0.store.contains_key(key),
    ensures
        find(world.respond(request).0.store, key) == find(world.store, key),
{
}

/// The calls from `world` to `after` are the call answered first and then
/// the calls from there to `after`.
proof fn lemma_calls_chain<B>(world: World<B>, request: RequestModel<B>, after: World<B>)
    requires
        world.respond(request).0.precedes(after),
    ensures
        world.precedes(after),
        world.calls_until(after) == seq![request] + world.respond(request).0.calls_until(after),
{
    let later = world.respond(request).0;
    assert(later.calls == world.calls.push(request));
    assert(after.calls.subrange(0, later.calls.len() as int) == later.calls);
    assert forall|n: int| 0 <= n < world.calls.len() implies after.calls[n] == world.calls[n] by {
        assert(after.calls.subrange(0, later.calls.len() as int)[n] == later.calls[n]);
    }
    assert(after.calls.subrange(0, world.calls.len() as int) =~= world.calls);
    assert(after.calls[world.calls.len() as int] == request) by {
        assert(after.calls.subrange(0, later.calls.len() as int)[world.calls.len() as int]
            == later.calls[world.calls.len() as int]);
    }
    assert(world.calls_until(after) =~= seq![request] + later.calls_until(after));
}

// ---------------------------------------------------------------------------
// Population and the read that populates on a miss
// ---------------------------------------------------------------------------

/// A population changes the store at most under its own identity: it either
/// ends with nothing and leaves the store as it was, or ends with a record
/// of that identity which the store did not have and now has. It never ends
/// with a record when the identity had one already. It ends with a record
/// only after exactly four calls, made in this order: the catalog item is
/// read, the bytes are fetched for the identity, they are uploaded, and the
/// record is created.
pub proof fn law_populate_effect<B>(world: World<B>, key: KeyModel)
    ensures
        ({
            let (after, outcome) = populate(world, key);
            let calls = world.calls_until(after);
            &&& world.precedes(after)
            &&& 1 <= calls.len() <= 4
            &&& calls[0] == RequestModel::<B>::GetBook { object_id: key.object_id }
            &&& match outcome {
                None => after.store == world.store,
                Some(entry) => {
                    &&& entry.key == key
                    &&& !world.store.contains_key(key)
                    &&& after.store == world.store.insert(key, entry.pointer)
                    &&& calls.len() == 4
                    &&& calls[1] matches RequestModel::FetchContent { key: fetched, .. } && fetched
                        == key
                    &&& calls[2] is Upload
                    &&& calls[3] == RequestModel::<B>::CreateEntry { entry }
                },
            }
        }),
{
    reveal_with_fuel(run_populate, 5);
    let (machine, request) = PopulateModel::start::<B>(key);
    lemma_populate_calls(world, machine, request);
    let (after, outcome) = populate(world, key);
    let calls = world.calls_until(after);
    assert(calls[0] == after.calls[world.calls.len() as int]);
    if outcome is Some {
        assert(calls[1] == after.calls[world.calls.len() as int + 1]);
        assert(calls[2] == after.calls[world.calls.len() as int + 2]);
        assert(calls[3] == after.calls[world.calls.len() as int + 3]);
    }
}

/// A population adds to the calls answered, between one and as many as it
/// has calls left.
proof fn lemma_populate_calls<B>(world: World<B>, machine: PopulateModel, request: RequestModel<B>)
    ensures
        ({
            let (after, _) = run_populate(world, machine, request);
            &&& world.precedes(after)
            &&& 1 <= world.calls_until(after).len() <= machine.calls_left()
            &&& after.calls[world.calls.len() as int] == request
        }),
    decreases machine.calls_left(),
{
    let (later, reply) = world.respond(request);
    let (after, _) = run_populate(world, machine, request);
    law_calls_are_recorded(world, request);
    match machine.next(reply) {
        Progress::Call(following, pending) => {
            lemma_populate_calls(later, following, pending);
            lemma_calls_chain(world, request, after);
        },
        Progress::Done(_) => {},
    }
    assert(world.calls_until(after)[0] == request);
}

/// With every remote call succeeding, the population of an identity that
/// has no record ends with one.
pub proof fn law_populate_succeeds<B>(world: World<B>, key: KeyModel)
    requires
        world.healthy(),
        !world.store.contains_key(key),
    ensures
        populate(world, key).1 is Some,
{
    reveal_with_fuel(run_populate, 5);
}

/// Two populations of one identity that run side by side may both come to
/// create a record. The store keeps the identity unique: the one that
/// creates first ends with its record, and the one that creates second ends
/// with nothing, although the identity has a record by then.
pub proof fn law_racing_populations_leave_one_record<B>(
    world: World<B>,
    first: EntryModel,
    second: EntryModel,
)
    requires
        first.key == second.key,
        !world.store.contains_key(first.key),
    ensures
        ({
            let (between, won) = world.respond(RequestModel::<B>::CreateEntry { entry: first });
            let (after, lost) = between.respond(RequestModel::<B>::CreateEntry { entry: second });
            &&& PopulateModel::AwaitCreate.next(won) == Progress::<
                PopulateModel,
                RequestModel<B>,
                Option<EntryModel>,
            >::Done(Some(first))
            &&& PopulateModel::AwaitCreate.next(lost) == Progress::<
                PopulateModel,
                RequestModel<B>,
                Option<EntryModel>,
            >::Done(None)
            &&& find(after.store, first.key) == Some(first)
            &&& after.store == between.store
        }),
{
}

/// A read adds to the calls answered, between one and as many as it has
/// calls left.
proof fn lemma_get_or_populate_calls<B>(
    world: World<B>,
    machine: GetOrPopulateModel,
    request: RequestModel<B>,
)
    ensures
        ({
            let (after, _) = run_get_or_populate(world, machine, request);
            &&& world.precedes(after)
            &&& 1 <= world.calls_until(after).len() <= machine.calls_left()
        }),
    decreases machine.calls_left(),
{
    let (later, reply) = world.respond(request);
    let (after, _) = run_get_or_populate(world, machine, request);
    law_calls_are_recorded(world, request);
    match machine.next(reply) {
        Progress::Call(following, pending) => {
            lemma_get_or_populate_calls(later, following, pending);
            lemma_calls_chain(world, request, after);
        },
        Progress::Done(_) => {},
    }
}

/// A read changes the store at most under its own identity, and only if
/// that identity had no record. When it had one, the read ends with exactly
/// that record after the lookup alone, so neither the origin nor the relay
/// is asked for anything. When the read ends with a record, that record is
/// what the store then holds; when it ends with nothing, the store is as it
/// was.
pub proof fn law_get_or_populate_effect<B>(world: World<B>, key: KeyModel)
    ensures
        ({
            let (after, outcome) = get_or_populate(world, key);
            &&& world.precedes(after)
            &&& world.store.contains_key(key) ==> outcome == find(world.store, key) && after
                == world.later(world.store, (RequestModel::FindEntry { key }))
            &&& outcome is Some ==> find(after.store, key) == outcome
            &&& outcome is None ==> after.store == world.store
            &&& forall|other: KeyModel|
                other != key ==> find(after.store, other) == find(world.store, other)
        }),
{
    reveal_with_fuel(run_get_or_populate, 6);
    let (machine, request) = GetOrPopulateModel::start::<B>(key);
    lemma_get_or_populate_calls(world, machine, request);
}

/// With a healthy origin, a read ends with a record, a lookup right after
/// it finds that same record, and so does every later read, which leaves
/// the store as it is.
pub proof fn law_get_or_populate_then_find<B>(world: World<B>, key: KeyModel)
    requires
        world.healthy(),
    ensures
        ({
            let (after, outcome) = get_or_populate(world, key);
            let (again, second) = get_or_populate(after, key);
            &&& outcome is Some
            &&& find(after.store, key) == outcome
            &&& second == outcome
            &&& again.store == after.store
        }),
{
    reveal_with_fuel(run_get_or_populate, 6);
}

/// Reads made one after another never leave two records under one identity
/// and never replace one: once a read has ended with a record, every later
/// read ends with that record after its lookup alone and changes nothing,
/// whatever the remote services do.
pub proof fn law_sequential_reads_keep_one_record<B>(world: World<B>, key: KeyModel)
    ensures
        ({
            let (after, outcome) = get_or_populate(world, key);
            let (again, second) = get_or_populate(after, key);
            outcome is Some ==> second == outcome && again == after.later(
                after.store,
                (RequestModel::FindEntry { key }),
            )
        }),
{
    law_get_or_populate_effect(world, key);
    let (after, outcome) = get_or_populate(world, key);
    law_get_or_populate_effect(after, key);
}

// ---------------------------------------------------------------------------
// Download and repair
// ---------------------------------------------------------------------------

/// If the bytes behind a record cannot be fetched, the download ends with
/// nothing, the record is removed, and a lookup right after finds none;
/// every other record stays. The joined reads and the removal are the only
/// calls made.
pub proof fn law_stale_pointer_costs_the_record<B>(world: World<B>, entry: EntryModel)
    requires
        ask(world.remote, world.now(), (RequestModel::Fetch { entry }))
            matches ReplyModel::Fetched { blob, .. } && blob is None,
    ensures
        ({
            let (after, outcome) = download(world, entry);
            &&& outcome is None
            &&& find(after.store, entry.key) is None
            &&& forall|other: KeyModel|
                other != entry.key ==> find(after.store, other) == find(world.store, other)
            &&& world.precedes(after)
            &&& world.calls_until(after) == seq![
                RequestModel::<B>::Fetch { entry },
                RequestModel::<B>::DeleteEntry { key: entry.key },
            ]
        }),
{
    reveal_with_fuel(run_download, 3);
    let (machine, request) = DownloadModel::start::<B>(entry);
    let (after, _) = download(world, entry);
    let later = world.respond(request).0;
    law_calls_are_recorded(later, (RequestModel::<B>::DeleteEntry { key: entry.key }));
    lemma_calls_chain(world, request, after);
    assert(world.calls_until(after) =~= seq![
        RequestModel::<B>::Fetch { entry },
        RequestModel::<B>::DeleteEntry { key: entry.key },
    ]);
}

/// If the bytes are there, the joined reads are the only call made and the
/// store is left as it was: a failed read of the file names or of the
/// catalog item ends the download with nothing but costs no record, and
/// with all three reads in, the download ends with the bytes, the names and
/// the caption exactly as they came.
pub proof fn law_other_failures_keep_the_record<B>(world: World<B>, entry: EntryModel)
    requires
        ask(world.remote, world.now(), (RequestModel::Fetch { entry }))
            matches ReplyModel::Fetched { blob, .. } && blob is Some,
    ensures
        ({
            let (after, outcome) = download(world, entry);
            let reply = ask(world.remote, world.now(), (RequestModel::Fetch { entry }));
            &&& after == world.later(world.store, (RequestModel::Fetch { entry }))
            &&& outcome == match reply {
                ReplyModel::Fetched {
                    blob: Some(response),
                    filename: Some(names),
                    book: Some(item),
                } => Some(
                    DownloadResultModel {
                        response,
                        filename: names.filename,
                        filename_ascii: names.filename_ascii,
                        caption: item.caption,
                    },
                ),
                _ => None,
            }
        }),
{
    reveal_with_fuel(run_download, 3);
}

/// The repair cycle heals a stale pointer. Let the identity have a record
/// whose bytes the relay no longer gives, let every other remote call
/// succeed, and let the relay never hand the stale pointer out again. Then
/// the download path ends with a result, and the identity afterwards has a
/// record with another pointer.
pub proof fn law_repair_heals_a_stale_pointer<B>(world: World<B>, key: KeyModel, stale: EntryModel)
    requires
        find(world.store, key) == Some(stale),
        forall|at: nat|
            (#[trigger] ask(world.remote, at, (RequestModel::Fetch { entry: stale })))
                matches ReplyModel::Fetched { blob, .. } && blob is None,
        forall|at: nat, request: RequestModel<B>|
            request != (RequestModel::<B>::Fetch { entry: stale }) ==> succeeds(
                request,
                #[trigger] ask(world.remote, at, request),
            ),
        forall|at: nat, request: RequestModel<B>|
            (#[trigger] ask(world.remote, at, request)) != ReplyModel::<B>::Uploaded(stale.pointer),
    ensures
        ({
            let (after, outcome) = download_with_repair(world, key);
            &&& outcome is Some
            &&& find(after.store, key) matches Some(fresh) && fresh.pointer != stale.pointer
        }),
{
    reveal_with_fuel(run_repair, 10);
}

/// The repair cycle does not outlast an unreachable origin: if no remote
/// call succeeds, the download path ends with nothing, whether or not the
/// identity had a record.
pub proof fn law_repair_fails_when_unreachable<B>(world: World<B>, key: KeyModel)
    requires
        world.unreachable(),
    ensures
        download_with_repair(world, key).1 is None,
{
    reveal_with_fuel(run_repair, 8);
}

/// A download path adds to the calls answered, between one and as many as
/// it has calls left.
proof fn lemma_repair_calls<B>(world: World<B>, machine: RepairModel, request: RequestModel<B>)
    ensures
        ({
            let (after, _) = run_repair(world, machine, request);
            &&& world.precedes(after)
            &&& 1 <= world.calls_until(after).len() <= machine.calls_left()
        }),
    decreases machine.calls_left(),
{
    let (later, reply) = world.respond(request);
    let (after, _) = run_repair(world, machine, request);
    law_calls_are_recorded(world, request);
    match machine.next(reply) {
        Progress::Call(following, pending) => {
            lemma_repair_calls(later, following, pending);
            lemma_calls_chain(world, request, after);
        },
        Progress::Done(_) => {},
    }
}

/// Self-healing is bounded to one repair cycle: whatever the remote
/// services do, the download path ends after at most fourteen calls.
pub proof fn law_repair_is_bounded<B>(world: World<B>, key: KeyModel)
    ensures
        ({
            let (after, _) = download_with_repair(world, key);
            &&& world.precedes(after)
            &&& 1 <= world.calls_until(after).len() <= 14
        }),
{
    let (machine, request) = RepairModel::start::<B>(key);
    lemma_repair_calls(world, machine, request);
}

// ---------------------------------------------------------------------------
// Invalidation
// ---------------------------------------------------------------------------

/// An invalidation removes the record of its identity and nothing else, with
/// a single call to the store: it ends with the record the identity had, a
/// lookup right after finds none, and every other record stays. It is
/// idempotent: a second invalidation ends with nothing and leaves the store
/// as the first left it.
pub proof fn law_invalidate_removes_the_record<B>(world: World<B>, key: KeyModel)
    ensures
        ({
            let (after, outcome) = invalidate(world, key);
            let (again, second) = invalidate(after, key);
            &&& outcome == find(world.store, key)
            &&& find(after.store, key) is None
            &&& forall|other: KeyModel|
                other != key ==> find(after.store, other) == find(world.store, other)
            &&& after.calls == world.calls.push(RequestModel::DeleteEntry { key })
            &&& second is None
            &&& again.store == after.store
        }),
{
    let (after, _) = invalidate(world, key);
    let (again, _) = invalidate(after, key);
    assert(again.store =~= after.store);
}

/// An invalidation forces the next read to populate afresh: with a healthy
/// origin, the read after it ends with a record only after the catalog, the
/// origin and the relay have been asked, and the store holds that record.
pub proof fn law_invalidate_forces_population<B>(world: World<B>, key: KeyModel)
    requires
        world.healthy(),
    ensures
        ({
            let (after, _) = invalidate(world, key);
            let (read, outcome) = get_or_populate(after, key);
            &&& outcome is Some
            &&& find(read.store, key) == outcome
            &&& after.calls_until(read).len() == 5
        }),
{
    reveal_with_fuel(run_get_or_populate, 6);
    let (after, _) = invalidate(world, key);
    let (read, _) = get_or_populate(after, key);
    let (machine, request) = GetOrPopulateModel::start::<B>(key);
    lemma_get_or_populate_calls(after, machine, request);
    assert(read.calls.len() == after.calls.len() + 5);
}

// ---------------------------------------------------------------------------
// Listing
// ---------------------------------------------------------------------------

/// The items of pages one to `through` of a catalog, in catalog order.
pub open spec fn items_through(catalog: spec_fn(u32) -> PageModel, through: nat) -> Seq<BookModel>
    decreases through,
{
    if through == 0 {
        Seq::empty()
    } else {
        items_through(catalog, (through - 1) as nat) + catalog(through as u32).items
    }
}

/// The calls that read pages `from` to `through`, in that order.
pub open spec fn page_calls<B>(from: nat, through: nat) -> Seq<RequestModel<B>> {
    Seq::new(
        if from <= through {
            (through - from + 1) as nat
        } else {
            0
        },
        |n: int| ListingModel::page_request::<B>((from + n) as u32),
    )
}

proof fn lemma_listing_rest<B>(
    world: World<B>,
    catalog: spec_fn(u32) -> PageModel,
    collected: Seq<BookModel>,
    current: u32,
    page_count: u32,
)
    requires
        forall|at: nat, page: u32|
            #[trigger] ask(world.remote, at, ListingModel::page_request::<B>(page))
                == ReplyModel::<B>::Page(catalog(page)),
        2 <= current <= page_count,
        collected == items_through(catalog, (current - 1) as nat),
    ensures
        ({
            let (after, listing) = run_listing(
                world,
                (ListingModel::Rest { collected, current, page_count }),
                ListingModel::page_request::<B>(current),
            );
            &&& listing == Ok::<Seq<BookModel>, Failure>(items_through(catalog, page_count as nat))
            &&& world.precedes(after)
            &&& world.calls_until(after) == page_calls::<B>(current as nat, page_count as nat)
            &&& after.store == world.store
        }),
    decreases page_count - current,
{
    let machine = ListingModel::Rest { collected, current, page_count };
    let request = ListingModel::page_request::<B>(current);
    let (later, reply) = world.respond(request);
    let (after, _) = run_listing(world, machine, request);
    assert(reply == ReplyModel::<B>::Page(catalog(current)));
    law_calls_are_recorded(world, request);
    if current < page_count {
        lemma_listing_rest(
            later,
            catalog,
            collected + catalog(current).items,
            (current + 1) as u32,
            page_count,
        );
        lemma_calls_chain(world, request, after);
        assert(seq![request] + page_calls::<B>((current + 1) as nat, page_count as nat)
            =~= page_calls::<B>(current as nat, page_count as nat));
    } else {
        assert(seq![request] =~= page_calls::<B>(current as nat, page_count as nat));
    }
}

/// A listing reads every page once and in order. If the catalog answers
/// page `p` with `catalog(p)` whenever it is asked, the listing ends with
/// the items of pages one to the page count that page one announced (page
/// one alone if that count is below two), in catalog order; the calls it
/// makes are the reads of exactly those pages, in order; and it leaves the
/// store alone.
pub proof fn law_listing_reads_every_page<B>(world: World<B>, catalog: spec_fn(u32) -> PageModel)
    requires
        forall|at: nat, page: u32|
            #[trigger] ask(world.remote, at, ListingModel::page_request::<B>(page))
                == ReplyModel::<B>::Page(catalog(page)),
    ensures
        ({
            let (after, listing) = list_all_items(world);
            let pages: nat = if catalog(1).pages < 2 {
                1
            } else {
                catalog(1).pages as nat
            };
            &&& listing == Ok::<Seq<BookModel>, Failure>(items_through(catalog, pages))
            &&& world.precedes(after)
            &&& world.calls_until(after) == page_calls::<B>(1, pages)
            &&& after.store == world.store
        }),
{
    let request = ListingModel::page_request::<B>(1);
    let (later, reply) = world.respond(request);
    let (after, _) = list_all_items(world);
    assert(reply == ReplyModel::<B>::Page(catalog(1)));
    reveal_with_fuel(items_through, 2);
    assert(items_through(catalog, 1) =~= catalog(1).items);
    law_calls_are_recorded(world, request);
    if 2 <= catalog(1).pages {
        lemma_listing_rest(later, catalog, catalog(1).items, 2, catalog(1).pages);
        lemma_calls_chain(world, request, after);
        assert(seq![request] + page_calls::<B>(2, catalog(1).pages as nat) =~= page_calls::<B>(
            1,
            catalog(1).pages as nat,
        ));
    } else {
        assert(seq![request] =~= page_calls::<B>(1, 1));
    }
}

proof fn lemma_listing_rest_fails<B>(
    world: World<B>,
    catalog: spec_fn(u32) -> PageModel,
    failing: u32,
    failure: Failure,
    collected: Seq<BookModel>,
    current: u32,
    page_count: u32,
)
    requires
        2 <= current <= failing <= page_count,
        forall|at: nat, page: u32|
            current <= page < failing && at == world.now() + page - current ==> #[trigger] ask(
                world.remote,
                at,
                ListingModel::page_request::<B>(page),
            ) == ReplyModel::<B>::Page(catalog(page)),
        ask(
            world.remote,
            (world.now() + failing - current) as nat,
            ListingModel::page_request::<B>(failing),
        ) == ReplyModel::<B>::Failed(failure),
    ensures
        ({
            let (after, listing) = run_listing(
                world,
                (ListingModel::Rest { collected, current, page_count }),
                ListingModel::page_request::<B>(current),
            );
            &&& listing == Err::<Seq<BookModel>, Failure>(failure)
            &&& world.precedes(after)
            &&& world.calls_until(after) == page_calls::<B>(current as nat, failing as nat)
            &&& after.store == world.store
        }),
    decreases failing - current,
{
    let machine = ListingModel::Rest { collected, current, page_count };
    let request = ListingModel::page_request::<B>(current);
    let (later, reply) = world.respond(request);
    let (after, _) = run_listing(world, machine, request);
    law_calls_are_recorded(world, request);
    if current < failing {
        assert(reply == ReplyModel::<B>::Page(catalog(current)));
        lemma_listing_rest_fails(
            later,
            catalog,
            failing,
            failure,
            collected + catalog(current).items,
            (current + 1) as u32,
            page_count,
        );
        lemma_calls_chain(world, request, after);
        assert(seq![request] + page_calls::<B>((current + 1) as nat, failing as nat)
            =~= page_calls::<B>(current as nat, failing as nat));
    } else {
        assert(seq![request] =~= page_calls::<B>(current as nat, failing as nat));
    }
}

/// A failed page ends a listing at once and with that failure. Let the
/// pages before page `failing` come in as `catalog` has them, and let page
/// `failing`, which is among the pages that page one announced, fail when
/// its turn comes. Then the listing ends with that failure, and the calls
/// it has made are the reads of pages one to `failing`.
pub proof fn law_listing_stops_at_a_failure<B>(
    world: World<B>,
    catalog: spec_fn(u32) -> PageModel,
    failing: u32,
    failure: Failure,
)
    requires
        1 <= failing,
        1 < failing ==> failing <= catalog(1).pages,
        forall|at: nat, page: u32|
            1 <= page < failing && at == world.now() + page - 1 ==> #[trigger] ask(
                world.remote,
                at,
                ListingModel::page_request::<B>(page),
            ) == ReplyModel::<B>::Page(catalog(page)),
        ask(
            world.remote,
            (world.now() + failing - 1) as nat,
            ListingModel::page_request::<B>(failing),
        ) == ReplyModel::<B>::Failed(failure),
    ensures
        ({
            let (after, listing) = list_all_items(world);
            &&& listing == Err::<Seq<BookModel>, Failure>(failure)
            &&& world.precedes(after)
            &&& world.calls_until(after) == page_calls::<B>(1, failing as nat)
            &&& after.store == world.store
        }),
{
    let request = ListingModel::page_request::<B>(1);
    let (later, reply) = world.respond(request);
    let (after, _) = list_all_items(world);
    law_calls_are_recorded(world, request);
    if 1 < failing {
        assert(reply == ReplyModel::<B>::Page(catalog(1)));
        lemma_listing_rest_fails(
            later,
            catalog,
            failing,
            failure,
            catalog(1).items,
            2,
            catalog(1).pages,
        );
        lemma_calls_chain(world, request, after);
        assert(seq![request] + page_calls::<B>(2, failing as nat) =~= page_calls::<B>(
            1,
            failing as nat,
        ));
    } else {
        assert(seq![request] =~= page_calls::<B>(1, 1));
    }
}

/// A listing, however it ends, leaves the store as it was and only reads
/// pages, and with every remote call succeeding it ends with items.
proof fn lemma_listing_keeps_store<B>(
    world: World<B>,
    machine: ListingModel,
    request: RequestModel<B>,
)
    requires
        request is ListPage,
    ensures
        ({
            let (after, listing) = run_listing(world, machine, request);
            &&& after.store == world.store
            &&& world.precedes(after)
            &&& forall|n: int|
                world.calls.len() <= n < after.calls.len() ==> (#[trigger] after.calls[n])
                    is ListPage
            &&& world.healthy() ==> listing is Ok
        }),
    decreases machine.phase(), machine.pages_left(),
{
    let (later, reply) = world.respond(request);
    let (after, _) = run_listing(world, machine, request);
    law_calls_are_recorded(world, request);
    match machine.next(reply) {
        Progress::Call(following, pending) => {
            lemma_listing_keeps_store(later, following, pending);
            lemma_calls_chain(world, request, after);
            assert(after.calls[world.calls.len() as int] == world.calls_until(after)[0]);
        },
        Progress::Done(_) => {},
    }
}

// ---------------------------------------------------------------------------
// Backfill
// ---------------------------------------------------------------------------

/// The identities that `calls` look up, in the order of the lookups.
pub open spec fn lookups<B>(calls: Seq<RequestModel<B>>) -> Seq<KeyModel>
    decreases calls.len(),
{
    if calls.len() == 0 {
        Seq::empty()
    } else {
        match calls.last() {
            RequestModel::FindEntry { key } => lookups(calls.drop_last()).push(key),
            _ => lookups(calls.drop_last()),
        }
    }
}

/// The lookups of calls made one after another are the lookups of the
/// first, then those of the second.
proof fn lemma_lookups_concat<B>(front: Seq<RequestModel<B>>, back: Seq<RequestModel<B>>)
    ensures
        lookups(front + back) == lookups(front) + lookups(back),
    decreases back.len(),
{
    if back.len() == 0 {
        assert(front + back =~= front);
        assert(lookups(front) + lookups(back) =~= lookups(front));
    } else {
        lemma_lookups_concat(front, back.drop_last());
        assert((front + back).drop_last() =~= front + back.drop_last());
        assert((front + back).last() == back.last());
        match back.last() {
            RequestModel::FindEntry { key } => {
                assert((lookups(front) + lookups(back.drop_last())).push(key) =~= lookups(front)
                    + lookups(back.drop_last()).push(key));
            },
            _ => {},
        }
    }
}

/// A single call looks up its identity if it is a lookup, and nothing
/// otherwise.
proof fn lemma_lookups_of_one<B>(request: RequestModel<B>)
    ensures
        lookups(seq![request]) == match request {
            RequestModel::FindEntry { key } => seq![key],
            _ => Seq::<KeyModel>::empty(),
        },
{
    reveal_with_fuel(lookups, 2);
    assert(seq![request].drop_last() =~= Seq::<RequestModel<B>>::empty());
    assert(seq![request].last() == request);
    match request {
        RequestModel::FindEntry { key } => {
            assert(Seq::<KeyModel>::empty().push(key) =~= seq![key]);
        },
        _ => {},
    }
}

/// Reads of pages look nothing up.
proof fn lemma_pages_look_nothing_up<B>(calls: Seq<RequestModel<B>>)
    requires
        forall|n: int| 0 <= n < calls.len() ==> (#[trigger] calls[n]) is ListPage,
    ensures
        lookups(calls) == Seq::<KeyModel>::empty(),
    decreases calls.len(),
{
    if calls.len() > 0 {
        assert(calls.last() == calls[calls.len() - 1]);
        assert forall|n: int| 0 <= n < calls.drop_last().len() implies (
        #[trigger] calls.drop_last()[n]) is ListPage by {
            assert(calls.drop_last()[n] == calls[n]);
        }
        lemma_pages_look_nothing_up(calls.drop_last());
    }
}

/// The calls from `world` to `after` are those from `world` to a world in
/// between, then those from there to `after`.
proof fn lemma_calls_split<B>(world: World<B>, between: World<B>, after: World<B>)
    requires
        world.precedes(between),
        between.precedes(after),
    ensures
        world.precedes(after),
        world.calls_until(after) == world.calls_until(between) + between.calls_until(after),
{
    assert forall|n: int| 0 <= n < between.calls.len() implies after.calls[n]
        == between.calls[n] by {
        assert(after.calls.subrange(0, between.calls.len() as int)[n] == between.calls[n]);
    }
    assert forall|n: int| 0 <= n < world.calls.len() implies between.calls[n]
        == world.calls[n] by {
        assert(between.calls.subrange(0, world.calls.len() as int)[n] == world.calls[n]);
    }
    assert(after.calls.subrange(0, world.calls.len() as int) =~= world.calls);
    assert(world.calls_until(after) =~= world.calls_until(between) + between.calls_until(after));
}

/// A backfill that is still listing goes on as its listing does, and then
/// sweeps what was listed.
proof fn lemma_backfill_lists_first<B>(
    world: World<B>,
    machine: ListingModel,
    request: RequestModel<B>,
)
    requires
        request is ListPage,
    ensures
        ({
            let (listed_world, listing) = run_listing(world, machine, request);
            run_reconcile(world, ReconcileModel::Listing(machine), request) == match listing {
                Err(_) => listed_world,
                Ok(books) => match ReconcileModel::sweep_from::<B>(pairs_of(books), 0) {
                    Progress::Call(sweep, first) => run_reconcile(listed_world, sweep, first),
                    Progress::Done(_) => listed_world,
                },
            }
        }),
    decreases machine.phase(), machine.pages_left(),
{
    let (later, reply) = world.respond(request);
    match machine.next(reply) {
        Progress::Call(machine, request) => {
            lemma_backfill_lists_first(later, machine, request);
        },
        Progress::Done(_) => {},
    }
}

/// The identities of a sweep and the position it has reached.
spec fn sweep_position(machine: ReconcileModel) -> (Seq<KeyModel>, int) {
    match machine {
        ReconcileModel::Finding { pairs, index } => (pairs, index),
        ReconcileModel::Populating { pairs, index, .. } => (pairs, index),
        ReconcileModel::Listing(_) => (Seq::empty(), 0),
    }
}

/// Whether `machine` is a sweep at a position that exists, and `request` the
/// call it then waits on.
spec fn sweeping<B>(machine: ReconcileModel, request: RequestModel<B>) -> bool {
    match machine {
        ReconcileModel::Listing(_) => false,
        ReconcileModel::Finding { pairs, index } => 0 <= index < pairs.len() && request == (
            RequestModel::<B>::FindEntry { key: pairs[index] }
        ),
        ReconcileModel::Populating { pairs, index, inner } => 0 <= index < pairs.len() && match inner {
            PopulateModel::AwaitBook { key } => key == pairs[index] && request == (
                RequestModel::<B>::GetBook { object_id: key.object_id }
            ),
            PopulateModel::AwaitContent { key, .. } => {
                &&& key == pairs[index]
                &&& request matches RequestModel::FetchContent { key: fetched, .. }
                &&& fetched == key
            },
            PopulateModel::AwaitUpload { key } => request is Upload && key == pairs[index],
            PopulateModel::AwaitCreate => request matches RequestModel::CreateEntry { entry }
                && entry.key == pairs[index],
        },
    }
}

/// `after` holds every record of `before` unchanged, and beyond those only
/// records of identities among `pairs` from position `from` on.
spec fn grown_by(before: StoreModel, after: StoreModel, pairs: Seq<KeyModel>, from: int) -> bool {
    &&& forall|key: KeyModel| #[trigger]
        before.contains_key(key) ==> after.contains_key(key) && after[key] == before[key]
    &&& forall|key: KeyModel| #[trigger]
        after.contains_key(key) && !before.contains_key(key) ==> exists|n: int|
            from <= n < pairs.len() && #[trigger] pairs[n] == key
}

/// `store` has a record for every identity among `pairs` from position
/// `from` on.
spec fn covers(store: StoreModel, pairs: Seq<KeyModel>, from: int) -> bool {
    forall|n: int| from <= n < pairs.len() ==> store.contains_key(#[trigger] pairs[n])
}

/// Whether `key` is among `pairs` from position `from` on and has no record
/// in `store`.
spec fn missing(store: StoreModel, pairs: Seq<KeyModel>, from: int, key: KeyModel) -> bool {
    &&& !store.contains_key(key)
    &&& exists|n: int| from <= n < pairs.len() && #[trigger] pairs[n] == key
}

/// Whether a sweep of `pairs` from position `from` on, begun with `store`,
/// may make the call `request`: a lookup of an identity among them, or a
/// call of a population of one of them that has no record.
spec fn sweep_may_call<B>(
    request: RequestModel<B>,
    store: StoreModel,
    pairs: Seq<KeyModel>,
    from: int,
) -> bool {
    match request {
        RequestModel::FindEntry { key } => exists|n: int|
            from <= n < pairs.len() && #[trigger] pairs[n] == key,
        RequestModel::GetBook { object_id } => exists|n: int|
            from <= n < pairs.len() && (#[trigger] pairs[n]).object_id == object_id
                && !store.contains_key(pairs[n]),
        RequestModel::FetchContent { key, .. } => missing(store, pairs, from, key),
        RequestModel::Upload { .. } => true,
        RequestModel::CreateEntry { entry } => missing(store, pairs, from, entry.key),
        _ => false,
    }
}

proof fn lemma_sweep_may_call_widens<B>(
    request: RequestModel<B>,
    store: StoreModel,
    later: StoreModel,
    pairs: Seq<KeyModel>,
    from: int,
    reached: int,
)
    requires
        from <= reached,
        forall|key: KeyModel| #[trigger] store.contains_key(key) ==> later.contains_key(key),
        sweep_may_call(request, later, pairs, reached),
    ensures
        sweep_may_call(request, store, pairs, from),
{
    match request {
        RequestModel::FindEntry { key } => {
            let n = choose|n: int| reached <= n < pairs.len() && #[trigger] pairs[n] == key;
            assert(pairs[n] == key);
        },
        RequestModel::GetBook { object_id } => {
            let n = choose|n: int|
                reached <= n < pairs.len() && (#[trigger] pairs[n]).object_id == object_id
                    && !later.contains_key(pairs[n]);
            assert(pairs[n].object_id == object_id);
        },
        RequestModel::FetchContent { key, .. } => {
            let n = choose|n: int| reached <= n < pairs.len() && #[trigger] pairs[n] == key;
            assert(pairs[n] == key);
        },
        RequestModel::CreateEntry { entry } => {
            let n = choose|n: int| reached <= n < pairs.len() && #[trigger] pairs[n] == entry.key;
            assert(pairs[n] == entry.key);
        },
        _ => {},
    }
}

proof fn lemma_sweep<B>(world: World<B>, machine: ReconcileModel, request: RequestModel<B>)
    requires
        sweeping(machine, request),
        machine is Populating ==> !world.store.contains_key(
            sweep_position(machine).0[sweep_position(machine).1],
        ),
    ensures
        ({
            let after = run_reconcile(world, machine, request);
            let (pairs, index) = sweep_position(machine);
            &&& grown_by(world.store, after.store, pairs, index)
            &&& world.healthy() ==> covers(after.store, pairs, index)
            &&& world.precedes(after)
            &&& forall|n: int|
                world.calls.len() <= n < after.calls.len() ==> sweep_may_call(
                    #[trigger] after.calls[n],
                    world.store,
                    pairs,
                    index,
                )
            &&& lookups(world.calls_until(after)) == pairs.subrange(
                if machine is Finding {
                    index
                } else {
                    index + 1
                },
                pairs.len() as int,
            )
        }),
    decreases machine.phase(), machine.span(), machine.calls_left(),
{
    let (pairs, index) = sweep_position(machine);
    let (later, reply) = world.respond(request);
    let after = run_reconcile(world, machine, request);
    let ahead = pairs.subrange(index + 1, pairs.len() as int);
    law_calls_are_recorded(world, request);
    lemma_lookups_of_one(request);
    assert(machine is Finding ==> seq![pairs[index]] + ahead =~= pairs.subrange(
        index,
        pairs.len() as int,
    ));
    assert(pairs[index] == pairs[index]);
    assert(sweep_may_call(request, world.store, pairs, index));
    assert(grown_by(world.store, later.store, pairs, index)) by {
        assert forall|key: KeyModel| #[trigger]
            later.store.contains_key(key) && !world.store.contains_key(key) implies exists|n: int|
            index <= n < pairs.len() && #[trigger] pairs[n] == key by {
            assert(pairs[index] == key);
        }
    }
    match machine.next(reply) {
        Progress::Call(following, pending) => {
            let (_, reached) = sweep_position(following);
            assert(sweeping(following, pending));
            lemma_sweep(later, following, pending);
            lemma_calls_chain(world, request, after);
            assert(index <= reached <= index + 1);
            lemma_lookups_concat(seq![request], later.calls_until(after));
            assert(lookups(later.calls_until(after)) == ahead);
            assert(grown_by(world.store, after.store, pairs, index)) by {
                assert forall|key: KeyModel| #[trigger]
                    after.store.contains_key(key) && !world.store.contains_key(
                        key,
                    ) implies exists|n: int| index <= n < pairs.len() && #[trigger] pairs[n] == key by {
                    if later.store.contains_key(key) {
                        assert(pairs[index] == key);
                    } else {
                        let n = choose|n: int| reached <= n < pairs.len() && #[trigger] pairs[n] == key;
                        assert(pairs[n] == key);
                    }
                }
            }
            if world.healthy() {
                assert(later.healthy());
                if reached == index + 1 {
                    assert(later.store.contains_key(pairs[index]));
                }
                assert(covers(after.store, pairs, index));
            }
            assert forall|n: int| world.calls.len() <= n < after.calls.len() implies sweep_may_call(
                #[trigger] after.calls[n],
                world.store,
                pairs,
                index,
            ) by {
                if n == world.calls.len() {
                    assert(after.calls[n] == world.calls_until(after)[0]);
                } else {
                    lemma_sweep_may_call_widens(
                        after.calls[n],
                        world.store,
                        later.store,
                        pairs,
                        index,
                        reached,
                    );
                }
            }
        },
        Progress::Done(_) => {
            assert(index + 1 == pairs.len());
            assert(ahead =~= Seq::<KeyModel>::empty());
            assert(seq![pairs[index]] + ahead =~= seq![pairs[index]]);
            if world.healthy() {
                assert(later.store.contains_key(pairs[index]));
            }
            assert forall|n: int| world.calls.len() <= n < after.calls.len() implies sweep_may_call(
                #[trigger] after.calls[n],
                world.store,
                pairs,
                index,
            ) by {
                assert(after.calls[n] == world.calls_until(after)[0]);
            }
        },
    }
}

/// Whether a backfill that found `store` and listed `books` may make the
/// call `request`: it may read pages of the catalog; it may look up a
/// listed identity; and for a listed identity that had no record, and for no
/// other, it may read the catalog item (`GetBook` names the item only),
/// fetch the bytes, upload them and create the record. It never removes a
/// record and never downloads.
pub open spec fn backfill_may_call<B>(
    request: RequestModel<B>,
    store: StoreModel,
    books: Seq<BookModel>,
) -> bool {
    match request {
        RequestModel::ListPage { .. } => true,
        RequestModel::FindEntry { key } => listed(books, key),
        RequestModel::GetBook { object_id } => exists|key: KeyModel|
            key.object_id == object_id && #[trigger] listed(books, key) && !store.contains_key(
                key,
            ),
        RequestModel::FetchContent { key, .. } => listed(books, key) && !store.contains_key(key),
        RequestModel::Upload { .. } => true,
        RequestModel::CreateEntry { entry } => listed(books, entry.key) && !store.contains_key(
            entry.key,
        ),
        RequestModel::DeleteEntry { .. } => false,
        RequestModel::Fetch { .. } => false,
    }
}

/// A backfill populates exactly what is listed and missing. Every record the
/// store had, it still has, unchanged. Every record it has gained is of an
/// identity that is listed: of an item of the catalog and a representation
/// that item is available in. A listing that failed leaves the store as it
/// was, after nothing but reads of pages. The identities are looked up one
/// at a time in sweep order, each as often as it is listed. Every call the
/// backfill makes is one it may make: in particular it asks the origin and
/// the relay for nothing on behalf of an identity that had a record. And
/// with every remote call succeeding, every listed identity has a record in
/// the end.
pub proof fn law_reconcile_populates_what_is_missing<B>(world: World<B>)
    ensures
        ({
            let after = reconcile(world);
            let (_, listing) = list_all_items(world);
            &&& world.precedes(after)
            &&& forall|key: KeyModel| #[trigger]
                world.store.contains_key(key) ==> find(after.store, key) == find(world.store, key)
            &&& listing is Err ==> after.store == world.store && forall|n: int|
                world.calls.len() <= n < after.calls.len() ==> (#[trigger] after.calls[n])
                    is ListPage
            &&& world.healthy() ==> listing is Ok
            &&& listing matches Ok(books) ==> {
                &&& forall|key: KeyModel| #[trigger]
                    after.store.contains_key(key) && !world.store.contains_key(key) ==> listed(
                        books,
                        key,
                    )
                &&& lookups(world.calls_until(after)) == pairs_of(books)
                &&& forall|n: int|
                    world.calls.len() <= n < after.calls.len() ==> backfill_may_call(
                        #[trigger] after.calls[n],
                        world.store,
                        books,
                    )
                &&& world.healthy() ==> forall|key: KeyModel| #[trigger]
                    listed(books, key) ==> after.store.contains_key(key)
            }
        }),
{
    let (machine, request) = ListingModel::start::<B>();
    lemma_backfill_lists_first(world, machine, request);
    lemma_listing_keeps_store(world, machine, request);
    let (listed_world, listing) = run_listing(world, machine, request);
    let after = reconcile(world);
    let listing_calls = world.calls_until(listed_world);
    assert forall|n: int| 0 <= n < listing_calls.len() implies (#[trigger] listing_calls[n])
        is ListPage by {
        assert(listing_calls[n] == listed_world.calls[world.calls.len() + n]);
    }
    lemma_pages_look_nothing_up(listing_calls);
    match listing {
        Err(_) => {},
        Ok(books) => {
            let pairs = pairs_of(books);
            assert forall|key: KeyModel| pairs.contains(key) <==> #[trigger] listed(books, key) by {
                lemma_pairs_of_contains(books, key);
            }
            match ReconcileModel::sweep_from::<B>(pairs, 0) {
                Progress::Call(sweep, first) => {
                    lemma_sweep(listed_world, sweep, first);
                    lemma_calls_split(world, listed_world, after);
                    lemma_lookups_concat(listing_calls, listed_world.calls_until(after));
                    assert(pairs.subrange(0, pairs.len() as int) =~= pairs);
                    assert(Seq::<KeyModel>::empty() + pairs =~= pairs);
                    assert(grown_by(world.store, after.store, pairs, 0));
                    assert forall|key: KeyModel| #[trigger]
                        after.store.contains_key(key) && !world.store.contains_key(
                            key,
                        ) implies listed(books, key) by {
                        let n = choose|n: int| 0 <= n < pairs.len() && #[trigger] pairs[n] == key;
                        assert(pairs[n] == key);
                        assert(pairs.contains(key));
                    }
                    assert forall|n: int|
                        world.calls.len() <= n < after.calls.len() implies backfill_may_call(
                        #[trigger] after.calls[n],
                        world.store,
                        books,
                    ) by {
                        if n < listed_world.calls.len() {
                            assert(after.calls.subrange(0, listed_world.calls.len() as int)[n]
                                == listed_world.calls[n]);
                            assert(listed_world.calls[n] is ListPage);
                        } else {
                            lemma_sweep_call_is_allowed(after.calls[n], world.store, books);
                        }
                    }
                    if world.healthy() {
                        assert(listed_world.healthy());
                        assert(covers(after.store, pairs, 0));
                        assert forall|key: KeyModel| #[trigger]
                            listed(books, key) implies after.store.contains_key(key) by {
                            assert(pairs.contains(key));
                            let n = choose|n: int| 0 <= n < pairs.len() && pairs[n] == key;
                            assert(after.store.contains_key(pairs[n]));
                        }
                    }
                },
                Progress::Done(_) => {
                    assert(pairs.len() == 0);
                    assert(pairs =~= Seq::<KeyModel>::empty());
                    assert forall|key: KeyModel| #[trigger]
                        listed(books, key) implies after.store.contains_key(key) by {
                        assert(pairs.contains(key));
                    }
                },
            }
        },
    }
}

/// What a sweep of the listed identities may call, a backfill may call.
proof fn lemma_sweep_call_is_allowed<B>(
    request: RequestModel<B>,
    store: StoreModel,
    books: Seq<BookModel>,
)
    requires
        sweep_may_call(request, store, pairs_of(books), 0),
    ensures
        backfill_may_call(request, store, books),
{
    let pairs = pairs_of(books);
    match request {
        RequestModel::FindEntry { key } => {
            let n = choose|n: int| 0 <= n < pairs.len() && #[trigger] pairs[n] == key;
            assert(pairs.contains(key));
            lemma_pairs_of_contains(books, key);
        },
        RequestModel::GetBook { object_id } => {
            let n = choose|n: int|
                0 <= n < pairs.len() && (#[trigger] pairs[n]).object_id == object_id
                    && !store.contains_key(pairs[n]);
            assert(pairs.contains(pairs[n]));
            lemma_pairs_of_contains(books, pairs[n]);
            assert(listed(books, pairs[n]));
        },
        RequestModel::FetchContent { key, .. } => {
            let n = choose|n: int| 0 <= n < pairs.len() && #[trigger] pairs[n] == key;
            assert(pairs.contains(key));
            lemma_pairs_of_contains(books, key);
        },
        RequestModel::CreateEntry { entry } => {
            let n = choose|n: int| 0 <= n < pairs.len() && #[trigger] pairs[n] == entry.key;
            assert(pairs.contains(entry.key));
            lemma_pairs_of_contains(books, entry.key);
        },
        _ => {},
    }
}

} // verus!
