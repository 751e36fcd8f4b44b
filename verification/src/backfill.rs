//! The catalog-wide backfill: listing every item of the catalog page by page,
//! and populating every representation of every item that has no record yet.

use vstd::prelude::*;
use crate::catalog::{Book, BookModel, Page};
use crate::entry::{CacheKey, KeyModel};
use crate::populate::{cache_file, Populate, PopulateModel};
use crate::protocol::{Failure, Progress, Reply, ReplyModel, Request, RequestModel, PAGE_SIZE};

verus! {

/// Model of a listing in flight.
pub enum ListingModel {
    First,
    Rest { collected: Seq<BookModel>, current: u32, page_count: u32 },
}

impl ListingModel {
    /// The call that reads page `page`: always with the fixed page size and
    /// no bound on the upload date.
    pub open spec fn page_request<B>(page: u32) -> RequestModel<B> {
        RequestModel::ListPage {
            page,
            page_size: PAGE_SIZE,
            uploaded_gte: Seq::empty(),
            uploaded_lte: Seq::empty(),
        }
    }

    /// What a listing does with a reply. The first page tells how many pages
    /// there are; pages two to that number are then read one after another,
    /// and the items are kept in the order they came. A failed page ends the
    /// listing with that failure; a reply that is no page at all counts as a
    /// failed transport.
    pub open spec fn next<B>(self, reply: ReplyModel<B>) -> Progress<
        ListingModel,
        RequestModel<B>,
        Result<Seq<BookModel>, Failure>,
    > {
        match reply {
            ReplyModel::Page(page) => match self {
                ListingModel::First => if 2 <= page.pages {
                    Progress::Call(
                        ListingModel::Rest {
                            collected: page.items,
                            current: 2,
                            page_count: page.pages,
                        },
                        Self::page_request(2),
                    )
                } else {
                    Progress::Done(Ok(page.items))
                },
                ListingModel::Rest { collected, current, page_count } => if current < page_count {
                    Progress::Call(
                        ListingModel::Rest {
                            collected: collected + page.items,
                            current: (current + 1) as u32,
                            page_count,
                        },
                        Self::page_request((current + 1) as u32),
                    )
                } else {
                    Progress::Done(Ok(collected + page.items))
                },
            },
            ReplyModel::Failed(failure) => Progress::Done(Err(failure)),
            _ => Progress::Done(Err(Failure::Transport)),
        }
    }

    /// The listing, about to read the first page.
    pub open spec fn start<B>() -> (ListingModel, RequestModel<B>) {
        (ListingModel::First, Self::page_request(1))
    }

    /// One before the first page is in, zero after.
    pub open spec fn phase(self) -> nat {
        match self {
            ListingModel::First => 1,
            ListingModel::Rest { .. } => 0,
        }
    }

    /// The pages still to be asked for once the pending one is in.
    pub open spec fn pages_left(self) -> nat {
        match self {
            ListingModel::First => 0,
            ListingModel::Rest { current, page_count, .. } => if current < page_count {
                (page_count - current) as nat
            } else {
                0
            },
        }
    }

    /// Whether this listing is nearer its end than `other`: past the first
    /// page when `other` is not, or with fewer pages left.
    pub open spec fn nearer_end_than(self, other: ListingModel) -> bool {
        self.phase() < other.phase() || (self.phase() == other.phase() && self.pages_left()
            < other.pages_left())
    }
}

/// A listing of the whole catalog in flight.
#[derive(Debug, PartialEq, Eq)]
pub enum Listing {
    First,
    Rest { collected: Vec<Book>, current: u32, page_count: u32 },
}

impl View for Listing {
    type V = ListingModel;

    open spec fn view(&self) -> ListingModel {
        match *self {
            Listing::First => ListingModel::First,
            Listing::Rest { collected, current, page_count } => ListingModel::Rest {
                collected: collected.deep_view(),
                current,
                page_count,
            },
        }
    }
}

/// Model of what a listing ends with.
pub open spec fn listed_model(outcome: Result<Vec<Book>, Failure>) -> Result<
    Seq<BookModel>,
    Failure,
> {
    match outcome {
        Ok(books) => Ok(books.deep_view()),
        Err(failure) => Err(failure),
    }
}

/// Model of one step of a listing.
pub open spec fn listing_step_model<B>(
    step: Progress<Listing, Request<B>, Result<Vec<Book>, Failure>>,
) -> Progress<ListingModel, RequestModel<B>, Result<Seq<BookModel>, Failure>> {
    match step {
        Progress::Call(machine, request) => Progress::Call(machine@, request@),
        Progress::Done(outcome) => Progress::Done(listed_model(outcome)),
    }
}

fn list_page<B>(page: u32) -> (request: Request<B>)
    ensures
        request@ == ListingModel::page_request::<B>(page),
{
    Request::ListPage {
        page,
        page_size: PAGE_SIZE,
        uploaded_gte: String::new(),
        uploaded_lte: String::new(),
    }
}

/// Starts the listing of the whole catalog: the first call reads page one.
pub fn get_books_for_update<B>() -> (start: (Listing, Request<B>))
    ensures
        (start.0@, start.1@) == ListingModel::start::<B>(),
{
    (Listing::First, list_page(1))
}

impl Listing {
    /// Takes the reply to the pending call: the page read is appended to the
    /// items collected, and either the next page is asked for or, after the
    /// last page, the listing ends with all items in catalog order. A failure
    /// ends it at once with that failure. Each step brings the listing nearer
    /// its end, so it ends after at most as many calls as page one announced
    /// pages, or after one.
    pub fn next<B>(self, reply: Reply<B>) -> (step: Progress<
        Listing,
        Request<B>,
        Result<Vec<Book>, Failure>,
    >)
        ensures
            listing_step_model(step) == self@.next(reply@),
            step matches Progress::Call(machine, _) ==> machine@.nearer_end_than(self@),
    {
        match reply {
            Reply::Page(page) => {
                let Page { items, pages } = page;
                match self {
                    Listing::First => if 2 <= pages {
                        Progress::Call(
                            Listing::Rest { collected: items, current: 2, page_count: pages },
                            list_page(2),
                        )
                    } else {
                        Progress::Done(Ok(items))
                    },
                    Listing::Rest { collected, current, page_count } => {
                        let ghost before = collected.deep_view();
                        let ghost added = items.deep_view();
                        let mut collected = collected;
                        let mut items = items;
                        collected.append(&mut items);
                        assert(collected.deep_view() =~= before + added);
                        if current < page_count {
                            let following: u32 = current + 1;
                            Progress::Call(
                                Listing::Rest { collected, current: following, page_count },
                                list_page(following),
                            )
                        } else {
                            Progress::Done(Ok(collected))
                        }
                    },
                }
            },
            Reply::Failed(failure) => Progress::Done(Err(failure)),
            _ => Progress::Done(Err(Failure::Transport)),
        }
    }
}

/// The identities one catalog item can be cached under, in the order of its
/// representations.
pub open spec fn keys_of(book: BookModel) -> Seq<KeyModel> {
    Seq::new(
        book.available_types.len(),
        |j: int| KeyModel { object_id: book.id, object_type: book.available_types[j] },
    )
}

/// Every identity that the items of a listing can be cached under: item by
/// item, and within an item representation by representation.
pub open spec fn pairs_of(books: Seq<BookModel>) -> Seq<KeyModel>
    decreases books.len(),
{
    if books.len() == 0 {
        Seq::empty()
    } else {
        pairs_of(books.drop_last()) + keys_of(books.last())
    }
}

/// Whether some item of `books` has the id of `key` and is available in its
/// representation.
pub open spec fn listed(books: Seq<BookModel>, key: KeyModel) -> bool {
    exists|i: int, j: int|
        0 <= i < books.len() && 0 <= j < books[i].available_types.len() && books[i].id
            == key.object_id && #[trigger] books[i].available_types[j] == key.object_type
}

/// The sweep order holds exactly the identities that are listed.
pub proof fn lemma_pairs_of_contains(books: Seq<BookModel>, key: KeyModel)
    ensures
        pairs_of(books).contains(key) <==> listed(books, key),
    decreases books.len(),
{
    if books.len() == 0 {
    } else {
        let front = books.drop_last();
        let last = books.last();
        lemma_pairs_of_contains(front, key);
        let tail = keys_of(last);
        let all = pairs_of(front) + tail;
        if pairs_of(books).contains(key) {
            let n = choose|n: int| 0 <= n < all.len() && all[n] == key;
            if n < pairs_of(front).len() {
                assert(pairs_of(front)[n] == key);
                assert(pairs_of(front).contains(key));
                let (i, j) = choose|i: int, j: int|
                    0 <= i < front.len() && 0 <= j < front[i].available_types.len() && front[i].id
                        == key.object_id && #[trigger] front[i].available_types[j]
                        == key.object_type;
                assert(books[i].available_types[j] == key.object_type);
            } else {
                let j = n - pairs_of(front).len();
                assert(tail[j] == key);
                assert(books[books.len() - 1].available_types[j] == key.object_type);
            }
        }
        if listed(books, key) {
            let (i, j) = choose|i: int, j: int|
                0 <= i < books.len() && 0 <= j < books[i].available_types.len() && books[i].id
                    == key.object_id && #[trigger] books[i].available_types[j] == key.object_type;
            if i < front.len() {
                assert(front[i].available_types[j] == key.object_type);
                assert(pairs_of(front).contains(key));
                let n = choose|n: int| 0 <= n < pairs_of(front).len() && pairs_of(front)[n] == key;
                assert(all[n] == key);
            } else {
                assert(tail[j] == key);
                assert(all[pairs_of(front).len() + j] == key);
            }
        }
    }
}

/// Lists, in sweep order, every identity the given items can be cached under.
pub fn pending_pairs(books: &Vec<Book>) -> (pairs: Vec<CacheKey>)
    ensures
        pairs.deep_view() == pairs_of(books.deep_view()),
{
    let mut pairs: Vec<CacheKey> = Vec::new();
    let mut i: usize = 0;
    assert(pairs.deep_view() =~= pairs_of(books.deep_view().take(0)));
    while i < books.len()
        invariant
            i <= books.len(),
            pairs.deep_view() == pairs_of(books.deep_view().take(i as int)),
        decreases books.len() - i,
    {
        let book = &books[i];
        let ghost done = pairs.deep_view();
        let mut j: usize = 0;
        assert(pairs.deep_view() =~= done + keys_of(book@).take(0));
        while j < book.available_types.len()
            invariant
                j <= book.available_types.len(),
                pairs.deep_view() == done + keys_of(book@).take(j as int),
            decreases book.available_types.len() - j,
        {
            let ghost before = pairs.deep_view();
            let key = CacheKey { object_id: book.id, object_type: book.available_types[j].clone() };
            pairs.push(key);
            assert(pairs.deep_view() =~= before.push(key@));
            assert(keys_of(book@).take(j as int + 1) =~= keys_of(book@).take(j as int).push(key@));
            j += 1;
        }
        proof {
            let upto = books.deep_view().take(i as int + 1);
            assert(upto.drop_last() =~= books.deep_view().take(i as int));
            assert(upto.last() == book@);
            assert(keys_of(book@).take(j as int) =~= keys_of(book@));
        }
        i += 1;
    }
    assert(books.deep_view().take(i as int) =~= books.deep_view());
    pairs
}

/// Model of a backfill in flight.
pub enum ReconcileModel {
    Listing(ListingModel),
    Finding { pairs: Seq<KeyModel>, index: int },
    Populating { pairs: Seq<KeyModel>, index: int, inner: PopulateModel },
}

impl ReconcileModel {
    /// The sweep from position `index`: a lookup of the identity there, or
    /// the end of the backfill when the identities are used up.
    pub open spec fn sweep_from<B>(pairs: Seq<KeyModel>, index: int) -> Progress<
        ReconcileModel,
        RequestModel<B>,
        (),
    > {
        if 0 <= index < pairs.len() {
            Progress::Call(
                ReconcileModel::Finding { pairs, index },
                RequestModel::FindEntry { key: pairs[index] },
            )
        } else {
            Progress::Done(())
        }
    }

    /// What a backfill does with a reply. It lists the catalog; a failed
    /// listing ends it. Then, one identity at a time and in sweep order, it
    /// looks the record up and populates only on a miss: a record found and a
    /// failed lookup both move on to the next identity, and so does the end
    /// of a population, whatever it gave.
    pub open spec fn next<B>(self, reply: ReplyModel<B>) -> Progress<
        ReconcileModel,
        RequestModel<B>,
        (),
    > {
        match self {
            ReconcileModel::Listing(listing) => match listing.next(reply) {
                Progress::Call(listing, request) => Progress::Call(
                    ReconcileModel::Listing(listing),
                    request,
                ),
                Progress::Done(Ok(books)) => Self::sweep_from(pairs_of(books), 0),
                Progress::Done(Err(_)) => Progress::Done(()),
            },
            ReconcileModel::Finding { pairs, index } => if 0 <= index < pairs.len() {
                match reply {
                    ReplyModel::Entry(None) => {
                        let (inner, request) = PopulateModel::start::<B>(pairs[index]);
                        Progress::Call(ReconcileModel::Populating { pairs, index, inner }, request)
                    },
                    _ => Self::sweep_from(pairs, index + 1),
                }
            } else {
                Progress::Done(())
            },
            ReconcileModel::Populating { pairs, index, inner } => match inner.next(reply) {
                Progress::Call(inner, request) => Progress::Call(
                    ReconcileModel::Populating { pairs, index, inner },
                    request,
                ),
                Progress::Done(_) => if 0 <= index < pairs.len() {
                    Self::sweep_from(pairs, index + 1)
                } else {
                    Progress::Done(())
                },
            },
        }
    }

    /// The backfill, about to read the first page of the catalog.
    pub open spec fn start<B>() -> (ReconcileModel, RequestModel<B>) {
        let (listing, request) = ListingModel::start::<B>();
        (ReconcileModel::Listing(listing), request)
    }

    /// Zero during the sweep, more while the catalog is listed.
    pub open spec fn phase(self) -> nat {
        match self {
            ReconcileModel::Listing(listing) => 1 + listing.phase(),
            _ => 0,
        }
    }

    /// During the listing the pages left, during the sweep the identities
    /// not yet dealt with.
    pub open spec fn span(self) -> nat {
        match self {
            ReconcileModel::Listing(listing) => listing.pages_left(),
            ReconcileModel::Finding { pairs, index } | ReconcileModel::Populating {
                pairs,
                index,
                ..
            } => if 0 <= index < pairs.len() {
                (pairs.len() - index) as nat
            } else {
                0
            },
        }
    }

    /// An upper bound on the calls left for the identity being dealt with.
    pub open spec fn calls_left(self) -> nat {
        match self {
            ReconcileModel::Listing(_) => 0,
            ReconcileModel::Finding { .. } => 5,
            ReconcileModel::Populating { inner, .. } => inner.calls_left(),
        }
    }

    /// Whether this backfill is nearer its end than `other`: in a later
    /// phase, or in the same phase with less of it left, or at the same
    /// identity with fewer calls left for it.
    pub open spec fn nearer_end_than(self, other: ReconcileModel) -> bool {
        ||| self.phase() < other.phase()
        ||| self.phase() == other.phase() && self.span() < other.span()
        ||| self.phase() == other.phase() && self.span() == other.span() && self.calls_left()
            < other.calls_left()
    }
}

/// A backfill in flight.
#[derive(Debug, PartialEq, Eq)]
pub enum Reconcile {
    Listing(Listing),
    Finding { pairs: Vec<CacheKey>, index: usize },
    Populating { pairs: Vec<CacheKey>, index: usize, inner: Populate },
}

impl View for Reconcile {
    type V = ReconcileModel;

    open spec fn view(&self) -> ReconcileModel {
        match *self {
            Reconcile::Listing(listing) => ReconcileModel::Listing(listing@),
            Reconcile::Finding { pairs, index } => ReconcileModel::Finding {
                pairs: pairs.deep_view(),
                index: index as int,
            },
            Reconcile::Populating { pairs, index, inner } => ReconcileModel::Populating {
                pairs: pairs.deep_view(),
                index: index as int,
                inner: inner@,
            },
        }
    }
}

fn sweep_from<B>(pairs: Vec<CacheKey>, index: usize) -> (step: Progress<Reconcile, Request<B>, ()>)
    ensures
        step.model() == ReconcileModel::sweep_from::<B>(pairs.deep_view(), index as int),
{
    if index < pairs.len() {
        let key = pairs[index].clone();
        Progress::Call(Reconcile::Finding { pairs, index }, Request::FindEntry { key })
    } else {
        Progress::Done(())
    }
}

/// Starts the backfill: the first call reads page one of the catalog.
pub fn start_update_cache<B>() -> (start: (Reconcile, Request<B>))
    ensures
        (start.0@, start.1@) == ReconcileModel::start::<B>(),
{
    let (listing, request) = get_books_for_update();
    (Reconcile::Listing(listing), request)
}

impl Reconcile {
    /// Takes the reply to the pending call and goes on as the model says.
    /// Each step brings the backfill nearer its end: it never comes back to
    /// an identity it has dealt with.
    pub fn next<B>(self, reply: Reply<B>) -> (step: Progress<Reconcile, Request<B>, ()>)
        ensures
            step.model() == self@.next(reply@),
            step matches Progress::Call(machine, _) ==> machine@.nearer_end_than(self@),
    {
        match self {
            Reconcile::Listing(listing) => match listing.next(reply) {
                Progress::Call(listing, request) => Progress::Call(
                    Reconcile::Listing(listing),
                    request,
                ),
                Progress::Done(Ok(books)) => sweep_from(pending_pairs(&books), 0),
                Progress::Done(Err(_)) => Progress::Done(()),
            },
            Reconcile::Finding { pairs, index } => if index < pairs.len() {
                match reply {
                    Reply::Entry(None) => {
                        let key = pairs[index].clone();
                        let (inner, request) = cache_file(key.object_id, key.object_type);
                        Progress::Call(Reconcile::Populating { pairs, index, inner }, request)
                    },
                    _ => sweep_from(pairs, index + 1),
                }
            } else {
                Progress::Done(())
            },
            Reconcile::Populating { pairs, index, inner } => match inner.next(reply) {
                Progress::Call(inner, request) => Progress::Call(
                    Reconcile::Populating { pairs, index, inner },
                    request,
                ),
                Progress::Done(_) => if index < pairs.len() {
                    sweep_from(pairs, index + 1)
                } else {
                    Progress::Done(())
                },
            },
        }
    }
}

} // verus!
