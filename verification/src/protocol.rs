//! The vocabulary shared by every operation: the calls an operation may ask
//! for, the replies it is handed, and the shape of one step of progress.

use vstd::prelude::*;
use crate::catalog::{Book, BookModel, FilenameData, FilenameModel, Page, PageModel};
use crate::entry::{CacheEntry, CacheKey, EntryModel, KeyModel, Pointer};

verus! {

/// Why a call against a collaborator produced nothing.
#[derive(Clone, Copy, Debug, PartialEq, Eq, Structural)]
pub enum Failure {
    /// The catalog holds no such item or page.
    NotFound,
    /// The remote call itself failed.
    Transport,
    /// A record with that identity already exists.
    Conflict,
}

/// The number of items asked for with every page of the catalog.
pub const PAGE_SIZE: u32 = 50;

/// Model of a call.
pub enum RequestModel<B> {
    FindEntry { key: KeyModel },
    CreateEntry { entry: EntryModel },
    DeleteEntry { key: KeyModel },
    GetBook { object_id: i32 },
    FetchContent { source_id: i32, key: KeyModel },
    Upload { content: B, caption: Seq<char> },
    Fetch { entry: EntryModel },
    ListPage { page: u32, page_size: u32, uploaded_gte: Seq<char>, uploaded_lte: Seq<char> },
}

/// A call for the embedding program to make. `B` is whatever carries a file's
/// bytes between the collaborators.
#[derive(Debug, PartialEq, Eq)]
pub enum Request<B> {
    /// Cache store: look a record up.
    FindEntry { key: CacheKey },
    /// Cache store: insert a record; fails if one exists under its identity.
    CreateEntry { entry: CacheEntry },
    /// Cache store: remove a record if there is one; never an error if
    /// there is none.
    DeleteEntry { key: CacheKey },
    /// Catalog: read one item.
    GetBook { object_id: i32 },
    /// Retrieval adapter: fetch the bytes of one representation of an item.
    FetchContent { source_id: i32, key: CacheKey },
    /// Blob relay: store bytes with a caption.
    Upload { content: B, caption: String },
    /// The three reads behind a download, made concurrently and joined: the
    /// bytes behind the record's pointer, the file names for its identity,
    /// and the catalog item it belongs to.
    Fetch { entry: CacheEntry },
    /// Catalog: read one page of the listing.
    ListPage { page: u32, page_size: u32, uploaded_gte: String, uploaded_lte: String },
}

impl<B> View for Request<B> {
    type V = RequestModel<B>;

    open spec fn view(&self) -> RequestModel<B> {
        match *self {
            Request::FindEntry { key } => RequestModel::FindEntry { key: key@ },
            Request::CreateEntry { entry } => RequestModel::CreateEntry { entry: entry@ },
            Request::DeleteEntry { key } => RequestModel::DeleteEntry { key: key@ },
            Request::GetBook { object_id } => RequestModel::GetBook { object_id },
            Request::FetchContent { source_id, key } => RequestModel::FetchContent {
                source_id,
                key: key@,
            },
            Request::Upload { content, caption } => RequestModel::Upload {
                content,
                caption: caption@,
            },
            Request::Fetch { entry } => RequestModel::Fetch { entry: entry@ },
            Request::ListPage { page, page_size, uploaded_gte, uploaded_lte } => {
                RequestModel::ListPage {
                    page,
                    page_size,
                    uploaded_gte: uploaded_gte@,
                    uploaded_lte: uploaded_lte@,
                }
            },
        }
    }
}

/// Model of a reply.
pub enum ReplyModel<B> {
    Entry(Option<EntryModel>),
    Created(EntryModel),
    Deleted(Option<EntryModel>),
    Book(BookModel),
    Content(B),
    Uploaded(Pointer),
    Fetched { blob: Option<B>, filename: Option<FilenameModel>, book: Option<BookModel> },
    Page(PageModel),
    Failed(Failure),
}

/// What a call came back with.
#[derive(Debug, PartialEq, Eq)]
pub enum Reply<B> {
    /// The record found, or none.
    Entry(Option<CacheEntry>),
    /// The record as the store inserted it.
    Created(CacheEntry),
    /// The record is gone; with it comes the record removed, if there was
    /// one.
    Deleted(Option<CacheEntry>),
    /// The catalog item.
    Book(Book),
    /// The bytes of the representation asked for.
    Content(B),
    /// Where the relay put the bytes.
    Uploaded(Pointer),
    /// The three joined reads of a download, each absent if it failed.
    Fetched { blob: Option<B>, filename: Option<FilenameData>, book: Option<Book> },
    /// The page of the listing.
    Page(Page),
    /// The call failed.
    Failed(Failure),
}

impl<B> View for Reply<B> {
    type V = ReplyModel<B>;

    open spec fn view(&self) -> ReplyModel<B> {
        match *self {
            Reply::Entry(found) => ReplyModel::Entry(found.deep_view()),
            Reply::Created(entry) => ReplyModel::Created(entry@),
            Reply::Deleted(removed) => ReplyModel::Deleted(removed.deep_view()),
            Reply::Book(book) => ReplyModel::Book(book@),
            Reply::Content(content) => ReplyModel::Content(content),
            Reply::Uploaded(pointer) => ReplyModel::Uploaded(pointer),
            Reply::Fetched { blob, filename, book } => ReplyModel::Fetched {
                blob,
                filename: filename.deep_view(),
                book: book.deep_view(),
            },
            Reply::Page(page) => ReplyModel::Page(page@),
            Reply::Failed(failure) => ReplyModel::Failed(failure),
        }
    }
}

/// One step of an operation: either it goes on, in state `M` and waiting for
/// the reply to a call `R`, or it has ended with outcome `T`.
#[derive(Debug, PartialEq, Eq)]
pub enum Progress<M, R, T> {
    Call(M, R),
    Done(T),
}

impl<M: View, R: View, T: DeepView> Progress<M, R, T> {
    /// The same step over models.
    pub open spec fn model(self) -> Progress<M::V, R::V, T::V> {
        match self {
            Progress::Call(machine, request) => Progress::Call(machine@, request@),
            Progress::Done(outcome) => Progress::Done(outcome.deep_view()),
        }
    }
}

} // verus!
