//! Serving a cached file: the joined reads behind a download, the removal of
//! a record whose pointer turned out stale, and the single repair cycle that
//! the download path runs around both.

use vstd::prelude::*;
use crate::entry::{CacheEntry, CacheKey, EntryModel, KeyModel};
use crate::populate::{get_cached_file_or_cache, GetOrPopulate, GetOrPopulateModel};
use crate::protocol::{Progress, Reply, ReplyModel, Request, RequestModel};

verus! {

/// Model of an assembled download.
pub struct DownloadResultModel<B> {
    pub response: B,
    pub filename: Seq<char>,
    pub filename_ascii: Seq<char>,
    pub caption: Seq<char>,
}

/// The complete answer to a download: the bytes, the name to offer them
/// under, that name in ASCII only, and the caption of the item.
#[derive(Debug, PartialEq, Eq)]
pub struct DownloadResult<B> {
    pub response: B,
    pub filename: String,
    pub filename_ascii: String,
    pub caption: String,
}

impl<B> View for DownloadResult<B> {
    type V = DownloadResultModel<B>;

    open spec fn view(&self) -> DownloadResultModel<B> {
        DownloadResultModel {
            response: self.response,
            filename: self.filename@,
            filename_ascii: self.filename_ascii@,
            caption: self.caption@,
        }
    }
}

impl<B> DeepView for DownloadResult<B> {
    type V = DownloadResultModel<B>;

    open spec fn deep_view(&self) -> DownloadResultModel<B> {
        self@
    }
}

/// Model of a download in flight.
pub enum DownloadModel {
    Fetching { key: KeyModel },
    Deleting,
}

impl DownloadModel {
    /// What a download does with a reply. Of the joined reads the bytes are
    /// looked at first: without them the pointer counts as stale, whatever
    /// the other two reads gave, and the record is removed before the
    /// download ends with nothing. A failed read of the names or of the
    /// catalog item ends the download with nothing and leaves the record.
    pub open spec fn next<B>(self, reply: ReplyModel<B>) -> Progress<
        DownloadModel,
        RequestModel<B>,
        Option<DownloadResultModel<B>>,
    > {
        match (self, reply) {
            (DownloadModel::Fetching { key }, ReplyModel::Fetched { blob: None, .. }) => {
                Progress::Call(DownloadModel::Deleting, RequestModel::DeleteEntry { key })
            },
            (
                DownloadModel::Fetching { .. },
                ReplyModel::Fetched { blob: Some(response), filename: Some(names), book: Some(book) },
            ) => Progress::Done(
                Some(
                    DownloadResultModel {
                        response,
                        filename: names.filename,
                        filename_ascii: names.filename_ascii,
                        caption: book.caption,
                    },
                ),
            ),
            _ => Progress::Done(None),
        }
    }

    /// An upper bound on the calls still to be answered.
    pub open spec fn calls_left(self) -> nat {
        match self {
            DownloadModel::Fetching { .. } => 2,
            DownloadModel::Deleting => 1,
        }
    }

    /// The download through `entry`, about to make the joined reads.
    pub open spec fn start<B>(entry: EntryModel) -> (DownloadModel, RequestModel<B>) {
        (DownloadModel::Fetching { key: entry.key }, RequestModel::Fetch { entry })
    }
}

/// A download in flight.
#[derive(Debug, PartialEq, Eq)]
pub enum Download {
    Fetching { key: CacheKey },
    Deleting,
}

impl View for Download {
    type V = DownloadModel;

    open spec fn view(&self) -> DownloadModel {
        match *self {
            Download::Fetching { key } => DownloadModel::Fetching { key: key@ },
            Download::Deleting => DownloadModel::Deleting,
        }
    }
}

/// Starts the download through a record: the first call makes the three
/// joined reads.
pub fn download_from_cache<B>(cached_data: CacheEntry) -> (start: (Download, Request<B>))
    ensures
        (start.0@, start.1@) == DownloadModel::start::<B>(cached_data@),
{
    let key = cached_data.key();
    (Download::Fetching { key }, Request::Fetch { entry: cached_data })
}

impl Download {
    /// Takes the reply to the pending call. The download ends with a result
    /// exactly when all three reads succeeded; missing bytes first cost the
    /// record, missing names or a missing catalog item do not.
    pub fn next<B>(self, reply: Reply<B>) -> (step: Progress<
        Download,
        Request<B>,
        Option<DownloadResult<B>>,
    >)
        ensures
            step.model() == self@.next(reply@),
            step matches Progress::Call(machine, _) ==> machine@.calls_left() < self@.calls_left(),
    {
        match (self, reply) {
            (Download::Fetching { key }, Reply::Fetched { blob: None, .. }) => Progress::Call(
                Download::Deleting,
                Request::DeleteEntry { key },
            ),
            (
                Download::Fetching { .. },
                Reply::Fetched { blob: Some(response), filename: Some(names), book: Some(book) },
            ) => Progress::Done(
                Some(
                    DownloadResult {
                        response,
                        filename: names.filename,
                        filename_ascii: names.filename_ascii,
                        caption: book.caption,
                    },
                ),
            ),
            _ => Progress::Done(None),
        }
    }
}

/// Model of a download with its repair cycle.
pub enum RepairModel {
    Locating { read: GetOrPopulateModel, key: KeyModel, retried: bool },
    Downloading { download: DownloadModel, key: KeyModel, retried: bool },
}

impl RepairModel {
    /// What the download path does with a reply: it reads the record,
    /// populating on a miss, and downloads through it; if that download gives
    /// nothing it reads and downloads once more, and whatever the second
    /// download gives is the outcome. A read that gives no record ends the
    /// path with nothing, on either attempt.
    pub open spec fn next<B>(self, reply: ReplyModel<B>) -> Progress<
        RepairModel,
        RequestModel<B>,
        Option<DownloadResultModel<B>>,
    > {
        match self {
            RepairModel::Locating { read, key, retried } => match read.next(reply) {
                Progress::Call(read, request) => Progress::Call(
                    RepairModel::Locating { read, key, retried },
                    request,
                ),
                Progress::Done(Some(entry)) => {
                    let (download, request) = DownloadModel::start::<B>(entry);
                    Progress::Call(RepairModel::Downloading { download, key, retried }, request)
                },
                Progress::Done(None) => Progress::Done(None),
            },
            RepairModel::Downloading { download, key, retried } => match download.next(reply) {
                Progress::Call(download, request) => Progress::Call(
                    RepairModel::Downloading { download, key, retried },
                    request,
                ),
                Progress::Done(Some(result)) => Progress::Done(Some(result)),
                Progress::Done(None) => if retried {
                    Progress::Done(None)
                } else {
                    let (read, request) = GetOrPopulateModel::start::<B>(key);
                    Progress::Call(RepairModel::Locating { read, key, retried: true }, request)
                },
            },
        }
    }

    /// An upper bound on the calls still to be answered: the path never
    /// repairs more than once.
    pub open spec fn calls_left(self) -> nat {
        match self {
            RepairModel::Locating { read, retried, .. } => read.calls_left() + 2 + if retried {
                0nat
            } else {
                7nat
            },
            RepairModel::Downloading { download, retried, .. } => download.calls_left() + if retried {
                0nat
            } else {
                7nat
            },
        }
    }

    /// The download path for `key`, about to consult the store.
    pub open spec fn start<B>(key: KeyModel) -> (RepairModel, RequestModel<B>) {
        let (read, request) = GetOrPopulateModel::start::<B>(key);
        (RepairModel::Locating { read, key, retried: false }, request)
    }
}

/// A download with its repair cycle, as the download path runs it.
#[derive(Debug, PartialEq, Eq)]
pub enum Repair {
    Locating { read: GetOrPopulate, key: CacheKey, retried: bool },
    Downloading { download: Download, key: CacheKey, retried: bool },
}

impl View for Repair {
    type V = RepairModel;

    open spec fn view(&self) -> RepairModel {
        match *self {
            Repair::Locating { read, key, retried } => RepairModel::Locating {
                read: read@,
                key: key@,
                retried,
            },
            Repair::Downloading { download, key, retried } => RepairModel::Downloading {
                download: download@,
                key: key@,
                retried,
            },
        }
    }
}

/// Starts the download path for `(object_id, object_type)`.
pub fn download_cached_file<B>(object_id: i32, object_type: String) -> (start: (
    Repair,
    Request<B>,
))
    ensures
        (start.0@, start.1@) == RepairModel::start::<B>(
            KeyModel { object_id, object_type: object_type@ },
        ),
{
    let key = CacheKey { object_id, object_type };
    let (read, request) = get_cached_file_or_cache(key.object_id, key.object_type.clone());
    (Repair::Locating { read, key, retried: false }, request)
}

impl Repair {
    /// Takes the reply to the pending call and goes on as the model says.
    /// Each step lowers the bound on the calls left, so the path ends after
    /// at most fourteen calls.
    pub fn next<B>(self, reply: Reply<B>) -> (step: Progress<
        Repair,
        Request<B>,
        Option<DownloadResult<B>>,
    >)
        ensures
            step.model() == self@.next(reply@),
            step matches Progress::Call(machine, _) ==> machine@.calls_left() < self@.calls_left(),
    {
        match self {
            Repair::Locating { read, key, retried } => match read.next(reply) {
                Progress::Call(read, request) => Progress::Call(
                    Repair::Locating { read, key, retried },
                    request,
                ),
                Progress::Done(Some(entry)) => {
                    let (download, request) = download_from_cache(entry);
                    Progress::Call(Repair::Downloading { download, key, retried }, request)
                },
                Progress::Done(None) => Progress::Done(None),
            },
            Repair::Downloading { download, key, retried } => match download.next(reply) {
                Progress::Call(download, request) => Progress::Call(
                    Repair::Downloading { download, key, retried },
                    request,
                ),
                Progress::Done(Some(result)) => Progress::Done(Some(result)),
                Progress::Done(None) => if retried {
                    Progress::Done(None)
                } else {
                    let (read, request) = get_cached_file_or_cache(
                        key.object_id,
                        key.object_type.clone(),
                    );
                    Progress::Call(Repair::Locating { read, key, retried: true }, request)
                },
            },
        }
    }
}

} // verus!
