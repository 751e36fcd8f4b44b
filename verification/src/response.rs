//! What the request paths decide once the orchestration has answered: who
//! may call, what a read returns, and the headers a download is sent with.

use vstd::prelude::*;
use vstd::string::StringExecFns;
use vstd::utf8::encode_utf8;
use crate::download::DownloadResult;
use crate::entry::CacheEntry;

verus! {

/// Whether a request may pass: it must carry an authorization header, and
/// the header must be the configured key, character for character.
pub fn auth(header: &Option<String>, api_key: &String) -> (granted: bool)
    ensures
        granted == (*header matches Some(given) && given@ == api_key@),
{
    match header {
        Some(given) => *given == *api_key,
        None => false,
    }
}

/// Query parameters accepted when a cached record is read.
#[derive(Clone, Copy, Debug, PartialEq, Eq)]
pub struct GetCachedFileQuery {
    /// Whether the caller wants a copy of the relay message rather than the
    /// record itself.
    pub copy: bool,
}

/// What a read answers with.
#[derive(Debug, PartialEq, Eq)]
pub enum ReadResponse {
    /// There is no record and none could be made.
    NoContent,
    /// The record itself.
    Entry(CacheEntry),
    /// A copy of the relay message behind the record, still to be made.
    Copy(CacheEntry),
}

/// Decides what a read answers with, given what the read that populates on
/// a miss ended with: nothing if it ended with nothing, else the record, or
/// a copy of what it points to if the query asks for one.
pub fn get_cached_file(found: Option<CacheEntry>, query: GetCachedFileQuery) -> (response:
    ReadResponse)
    ensures
        response == match found {
            None => ReadResponse::NoContent,
            Some(entry) => if query.copy {
                ReadResponse::Copy(entry)
            } else {
                ReadResponse::Entry(entry)
            },
        },
{
    match found {
        None => ReadResponse::NoContent,
        Some(entry) => if query.copy {
            ReadResponse::Copy(entry)
        } else {
            ReadResponse::Entry(entry)
        },
    }
}

/// The standard base64 text, padded, of a sequence of bytes.
pub uninterp spec fn base64_standard(bytes: Seq<u8>) -> Seq<char>;

/// Calls `base64::Engine::encode` on the engine
/// `base64::engine::general_purpose::STANDARD`. The result is the padded
/// base64 text of the bytes in the standard alphabet; it is not proved here.
/// The call panics when the length of that text does not fit in `usize`,
/// which a slice no longer than `isize::MAX` never causes.
#[verifier::external_body]
fn encode_standard(bytes: &[u8]) -> (text: String)
    requires
        bytes@.len() <= isize::MAX,
    ensures
        text@ == base64_standard(bytes@),
{
    base64::Engine::encode(&base64::engine::general_purpose::STANDARD, bytes)
}

/// Model of the headers of a download.
pub struct DownloadHeadersModel {
    pub content_disposition: Seq<char>,
    pub filename_b64: Seq<char>,
    pub caption_b64: Seq<char>,
}

/// The values of the three headers a download is sent with: the content
/// disposition, and the file name and the caption in base64.
#[derive(Debug, PartialEq, Eq)]
pub struct DownloadHeaders {
    pub content_disposition: String,
    pub filename_b64: String,
    pub caption_b64: String,
}

impl View for DownloadHeaders {
    type V = DownloadHeadersModel;

    open spec fn view(&self) -> DownloadHeadersModel {
        DownloadHeadersModel {
            content_disposition: self.content_disposition@,
            filename_b64: self.filename_b64@,
            caption_b64: self.caption_b64@,
        }
    }
}

/// The headers that belong to a file with these names and this caption.
pub open spec fn headers_of(
    filename: Seq<char>,
    filename_ascii: Seq<char>,
    caption: Seq<char>,
) -> DownloadHeadersModel {
    DownloadHeadersModel {
        content_disposition: "attachment; filename="@ + filename_ascii,
        filename_b64: base64_standard(encode_utf8(filename)),
        caption_b64: base64_standard(encode_utf8(caption)),
    }
}

/// Computes the headers of a download: the ASCII name goes into the content
/// disposition as it is, the full name and the caption are sent as the
/// base64 of their UTF-8 bytes. Neither text may be longer than `isize::MAX`
/// bytes.
pub fn download_headers<B>(result: &DownloadResult<B>) -> (headers: DownloadHeaders)
    requires
        encode_utf8(result.filename@).len() <= isize::MAX,
        encode_utf8(result.caption@).len() <= isize::MAX,
    ensures
        headers@ == headers_of(result.filename@, result.filename_ascii@, result.caption@),
{
    let content_disposition = String::from_str("attachment; filename=").concat(
        result.filename_ascii.as_str(),
    );
    let filename_b64 = encode_standard(result.filename.as_str().as_bytes());
    let caption_b64 = encode_standard(result.caption.as_str().as_bytes());
    DownloadHeaders { content_disposition, filename_b64, caption_b64 }
}

} // verus!
