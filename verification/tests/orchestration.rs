use std::collections::HashMap;

use cache_gateway::backfill::{get_books_for_update, pending_pairs, start_update_cache};
use cache_gateway::catalog::{Book, FilenameData, Page};
use cache_gateway::download::{download_cached_file, download_from_cache, DownloadResult};
use cache_gateway::entry::{CacheEntry, CacheKey, Pointer};
use cache_gateway::invalidate::delete_cached_file;
use cache_gateway::populate::{cache_file, get_cached_file_or_cache};
use cache_gateway::protocol::{Failure, Progress, Reply, Request, PAGE_SIZE};

type Blob = Vec<u8>;

/// Collaborators kept in memory, with switches to make each of them fail.
struct Fake {
    store: HashMap<(i32, String), Pointer>,
    store_up: bool,
    books: Vec<Book>,
    catalog_up: bool,
    failing_page: Option<u32>,
    origin_up: bool,
    names_up: bool,
    relay_up: bool,
    blobs: HashMap<(i64, i64), Blob>,
    next_message: i64,
    calls: Vec<&'static str>,
    looked_up: Vec<(i32, String)>,
}

fn book(id: i32, types: &[&str]) -> Book {
    Book {
        id,
        source_id: 7,
        caption: format!("caption of {id}"),
        available_types: types.iter().map(|t| t.to_string()).collect(),
    }
}

fn entry(object_id: i32, object_type: &str, chat_id: i64, message_id: i64) -> CacheEntry {
    CacheEntry { object_id, object_type: object_type.to_string(), message_id, chat_id }
}

impl Fake {
    fn with_books(books: Vec<Book>) -> Fake {
        Fake {
            store: HashMap::new(),
            store_up: true,
            books,
            catalog_up: true,
            failing_page: None,
            origin_up: true,
            names_up: true,
            relay_up: true,
            blobs: HashMap::new(),
            next_message: 100,
            calls: Vec::new(),
            looked_up: Vec::new(),
        }
    }

    /// Puts a record into the store whose bytes the relay holds.
    fn seed(&mut self, object_id: i32, object_type: &str) -> CacheEntry {
        let message_id = self.next_message;
        self.next_message += 1;
        self.blobs.insert((1, message_id), format!("{object_id}.{object_type}").into_bytes());
        self.store.insert(
            (object_id, object_type.to_string()),
            Pointer { chat_id: 1, message_id },
        );
        entry(object_id, object_type, 1, message_id)
    }

    fn find(&self, object_id: i32, object_type: &str) -> Option<CacheEntry> {
        self.store
            .get(&(object_id, object_type.to_string()))
            .map(|p| entry(object_id, object_type, p.chat_id, p.message_id))
    }

    fn get_book(&self, object_id: i32) -> Option<Book> {
        if !self.catalog_up {
            return None;
        }
        self.books.iter().find(|b| b.id == object_id).cloned()
    }

    fn count(&self, call: &str) -> usize {
        self.calls.iter().filter(|c| **c == call).count()
    }

    fn perform(&mut self, request: Request<Blob>) -> Reply<Blob> {
        match request {
            Request::FindEntry { key } => {
                self.calls.push("find");
                self.looked_up.push((key.object_id, key.object_type.clone()));
                if !self.store_up {
                    return Reply::<Blob>::Failed(Failure::Transport);
                }
                Reply::<Blob>::Entry(self.find(key.object_id, &key.object_type))
            }
            Request::CreateEntry { entry } => {
                self.calls.push("create");
                let key = (entry.object_id, entry.object_type.clone());
                if self.store.contains_key(&key) {
                    return Reply::<Blob>::Failed(Failure::Conflict);
                }
                self.store.insert(
                    key,
                    Pointer { chat_id: entry.chat_id, message_id: entry.message_id },
                );
                Reply::<Blob>::Created(entry)
            }
            Request::DeleteEntry { key } => {
                self.calls.push("delete");
                let removed = self.find(key.object_id, &key.object_type);
                self.store.remove(&(key.object_id, key.object_type));
                Reply::<Blob>::Deleted(removed)
            }
            Request::GetBook { object_id } => {
                self.calls.push("get_book");
                match self.get_book(object_id) {
                    Some(book) => Reply::<Blob>::Book(book),
                    None => Reply::<Blob>::Failed(Failure::NotFound),
                }
            }
            Request::FetchContent { source_id, key } => {
                self.calls.push("fetch_content");
                if !self.origin_up {
                    return Reply::<Blob>::Failed(Failure::Transport);
                }
                Reply::<Blob>::Content(
                    format!("{source_id}/{}/{}", key.object_id, key.object_type).into_bytes(),
                )
            }
            Request::Upload { content, caption: _ } => {
                self.calls.push("upload");
                if !self.relay_up {
                    return Reply::<Blob>::Failed(Failure::Transport);
                }
                let message_id = self.next_message;
                self.next_message += 1;
                self.blobs.insert((1, message_id), content);
                Reply::<Blob>::Uploaded(Pointer { chat_id: 1, message_id })
            }
            Request::Fetch { entry } => {
                self.calls.push("fetch");
                let filename = if self.names_up {
                    Some(FilenameData {
                        filename: format!("книга {}.{}", entry.object_id, entry.object_type),
                        filename_ascii: format!("kniga_{}.{}", entry.object_id, entry.object_type),
                    })
                } else {
                    None
                };
                Reply::<Blob>::Fetched {
                    blob: self.blobs.get(&(entry.chat_id, entry.message_id)).cloned(),
                    filename,
                    book: self.get_book(entry.object_id),
                }
            }
            Request::ListPage { page, page_size, uploaded_gte, uploaded_lte } => {
                self.calls.push("list_page");
                assert_eq!(page_size, 50);
                assert_eq!(uploaded_gte, "");
                assert_eq!(uploaded_lte, "");
                if !self.catalog_up || self.failing_page == Some(page) {
                    return Reply::<Blob>::Failed(Failure::Transport);
                }
                let size = page_size as usize;
                let from = ((page as usize - 1) * size).min(self.books.len());
                let to = (from + size).min(self.books.len());
                Reply::<Blob>::Page(Page {
                    items: self.books[from..to].to_vec(),
                    pages: self.books.len().div_ceil(size) as u32,
                })
            }
        }
    }

    fn populate(&mut self, object_id: i32, object_type: &str) -> Option<CacheEntry> {
        let (mut machine, mut request) = cache_file::<Blob>(object_id, object_type.to_string());
        loop {
            let reply = self.perform(request);
            match machine.next(reply) {
                Progress::Call(m, r) => {
                    machine = m;
                    request = r;
                }
                Progress::Done(outcome) => return outcome,
            }
        }
    }

    fn get_or_populate(&mut self, object_id: i32, object_type: &str) -> Option<CacheEntry> {
        let (mut machine, mut request) =
            get_cached_file_or_cache::<Blob>(object_id, object_type.to_string());
        loop {
            let reply = self.perform(request);
            match machine.next(reply) {
                Progress::Call(m, r) => {
                    machine = m;
                    request = r;
                }
                Progress::Done(outcome) => return outcome,
            }
        }
    }

    fn download(&mut self, cached: CacheEntry) -> Option<DownloadResult<Blob>> {
        let (mut machine, mut request) = download_from_cache::<Blob>(cached);
        loop {
            let reply = self.perform(request);
            match machine.next(reply) {
                Progress::Call(m, r) => {
                    machine = m;
                    request = r;
                }
                Progress::Done(outcome) => return outcome,
            }
        }
    }

    fn download_with_repair(
        &mut self,
        object_id: i32,
        object_type: &str,
    ) -> Option<DownloadResult<Blob>> {
        let (mut machine, mut request) =
            download_cached_file::<Blob>(object_id, object_type.to_string());
        loop {
            let reply = self.perform(request);
            match machine.next(reply) {
                Progress::Call(m, r) => {
                    machine = m;
                    request = r;
                }
                Progress::Done(outcome) => return outcome,
            }
        }
    }

    fn invalidate(&mut self, object_id: i32, object_type: &str) -> Option<CacheEntry> {
        let (machine, request) = delete_cached_file::<Blob>(object_id, object_type.to_string());
        let reply = self.perform(request);
        match machine.next(reply) {
            Progress::Call(..) => panic!("an invalidation makes a single call"),
            Progress::Done(outcome) => outcome,
        }
    }

    fn list_all_items(&mut self) -> Result<Vec<Book>, Failure> {
        let (mut machine, mut request) = get_books_for_update::<Blob>();
        loop {
            let reply = self.perform(request);
            match machine.next(reply) {
                Progress::Call(m, r) => {
                    machine = m;
                    request = r;
                }
                Progress::Done(outcome) => return outcome,
            }
        }
    }

    fn reconcile(&mut self) {
        let (mut machine, mut request) = start_update_cache::<Blob>();
        loop {
            let reply = self.perform(request);
            match machine.next(reply) {
                Progress::Call(m, r) => {
                    machine = m;
                    request = r;
                }
                Progress::Done(()) => return,
            }
        }
    }
}

// ---- populate ----

#[test]
fn populate_makes_the_four_calls_in_order() {
    let (machine, request) = cache_file::<Blob>(42, "pdf".to_string());
    assert_eq!(request, Request::GetBook { object_id: 42 });

    let step = machine.next(Reply::<Blob>::Book(Book {
        id: 42,
        source_id: 3,
        caption: "War and Peace".to_string(),
        available_types: vec!["pdf".to_string()],
    }));
    let Progress::Call(machine, request) = step else { panic!("population ended early") };
    assert_eq!(
        request,
        Request::FetchContent {
            source_id: 3,
            key: CacheKey { object_id: 42, object_type: "pdf".to_string() },
        }
    );

    let step = machine.next(Reply::<Blob>::Content(vec![1u8, 2, 3]));
    let Progress::Call(machine, request) = step else { panic!("population ended early") };
    assert_eq!(
        request,
        Request::Upload { content: vec![1u8, 2, 3], caption: "War and Peace".to_string() }
    );

    let step = machine.next(Reply::<Blob>::Uploaded(Pointer { chat_id: 5, message_id: 9 }));
    let Progress::Call(machine, request) = step else { panic!("population ended early") };
    assert_eq!(request, Request::CreateEntry { entry: entry(42, "pdf", 5, 9) });

    let step = machine.next(Reply::<Blob>::Created(entry(42, "pdf", 5, 9)));
    assert_eq!(step, Progress::Done(Some(entry(42, "pdf", 5, 9))));
}

#[test]
fn populate_uses_the_requested_id_not_the_one_in_the_catalog_reply() {
    let (machine, _) = cache_file::<Blob>(42, "pdf".to_string());
    let step = machine.next(Reply::<Blob>::Book(book(43, &["pdf"])));
    let Progress::Call(_, request) = step else { panic!("population ended early") };
    assert_eq!(
        request,
        Request::FetchContent {
            source_id: 7,
            key: CacheKey { object_id: 42, object_type: "pdf".to_string() },
        }
    );
}

#[test]
fn populate_is_absent_when_the_catalog_fails() {
    let mut env = Fake::with_books(vec![]);
    assert_eq!(env.populate(42, "pdf"), None);
    assert!(env.store.is_empty());
    assert_eq!(env.calls, vec!["get_book"]);
}

#[test]
fn populate_is_absent_when_the_origin_fails() {
    let mut env = Fake::with_books(vec![book(42, &["pdf"])]);
    env.origin_up = false;
    assert_eq!(env.populate(42, "pdf"), None);
    assert!(env.store.is_empty());
    assert_eq!(env.calls, vec!["get_book", "fetch_content"]);
}

#[test]
fn populate_is_absent_when_the_upload_fails() {
    let mut env = Fake::with_books(vec![book(42, &["pdf"])]);
    env.relay_up = false;
    assert_eq!(env.populate(42, "pdf"), None);
    assert!(env.store.is_empty());
    assert_eq!(env.calls, vec!["get_book", "fetch_content", "upload"]);
}

#[test]
fn populate_is_absent_on_a_create_conflict() {
    let mut env = Fake::with_books(vec![book(42, &["pdf"])]);
    let existing = env.seed(42, "pdf");
    assert_eq!(env.populate(42, "pdf"), None);
    assert_eq!(env.find(42, "pdf"), Some(existing));
    assert_eq!(env.calls, vec!["get_book", "fetch_content", "upload", "create"]);
}

#[test]
fn populate_takes_a_stray_reply_for_a_failure() {
    let (machine, _) = cache_file::<Blob>(42, "pdf".to_string());
    assert_eq!(machine.next(Reply::<Blob>::Deleted(None)), Progress::Done(None));
    let (machine, _) = cache_file::<Blob>(42, "pdf".to_string());
    assert_eq!(machine.next(Reply::<Blob>::Content(vec![0u8])), Progress::Done(None));
}

// ---- get or populate ----

#[test]
fn get_or_populate_then_find_gives_the_same_entry() {
    let mut env = Fake::with_books(vec![book(42, &["pdf", "epub"])]);
    let made = env.get_or_populate(42, "pdf");
    assert_eq!(made, Some(entry(42, "pdf", 1, 100)));
    assert_eq!(env.find(42, "pdf"), made);
    assert_eq!(env.get_or_populate(42, "pdf"), made);
}

#[test]
fn get_or_populate_twice_keeps_a_single_entry() {
    let mut env = Fake::with_books(vec![book(42, &["pdf"])]);
    let first = env.get_or_populate(42, "pdf");
    let second = env.get_or_populate(42, "pdf");
    assert!(first.is_some());
    assert_eq!(first, second);
    assert_eq!(env.store.len(), 1);
    assert_eq!(env.count("create"), 1);
    assert_eq!(env.count("upload"), 1);
}

#[test]
fn get_or_populate_on_a_cached_key_asks_the_store_only() {
    let mut env = Fake::with_books(vec![book(42, &["pdf"])]);
    let stored = env.seed(42, "pdf");
    assert_eq!(env.get_or_populate(42, "pdf"), Some(stored));
    assert_eq!(env.calls, vec!["find"]);
}

#[test]
fn get_or_populate_starts_with_a_lookup_of_the_key() {
    let (machine, request) = get_cached_file_or_cache::<Blob>(42, "pdf".to_string());
    assert_eq!(
        request,
        Request::FindEntry { key: CacheKey { object_id: 42, object_type: "pdf".to_string() } }
    );
    let step = machine.next(Reply::<Blob>::Entry(None));
    let Progress::Call(_, request) = step else { panic!("a miss must populate") };
    assert_eq!(request, Request::GetBook { object_id: 42 });
}

#[test]
fn get_or_populate_is_absent_when_the_lookup_fails() {
    let mut env = Fake::with_books(vec![book(42, &["pdf"])]);
    env.store_up = false;
    assert_eq!(env.get_or_populate(42, "pdf"), None);
    assert_eq!(env.calls, vec!["find"]);
}

#[test]
fn get_or_populate_is_absent_when_the_origin_is_down() {
    let mut env = Fake::with_books(vec![book(42, &["pdf"])]);
    env.origin_up = false;
    assert_eq!(env.get_or_populate(42, "pdf"), None);
    assert_eq!(env.find(42, "pdf"), None);
}

// ---- download ----

#[test]
fn download_joins_bytes_names_and_caption() {
    let mut env = Fake::with_books(vec![book(42, &["pdf"])]);
    let stored = env.seed(42, "pdf");
    let result = env.download(stored.clone());
    assert_eq!(
        result,
        Some(DownloadResult {
            response: b"42.pdf".to_vec(),
            filename: "книга 42.pdf".to_string(),
            filename_ascii: "kniga_42.pdf".to_string(),
            caption: "caption of 42".to_string(),
        })
    );
    assert_eq!(env.find(42, "pdf"), Some(stored));
    assert_eq!(env.calls, vec!["fetch"]);
}

#[test]
fn download_asks_for_the_three_reads_of_the_entry() {
    let (_, request) = download_from_cache::<Blob>(entry(42, "pdf", 5, 9));
    assert_eq!(request, Request::Fetch { entry: entry(42, "pdf", 5, 9) });
}

#[test]
fn download_deletes_the_entry_when_the_bytes_are_gone() {
    let mut env = Fake::with_books(vec![book(42, &["pdf"])]);
    let stored = env.seed(42, "pdf");
    let other = env.seed(42, "epub");
    env.blobs.remove(&(stored.chat_id, stored.message_id));
    assert_eq!(env.download(stored), None);
    assert_eq!(env.find(42, "pdf"), None);
    assert_eq!(env.find(42, "epub"), Some(other));
    assert_eq!(env.calls, vec!["fetch", "delete"]);
}

#[test]
fn download_deletes_a_stale_entry_even_if_the_other_reads_fail_too() {
    let (machine, _) = download_from_cache::<Blob>(entry(42, "pdf", 5, 9));
    let step = machine.next(Reply::<Blob>::Fetched { blob: None, filename: None, book: None });
    let Progress::Call(machine, request) = step else { panic!("a stale pointer must be removed") };
    assert_eq!(
        request,
        Request::DeleteEntry { key: CacheKey { object_id: 42, object_type: "pdf".to_string() } }
    );
    assert_eq!(machine.next(Reply::<Blob>::Deleted(None)), Progress::Done(None));
}

#[test]
fn download_keeps_the_entry_when_the_names_fail() {
    let mut env = Fake::with_books(vec![book(42, &["pdf"])]);
    let stored = env.seed(42, "pdf");
    env.names_up = false;
    assert_eq!(env.download(stored.clone()), None);
    assert_eq!(env.find(42, "pdf"), Some(stored));
    assert_eq!(env.calls, vec!["fetch"]);
}

#[test]
fn download_keeps_the_entry_when_the_caption_fails() {
    let mut env = Fake::with_books(vec![book(42, &["pdf"])]);
    let stored = env.seed(42, "pdf");
    env.catalog_up = false;
    assert_eq!(env.download(stored.clone()), None);
    assert_eq!(env.find(42, "pdf"), Some(stored));
    assert_eq!(env.calls, vec!["fetch"]);
}

// ---- repair ----

#[test]
fn repair_replaces_a_stale_pointer_and_downloads() {
    let mut env = Fake::with_books(vec![book(42, &["pdf"])]);
    let stale = env.seed(42, "pdf");
    env.blobs.remove(&(stale.chat_id, stale.message_id));

    let result = env.download_with_repair(42, "pdf");

    let result = result.expect("the repair cycle must heal a stale pointer");
    assert_eq!(result.response, b"7/42/pdf".to_vec());
    assert_eq!(result.caption, "caption of 42");
    let fresh = env.find(42, "pdf").expect("a fresh entry must exist");
    assert_ne!(fresh.pointer(), stale.pointer());
    assert_eq!(
        env.calls,
        vec![
            "find", "fetch", "delete", "find", "get_book", "fetch_content", "upload", "create",
            "fetch",
        ]
    );
}

#[test]
fn repair_serves_a_healthy_entry_at_the_first_attempt() {
    let mut env = Fake::with_books(vec![book(42, &["pdf"])]);
    let stored = env.seed(42, "pdf");
    let result = env.download_with_repair(42, "pdf");
    assert_eq!(result.map(|r| r.response), Some(b"42.pdf".to_vec()));
    assert_eq!(env.find(42, "pdf"), Some(stored));
    assert_eq!(env.calls, vec!["find", "fetch"]);
}

#[test]
fn repair_populates_an_uncached_key_and_downloads() {
    let mut env = Fake::with_books(vec![book(42, &["pdf"])]);
    let result = env.download_with_repair(42, "pdf");
    assert_eq!(result.map(|r| r.filename_ascii), Some("kniga_42.pdf".to_string()));
    assert_eq!(env.find(42, "pdf"), Some(entry(42, "pdf", 1, 100)));
}

#[test]
fn repair_is_absent_when_the_origin_is_unreachable_on_both_attempts() {
    let mut env = Fake::with_books(vec![book(42, &["pdf"])]);
    let stale = env.seed(42, "pdf");
    env.blobs.remove(&(stale.chat_id, stale.message_id));
    env.origin_up = false;
    assert_eq!(env.download_with_repair(42, "pdf"), None);
    assert_eq!(env.find(42, "pdf"), None);
    assert_eq!(env.calls, vec!["find", "fetch", "delete", "find", "get_book", "fetch_content"]);
}

#[test]
fn repair_is_absent_for_an_uncached_key_with_the_catalog_down() {
    let mut env = Fake::with_books(vec![book(42, &["pdf"])]);
    env.catalog_up = false;
    assert_eq!(env.download_with_repair(42, "pdf"), None);
    assert_eq!(env.calls, vec!["find", "get_book"]);
}

#[test]
fn repair_tries_a_failing_download_exactly_twice() {
    let mut env = Fake::with_books(vec![book(42, &["pdf"])]);
    let stored = env.seed(42, "pdf");
    env.names_up = false;
    assert_eq!(env.download_with_repair(42, "pdf"), None);
    assert_eq!(env.find(42, "pdf"), Some(stored));
    assert_eq!(env.calls, vec!["find", "fetch", "find", "fetch"]);
}

#[test]
fn repair_never_makes_more_than_fourteen_calls() {
    // Every upload lands on a message the relay has already lost.
    let mut env = Fake::with_books(vec![book(42, &["pdf"])]);
    let (mut machine, mut request) = download_cached_file::<Blob>(42, "pdf".to_string());
    let outcome = loop {
        let reply = env.perform(request);
        env.blobs.clear();
        match machine.next(reply) {
            Progress::Call(m, r) => {
                machine = m;
                request = r;
            }
            Progress::Done(outcome) => break outcome,
        }
    };
    assert_eq!(outcome, None);
    assert_eq!(env.calls.len(), 14);
    assert_eq!(env.count("upload"), 2);
    assert_eq!(env.find(42, "pdf"), None);
}

// ---- invalidation ----

#[test]
fn invalidation_removes_the_entry_and_returns_it() {
    let mut env = Fake::with_books(vec![book(42, &["pdf"])]);
    let stored = env.seed(42, "pdf");
    let other = env.seed(42, "epub");
    assert_eq!(env.invalidate(42, "pdf"), Some(stored));
    assert_eq!(env.find(42, "pdf"), None);
    assert_eq!(env.find(42, "epub"), Some(other));
    assert_eq!(env.calls, vec!["delete"]);
}

#[test]
fn invalidation_of_a_missing_entry_is_no_error() {
    let mut env = Fake::with_books(vec![]);
    assert_eq!(env.invalidate(42, "pdf"), None);
    assert_eq!(env.invalidate(42, "pdf"), None);
    assert!(env.store.is_empty());
}

#[test]
fn invalidation_asks_the_store_to_delete_the_key() {
    let (machine, request) = delete_cached_file::<Blob>(42, "pdf".to_string());
    assert_eq!(
        request,
        Request::DeleteEntry { key: CacheKey { object_id: 42, object_type: "pdf".to_string() } }
    );
    assert_eq!(machine.next(Reply::<Blob>::Failed(Failure::Transport)), Progress::Done(None));
}

#[test]
fn invalidation_makes_the_next_read_populate_again() {
    let mut env = Fake::with_books(vec![book(42, &["pdf"])]);
    let first = env.get_or_populate(42, "pdf").expect("a healthy origin populates");
    env.invalidate(42, "pdf");
    env.calls.clear();
    let second = env.get_or_populate(42, "pdf").expect("a healthy origin populates");
    assert_ne!(first.pointer(), second.pointer());
    assert_eq!(env.calls, vec!["find", "get_book", "fetch_content", "upload", "create"]);
}

// ---- listing ----

#[test]
fn listing_of_120_items_reads_three_pages_in_order() {
    let books: Vec<Book> = (1..=120).map(|id| book(id, &["pdf"])).collect();
    let mut env = Fake::with_books(books.clone());
    let listed = env.list_all_items();
    assert_eq!(env.calls, vec!["list_page", "list_page", "list_page"]);
    let listed = listed.expect("a healthy catalog lists");
    assert_eq!(listed.len(), 120);
    assert_eq!(listed, books);
}

#[test]
fn listing_asks_for_pages_of_fifty_without_date_bounds() {
    assert_eq!(PAGE_SIZE, 50);
    let (machine, request) = get_books_for_update::<Blob>();
    assert_eq!(
        request,
        Request::ListPage {
            page: 1,
            page_size: 50,
            uploaded_gte: String::new(),
            uploaded_lte: String::new(),
        }
    );
    let step = machine.next(Reply::<Blob>::Page(Page { items: vec![book(1, &[])], pages: 2 }));
    let Progress::Call(machine, request) = step else { panic!("page two is due") };
    assert_eq!(
        request,
        Request::ListPage {
            page: 2,
            page_size: 50,
            uploaded_gte: String::new(),
            uploaded_lte: String::new(),
        }
    );
    let step = machine.next(Reply::<Blob>::Page(Page { items: vec![book(2, &[])], pages: 9 }));
    assert_eq!(step, Progress::Done(Ok(vec![book(1, &[]), book(2, &[])])));
}

#[test]
fn listing_of_an_empty_catalog_reads_one_page() {
    let mut env = Fake::with_books(vec![]);
    assert_eq!(env.list_all_items(), Ok(vec![]));
    assert_eq!(env.calls, vec!["list_page"]);
}

#[test]
fn listing_of_a_single_page_reads_one_page() {
    let books: Vec<Book> = (1..=50).map(|id| book(id, &["fb2"])).collect();
    let mut env = Fake::with_books(books.clone());
    assert_eq!(env.list_all_items(), Ok(books));
    assert_eq!(env.calls, vec!["list_page"]);
}

#[test]
fn listing_surfaces_the_failure_of_a_later_page() {
    let books: Vec<Book> = (1..=120).map(|id| book(id, &["pdf"])).collect();
    let mut env = Fake::with_books(books);
    env.failing_page = Some(2);
    assert_eq!(env.list_all_items(), Err(Failure::Transport));
    assert_eq!(env.calls, vec!["list_page", "list_page"]);
}

#[test]
fn listing_surfaces_the_failure_of_the_first_page() {
    let (machine, _) = get_books_for_update::<Blob>();
    assert_eq!(
        machine.next(Reply::<Blob>::Failed(Failure::NotFound)),
        Progress::Done(Err(Failure::NotFound))
    );
    let (machine, _) = get_books_for_update::<Blob>();
    assert_eq!(machine.next(Reply::<Blob>::Deleted(None)), Progress::Done(Err(Failure::Transport)));
}

#[test]
fn listing_reaches_the_last_page_number_without_overflow() {
    let (machine, _) = get_books_for_update::<Blob>();
    let step = machine.next(Reply::<Blob>::Page(Page { items: vec![], pages: u32::MAX }));
    let Progress::Call(machine, _) = step else { panic!("page two is due") };
    let cache_gateway::backfill::Listing::Rest { collected, page_count, .. } = machine else {
        panic!("the listing is past page one")
    };
    let machine = cache_gateway::backfill::Listing::Rest {
        collected,
        current: u32::MAX - 1,
        page_count,
    };
    let step = machine.next(Reply::<Blob>::Page(Page { items: vec![], pages: u32::MAX }));
    let Progress::Call(machine, request) = step else { panic!("the last page is due") };
    assert!(matches!(request, Request::ListPage { page: u32::MAX, .. }));
    let step = machine.next(Reply::<Blob>::Page(Page { items: vec![], pages: u32::MAX }));
    assert_eq!(step, Progress::Done(Ok(vec![])));
}

// ---- backfill ----

#[test]
fn pending_pairs_lists_every_representation_of_every_item_in_order() {
    let books = vec![book(1, &["pdf", "epub"]), book(2, &[]), book(3, &["fb2"])];
    let pairs = pending_pairs(&books);
    assert_eq!(
        pairs,
        vec![
            CacheKey { object_id: 1, object_type: "pdf".to_string() },
            CacheKey { object_id: 1, object_type: "epub".to_string() },
            CacheKey { object_id: 3, object_type: "fb2".to_string() },
        ]
    );
    assert_eq!(pending_pairs(&vec![]), vec![]);
}

#[test]
fn reconcile_creates_both_entries_of_an_item_with_two_types() {
    let mut env = Fake::with_books(vec![book(42, &["pdf", "epub"])]);
    env.reconcile();
    assert_eq!(env.store.len(), 2);
    assert_eq!(env.find(42, "pdf"), Some(entry(42, "pdf", 1, 100)));
    assert_eq!(env.find(42, "epub"), Some(entry(42, "epub", 1, 101)));
}

#[test]
fn reconcile_leaves_existing_entries_alone_and_fills_the_rest() {
    let mut env =
        Fake::with_books(vec![book(1, &["pdf", "epub"]), book(2, &["pdf"]), book(3, &[])]);
    let kept = env.seed(1, "epub");
    let foreign = env.seed(99, "djvu");
    env.reconcile();
    assert_eq!(env.find(1, "epub"), Some(kept));
    assert_eq!(env.find(99, "djvu"), Some(foreign));
    assert!(env.find(1, "pdf").is_some());
    assert!(env.find(2, "pdf").is_some());
    assert_eq!(env.store.len(), 4);
    assert_eq!(env.count("find"), 3);
    assert_eq!(env.count("create"), 2);
    assert_eq!(env.count("delete"), 0);
}

#[test]
fn reconcile_looks_every_listed_pair_up_in_sweep_order() {
    let mut env = Fake::with_books(vec![book(2, &["pdf", "epub"]), book(1, &["fb2", "pdf"])]);
    env.seed(2, "epub");
    env.reconcile();
    assert_eq!(
        env.looked_up,
        vec![
            (2, "pdf".to_string()),
            (2, "epub".to_string()),
            (1, "fb2".to_string()),
            (1, "pdf".to_string()),
        ]
    );
    assert_eq!(
        env.calls,
        vec![
            "list_page", "find", "get_book", "fetch_content", "upload", "create", "find", "find",
            "get_book", "fetch_content", "upload", "create", "find", "get_book", "fetch_content",
            "upload", "create",
        ]
    );
}

#[test]
fn reconcile_goes_on_after_a_population_that_fails() {
    let mut env = Fake::with_books(vec![book(1, &["pdf"]), book(2, &["pdf"])]);
    let (mut machine, mut request) = start_update_cache::<Blob>();
    loop {
        // The origin is down for item 1 only.
        env.origin_up = !matches!(&request, Request::FetchContent { key, .. } if key.object_id == 1);
        let reply = env.perform(request);
        match machine.next(reply) {
            Progress::Call(m, r) => {
                machine = m;
                request = r;
            }
            Progress::Done(()) => break,
        }
    }
    assert_eq!(env.find(1, "pdf"), None);
    assert!(env.find(2, "pdf").is_some());
}

#[test]
fn reconcile_skips_a_pair_whose_lookup_fails() {
    let mut env = Fake::with_books(vec![book(1, &["pdf"]), book(2, &["pdf"])]);
    env.store_up = false;
    env.reconcile();
    assert!(env.store.is_empty());
    assert_eq!(env.calls, vec!["list_page", "find", "find"]);
}

#[test]
fn reconcile_stops_when_the_listing_fails() {
    let mut env = Fake::with_books(vec![book(1, &["pdf"])]);
    env.catalog_up = false;
    env.reconcile();
    assert!(env.store.is_empty());
    assert_eq!(env.calls, vec!["list_page"]);
}

#[test]
fn reconcile_of_an_empty_catalog_touches_nothing() {
    let mut env = Fake::with_books(vec![]);
    let kept = env.seed(5, "pdf");
    env.reconcile();
    assert_eq!(env.find(5, "pdf"), Some(kept));
    assert_eq!(env.calls, vec!["list_page"]);
}

#[test]
fn reconcile_populates_a_pair_listed_twice_only_once() {
    let mut env = Fake::with_books(vec![book(1, &["pdf", "pdf"]), book(1, &["pdf"])]);
    env.reconcile();
    assert_eq!(env.store.len(), 1);
    assert_eq!(env.count("find"), 3);
    assert_eq!(env.count("upload"), 1);
}

#[test]
fn reconcile_sweeps_a_catalog_of_several_pages() {
    let books: Vec<Book> = (1..=120).map(|id| book(id, &["pdf"])).collect();
    let mut env = Fake::with_books(books);
    env.reconcile();
    assert_eq!(env.count("list_page"), 3);
    assert_eq!(env.store.len(), 120);
    assert!(env.find(120, "pdf").is_some());
}

// ---- records ----

#[test]
fn entry_is_its_key_and_its_pointer() {
    let made = CacheEntry::new(
        CacheKey { object_id: 42, object_type: "pdf".to_string() },
        Pointer { chat_id: 5, message_id: 9 },
    );
    assert_eq!(made, entry(42, "pdf", 5, 9));
    assert_eq!(made.key(), CacheKey { object_id: 42, object_type: "pdf".to_string() });
    assert_eq!(made.pointer(), Pointer { chat_id: 5, message_id: 9 });
    assert_eq!(made.clone(), made);
    assert_eq!(made.key().clone(), made.key());
}
