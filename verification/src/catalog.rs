//! What the gateway reads from the content catalog and the retrieval adapter.

use vstd::prelude::*;

verus! {

/// Model of a catalog item.
pub struct BookModel {
    pub id: i32,
    pub source_id: i32,
    pub caption: Seq<char>,
    pub available_types: Seq<Seq<char>>,
}

/// A catalog item, reduced to what the gateway reads of it: its id, the id of
/// the source that selects how its bytes are retrieved, the caption shown
/// with it, and the representations it can be cached under.
#[derive(Debug, PartialEq, Eq)]
pub struct Book {
    pub id: i32,
    pub source_id: i32,
    pub caption: String,
    pub available_types: Vec<String>,
}

impl View for Book {
    type V = BookModel;

    open spec fn view(&self) -> BookModel {
        BookModel {
            id: self.id,
            source_id: self.source_id,
            caption: self.caption@,
            available_types: self.available_types.deep_view(),
        }
    }
}

impl DeepView for Book {
    type V = BookModel;

    open spec fn deep_view(&self) -> BookModel {
        self@
    }
}

impl Clone for Book {
    fn clone(&self) -> (copy: Book)
        ensures
            copy@ == self@,
    {
        let available_types = self.available_types.clone();
        assert(available_types.deep_view() =~= self.available_types.deep_view());
        Book {
            id: self.id,
            source_id: self.source_id,
            caption: self.caption.clone(),
            available_types,
        }
    }
}

/// Model of one page of the catalog.
pub struct PageModel {
    pub items: Seq<BookModel>,
    pub pages: u32,
}

/// One page of the catalog listing, with the number of pages the whole
/// listing has.
#[derive(Debug, PartialEq, Eq)]
pub struct Page {
    pub items: Vec<Book>,
    pub pages: u32,
}

impl View for Page {
    type V = PageModel;

    open spec fn view(&self) -> PageModel {
        PageModel { items: self.items.deep_view(), pages: self.pages }
    }
}

impl Clone for Page {
    fn clone(&self) -> (copy: Page)
        ensures
            copy@ == self@,
    {
        let items = self.items.clone();
        assert(items.deep_view() =~= self.items.deep_view());
        Page { items, pages: self.pages }
    }
}

/// Model of a pair of file names.
pub struct FilenameModel {
    pub filename: Seq<char>,
    pub filename_ascii: Seq<char>,
}

/// The name a file is offered under, and a rendering of it in ASCII only.
#[derive(Debug, PartialEq, Eq)]
pub struct FilenameData {
    pub filename: String,
    pub filename_ascii: String,
}

impl View for FilenameData {
    type V = FilenameModel;

    open spec fn view(&self) -> FilenameModel {
        FilenameModel { filename: self.filename@, filename_ascii: self.filename_ascii@ }
    }
}

impl Clone for FilenameData {
    fn clone(&self) -> (copy: FilenameData)
        ensures
            copy == *self,
    {
        FilenameData {
            filename: self.filename.clone(),
            filename_ascii: self.filename_ascii.clone(),
        }
    }
}

impl DeepView for FilenameData {
    type V = FilenameModel;

    open spec fn deep_view(&self) -> FilenameModel {
        self@
    }
}

} // verus!
