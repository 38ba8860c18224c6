//! What the reclaimer knows of the files of a store.
//!
//! A page file holds pages flushed from a write buffer. A map file holds the
//! live pages of several page files; each of those lives on as a *virtual* page
//! file, whose information names the map file that now stores its pages.

use std::collections::{HashMap, HashSet};

use vstd::prelude::*;

use crate::collections::copy_of;

verus! {

/// Identifies a file of the store.
#[derive(Debug, Clone, Copy, PartialEq, Eq, Structural, Hash)]
pub enum FileId {
    /// A page file.
    Page(u32),
    /// A map file.
    MapFile(u32),
}

/// Where a page lies in its file.
#[derive(Debug, Clone, Copy, PartialEq, Eq, Structural)]
pub struct PageHandle {
    pub offset: u32,
    pub size: u32,
}

/// A live page of a page file.
#[derive(Debug, Clone, Copy, PartialEq, Eq, Structural)]
pub struct ActivePage {
    pub page_addr: u64,
    pub handle: PageHandle,
}

/// A page file, real or virtual.
#[derive(Debug)]
pub struct FileInfo {
    pub file_id: u32,
    /// The map file that stores the pages, if the page file is virtual.
    pub map_file_id: Option<u32>,
    /// The time of the last update but one.
    pub up2: u32,
    /// The size of the whole file, in bytes.
    pub file_size: usize,
    /// The size of all pages of the file, live or not, in bytes.
    pub total_page_size: usize,
    /// The size of the live pages, in bytes.
    pub effective_size: usize,
    /// The live pages, by ascending address.
    pub active_pages: Vec<ActivePage>,
}

/// A map file.
#[derive(Debug)]
pub struct MapFileInfo {
    pub file_id: u32,
    /// The time of the last update but one.
    pub up2: u32,
    /// The size of the whole file, in bytes.
    pub file_size: usize,
    /// The page files whose pages the map file stores.
    pub page_files: HashSet<u32>,
}

/// The files that make up one version of the store.
#[derive(Debug)]
pub struct Version {
    pub page_files: HashMap<u32, FileInfo>,
    pub map_files: HashMap<u32, MapFileInfo>,
}

/// A set of files.
#[derive(Debug)]
pub struct FileSet {
    page_files: HashSet<u32>,
    map_files: HashSet<u32>,
}

impl Clone for FileInfo {
    fn clone(&self) -> (res: FileInfo)
        ensures
            res.file_id == self.file_id,
            res.map_file_id == self.map_file_id,
            res.up2 == self.up2,
            res.file_size == self.file_size,
            res.total_page_size == self.total_page_size,
            res.effective_size == self.effective_size,
            res.active_pages@ == self.active_pages@,
    {
        let active_pages = self.active_pages.clone();
        assert(active_pages@ =~= self.active_pages@);
        FileInfo {
            file_id: self.file_id,
            map_file_id: self.map_file_id,
            up2: self.up2,
            file_size: self.file_size,
            total_page_size: self.total_page_size,
            effective_size: self.effective_size,
            active_pages,
        }
    }
}

impl Clone for MapFileInfo {
    fn clone(&self) -> (res: MapFileInfo)
        ensures
            res.file_id == self.file_id,
            res.up2 == self.up2,
            res.file_size == self.file_size,
            res.page_files@ == self.page_files@,
    {
        MapFileInfo {
            file_id: self.file_id,
            up2: self.up2,
            file_size: self.file_size,
            page_files: copy_of(&self.page_files),
        }
    }
}

impl FileInfo {
    /// The live pages are listed by ascending address, each once.
    pub open spec fn wf(self) -> bool {
        forall|i: int, j: int|
            0 <= i < j < self.active_pages@.len() ==> self.active_pages@[i].page_addr
                < self.active_pages@[j].page_addr
    }

    /// Whether a live page has the address.
    pub open spec fn has_page(self, page_addr: u64) -> bool {
        exists|i: int|
            0 <= i < self.active_pages@.len() && #[trigger] self.active_pages@[i].page_addr
                == page_addr
    }

    /// Whether no live page is left.
    pub fn is_empty(&self) -> (res: bool)
        ensures
            res == (self.active_pages@.len() == 0),
    {
        self.active_pages.len() == 0
    }

    /// The number of live pages.
    pub fn num_active_pages(&self) -> (res: usize)
        ensures
            res == self.active_pages@.len(),
    {
        self.active_pages.len()
    }

    /// Whether the page at the address is live.
    pub fn is_page_active(&self, page_addr: u64) -> (res: bool)
        ensures
            res == self.has_page(page_addr),
    {
        self.get_page_handle(page_addr).is_some()
    }

    /// Where the live page at the address lies. There is no handle for an
    /// address that is not live.
    pub fn get_page_handle(&self, page_addr: u64) -> (res: Option<PageHandle>)
        ensures
            res == handle_in(self.active_pages@, page_addr),
            res is Some <==> self.has_page(page_addr),
    {
        let ghost pages = self.active_pages@;
        for i in 0..self.active_pages.len()
            invariant
                pages == self.active_pages@,
                handle_in(pages.take(i as int), page_addr) is None,
        {
            let page = self.active_pages[i];
            proof {
                assert(pages.take(i + 1).drop_last() =~= pages.take(i as int));
            }
            if page.page_addr == page_addr {
                proof {
                    lemma_handle_in_prefix(pages, page_addr, i + 1);
                    lemma_handle_in(pages, page_addr);
                }
                return Some(page.handle);
            }
        }
        proof {
            assert(pages.take(pages.len() as int) =~= pages);
            lemma_handle_in(pages, page_addr);
        }
        None
    }
}

/// The handle of the first page with the address, if there is one.
pub open spec fn handle_in(pages: Seq<ActivePage>, page_addr: u64) -> Option<PageHandle>
    decreases pages.len(),
{
    if pages.len() == 0 {
        None
    } else {
        match handle_in(pages.drop_last(), page_addr) {
            Some(handle) => Some(handle),
            None => if pages.last().page_addr == page_addr {
                Some(pages.last().handle)
            } else {
                None
            },
        }
    }
}

proof fn lemma_handle_in_prefix(pages: Seq<ActivePage>, page_addr: u64, n: int)
    requires
        0 <= n <= pages.len(),
        handle_in(pages.take(n), page_addr) is Some,
    ensures
        handle_in(pages, page_addr) == handle_in(pages.take(n), page_addr),
    decreases pages.len(),
{
    if n < pages.len() {
        assert(pages.drop_last().take(n) =~= pages.take(n));
        lemma_handle_in_prefix(pages.drop_last(), page_addr, n);
    } else {
        assert(pages.take(n) =~= pages);
    }
}

proof fn lemma_handle_in(pages: Seq<ActivePage>, page_addr: u64)
    ensures
        handle_in(pages, page_addr) is Some <==> exists|i: int|
            0 <= i < pages.len() && #[trigger] pages[i].page_addr == page_addr,
    decreases pages.len(),
{
    if pages.len() > 0 {
        let rest = pages.drop_last();
        lemma_handle_in(rest, page_addr);
        if exists|i: int| 0 <= i < rest.len() && #[trigger] rest[i].page_addr == page_addr {
            let i = choose|i: int| 0 <= i < rest.len() && #[trigger] rest[i].page_addr == page_addr;
            assert(pages[i].page_addr == page_addr);
        }
        if exists|i: int| 0 <= i < pages.len() && #[trigger] pages[i].page_addr == page_addr {
            let i = choose|i: int|
                0 <= i < pages.len() && #[trigger] pages[i].page_addr == page_addr;
            if i < rest.len() {
                assert(rest[i].page_addr == page_addr);
            }
        }
        assert(pages[pages.len() - 1] == pages.last());
    }
}

/// Every live page of a file is found under its address.
pub proof fn law_active_page_has_handle(file: FileInfo, i: int)
    requires
        file.wf(),
        0 <= i < file.active_pages@.len(),
    ensures
        handle_in(file.active_pages@, file.active_pages@[i].page_addr) == Some(
            file.active_pages@[i].handle,
        ),
{
    let pages = file.active_pages@;
    let page_addr = pages[i].page_addr;
    let before = pages.take(i);
    lemma_handle_in(before, page_addr);
    assert(pages.take(i + 1).drop_last() =~= before);
    if exists|j: int| 0 <= j < before.len() && #[trigger] before[j].page_addr == page_addr {
        let j = choose|j: int| 0 <= j < before.len() && #[trigger] before[j].page_addr == page_addr;
        assert(pages[j].page_addr < pages[i].page_addr);
    }
    lemma_handle_in_prefix(pages, page_addr, i + 1);
}

impl View for FileSet {
    type V = Set<FileId>;

    closed spec fn view(&self) -> Set<FileId> {
        Set::new(
            |file: FileId|
                match file {
                    FileId::Page(id) => self.page_files@.contains(id),
                    FileId::MapFile(id) => self.map_files@.contains(id),
                },
        )
    }
}

impl FileSet {
    /// The empty set.
    pub fn new() -> (res: FileSet)
        ensures
            res@ == Set::<FileId>::empty(),
    {
        let res = FileSet { page_files: HashSet::new(), map_files: HashSet::new() };
        assert(res@ =~= Set::<FileId>::empty());
        res
    }

    /// Whether the file is in the set.
    pub fn contains(&self, file: &FileId) -> (res: bool)
        ensures
            res == self@.contains(*file),
    {
        broadcast use vstd::std_specs::hash::group_hash_axioms;

        match file {
            FileId::Page(id) => self.page_files.contains(id),
            FileId::MapFile(id) => self.map_files.contains(id),
        }
    }

    /// Adds a file.
    pub fn insert(&mut self, file: FileId)
        ensures
            final(self)@ == old(self)@.insert(file),
    {
        broadcast use vstd::std_specs::hash::group_hash_axioms;

        match file {
            FileId::Page(id) => {
                self.page_files.insert(id);
            },
            FileId::MapFile(id) => {
                self.map_files.insert(id);
            },
        }
        assert(self@ =~= old(self)@.insert(file));
    }
}

/// The handle of an address is that of the first live page there, and there is none
/// exactly if no live page is there.
pub proof fn law_handle_is_of_the_first_live_page(
    file: FileInfo,
    page_addr: u64,
    handle: Option<PageHandle>,
    active: bool,
)
    requires
        call_ensures(FileInfo::get_page_handle, (&file, page_addr), handle),
        call_ensures(FileInfo::is_page_active, (&file, page_addr), active),
    ensures
        active <==> handle is Some,
        handle is Some <==> exists|i: int|
            0 <= i < file.active_pages@.len() && #[trigger] file.active_pages@[i].page_addr
                == page_addr,
        forall|i: int|
            #![trigger file.active_pages@[i]]
            0 <= i < file.active_pages@.len() && file.active_pages@[i].page_addr == page_addr && (
            forall|j: int|
                0 <= j < i ==> #[trigger] file.active_pages@[j].page_addr != page_addr) ==> handle
                == Some(file.active_pages@[i].handle),
{
    let pages = file.active_pages@;
    assert forall|i: int|
        #![trigger file.active_pages@[i]]
        0 <= i < pages.len() && file.active_pages@[i].page_addr == page_addr && (forall|j: int|
            0 <= j < i ==> #[trigger] file.active_pages@[j].page_addr != page_addr) implies handle
        == Some(file.active_pages@[i].handle) by {
        let before = pages.take(i);
        lemma_handle_in(before, page_addr);
        if handle_in(before, page_addr) is Some {
            let j = choose|j: int|
                0 <= j < before.len() && #[trigger] before[j].page_addr == page_addr;
            assert(file.active_pages@[j].page_addr != page_addr);
        }
        assert(pages.take(i + 1).drop_last() =~= before);
        assert(pages.take(i + 1).last() == pages[i]);
        lemma_handle_in_prefix(pages, page_addr, i + 1);
    }
}

/// A file is in a set exactly if it was added, as the page file or the map file that it
/// is.
pub proof fn law_set_holds_what_was_added(
    empty: FileSet,
    files: &mut FileSet,
    file: FileId,
    other: FileId,
    before: bool,
    after: bool,
    at_first: bool,
)
    requires
        call_ensures(FileSet::new, (), empty),
        call_ensures(FileSet::contains, (&empty, &other), at_first),
        call_ensures(FileSet::insert, (files, file), ()),
        call_ensures(FileSet::contains, (&*old(files), &other), before),
        call_ensures(FileSet::contains, (&*final(files), &other), after),
    ensures
        !at_first,
        after <==> before || other == file,
{
}

} // verus!
