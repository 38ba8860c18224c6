//! Rewriting a page file: its live pages move to the write buffer, and its
//! records of deallocated pages are written again.

use std::collections::{BTreeMap, HashMap, HashSet};

use vstd::prelude::*;

use crate::files::FileInfo;
use crate::stats::JobStats;

verus! {

/// The most deallocated pages that one transaction records.
pub const DEALLOC_CHUNK: usize = 128;

/// The page file that a page address names, in its upper half.
pub open spec fn file_of_addr(page_addr: u64) -> u32 {
    (page_addr / 0x1_0000_0000) as u32
}

/// The ids of the live pages of a file, in the order of their addresses.
pub open spec fn active_page_ids(file: FileInfo, page_table: Map<u64, u64>) -> Seq<u64> {
    Seq::new(file.active_pages@.len(), |i: int| page_table[file.active_pages@[i].page_addr])
}

/// Whether the page table has an entry for every live page of the file.
pub open spec fn maps_active_pages(file: FileInfo, page_table: Map<u64, u64>) -> bool {
    forall|i: int|
        0 <= i < file.active_pages@.len() ==> page_table.contains_key(
            (#[trigger] file.active_pages@[i]).page_addr,
        )
}

/// The elements of a sequence in the order in which they first occur.
pub open spec fn first_occurrences(s: Seq<u64>) -> Seq<u64>
    decreases s.len(),
{
    if s.len() == 0 {
        Seq::empty()
    } else {
        let before = first_occurrences(s.drop_last());
        if s.drop_last().contains(s.last()) {
            before
        } else {
            before.push(s.last())
        }
    }
}

/// The deallocated pages whose page file is still part of the version.
pub open spec fn pages_of_files(dealloc_pages: Seq<u64>, files: Set<u32>) -> Seq<u64> {
    dealloc_pages.filter(|page_addr: u64| files.contains(file_of_addr(page_addr)))
}

/// Tests whether the page table has an entry for every live page of the file.
pub fn has_page_ids(file: &FileInfo, page_table: &BTreeMap<u64, u64>) -> (res: bool)
    ensures
        res == maps_active_pages(*file, page_table@),
{
    for i in 0..file.active_pages.len()
        invariant
            forall|j: int|
                0 <= j < i ==> page_table@.contains_key(
                    (#[trigger] file.active_pages@[j]).page_addr,
                ),
    {
        if !page_table.contains_key(&file.active_pages[i].page_addr) {
            assert(!page_table@.contains_key(file.active_pages@[i as int].page_addr));
            return false;
        }
    }
    true
}

fn file_id_of_addr(page_addr: u64) -> (res: u32)
    ensures
        res == file_of_addr(page_addr),
{
    assert((page_addr >> 32) as u32 == (page_addr / 0x1_0000_0000) as u32) by (bit_vector);
    (page_addr >> 32) as u32
}

/// The live pages of a file that remain to be rewritten, one after the other.
#[derive(Debug)]
pub struct ActivePagesRewrite {
    page_ids: Vec<u64>,
    next: usize,
    total_rewrite_pages: usize,
    input_size: usize,
    rewrite_size: usize,
}

/// The state of rewriting the live pages of a file.
pub struct ActivePagesView {
    /// The pages to rewrite, in order.
    pub pages: Seq<u64>,
    /// How many of them have been rewritten.
    pub done: int,
    /// The number of live pages of the file.
    pub total: int,
    /// The size of all pages of the file.
    pub input: int,
    /// The size that has been written so far.
    pub written: int,
}

impl View for ActivePagesRewrite {
    type V = ActivePagesView;

    closed spec fn view(&self) -> ActivePagesView {
        ActivePagesView {
            pages: self.page_ids@,
            done: self.next as int,
            total: self.total_rewrite_pages as int,
            input: self.input_size as int,
            written: self.rewrite_size as int,
        }
    }
}

impl ActivePagesRewrite {
    #[verifier::type_invariant]
    spec fn in_range(self) -> bool {
        self.next <= self.page_ids@.len()
    }

    /// The page to rewrite next.
    pub fn next_page(&self) -> (res: Option<u64>)
        ensures
            self@.done <= self@.pages.len(),
            res == if self@.done < self@.pages.len() {
                Some(self@.pages[self@.done])
            } else {
                None
            },
    {
        proof {
            use_type_invariant(self);
        }
        if self.next < self.page_ids.len() {
            Some(self.page_ids[self.next])
        } else {
            None
        }
    }

    /// The page has been rewritten, and took `size` bytes.
    pub fn page_rewritten(&mut self, size: usize)
        requires
            old(self)@.done < old(self)@.pages.len(),
            old(self)@.written + size <= usize::MAX,
        ensures
            final(self)@ == (ActivePagesView {
                done: old(self)@.done + 1,
                written: old(self)@.written + size,
                ..old(self)@
            }),
    {
        assert(self.next < self.page_ids.len());
        self.next = self.next + 1;
        self.rewrite_size = self.rewrite_size + size;
    }
}

/// Starts rewriting the live pages of a file. A page that lies at several
/// addresses is rewritten once.
pub fn rewrite_active_pages(file: &FileInfo, page_table: &BTreeMap<u64, u64>) -> (res:
    ActivePagesRewrite)
    requires
        maps_active_pages(*file, page_table@),
    ensures
        res@ == (ActivePagesView {
            pages: first_occurrences(active_page_ids(*file, page_table@)),
            done: 0,
            total: file.active_pages@.len() as int,
            input: file.total_page_size as int,
            written: 0,
        }),
{
    broadcast use vstd::std_specs::hash::group_hash_axioms;

    let ghost all = active_page_ids(*file, page_table@);
    let mut page_ids: Vec<u64> = Vec::new();
    let mut seen: HashSet<u64> = HashSet::new();
    let mut total_rewrite_pages: usize = 0;
    for i in 0..file.active_pages.len()
        invariant
            maps_active_pages(*file, page_table@),
            all == active_page_ids(*file, page_table@),
            total_rewrite_pages == i,
            page_ids@ == first_occurrences(all.take(i as int)),
            forall|id: u64| #[trigger] seen@.contains(id) <==> all.take(i as int).contains(id),
    {
        let page_addr = file.active_pages[i].page_addr;
        let page_id = *page_table.get(&page_addr).unwrap();
        total_rewrite_pages = total_rewrite_pages + 1;
        proof {
            assert(all.take(i + 1).drop_last() =~= all.take(i as int));
            assert(all.take(i + 1).last() == page_id);
            assert forall|id: u64|
                all.take(i + 1).contains(id) <==> all.take(i as int).contains(id) || id
                    == page_id by {
                crate::collections::lemma_take_contains(all, i as int, id);
            }
        }
        if !seen.contains(&page_id) {
            seen.insert(page_id);
            page_ids.push(page_id);
        }
    }
    assert(all.take(all.len() as int) =~= all);
    ActivePagesRewrite {
        page_ids,
        next: 0,
        total_rewrite_pages,
        input_size: file.total_page_size,
        rewrite_size: 0,
    }
}

/// A group of deallocated pages that one transaction records.
#[derive(Debug)]
pub struct DeallocChunk {
    /// The page file that the records came from. Only the last group names it:
    /// once that group is recorded, the file is no longer needed.
    pub file_id: Option<u32>,
    pub pages: Vec<u64>,
}

/// How a transaction that records deallocated pages ended.
#[derive(Debug, Clone, Copy, PartialEq, Eq)]
pub enum DeallocReply<E> {
    /// The pages are recorded.
    Done,
    /// The write buffer was full; the transaction has to be tried again.
    Again,
    /// The transaction failed.
    Failed(E),
}

/// What to do after a transaction has ended.
#[derive(Debug, Clone, Copy, PartialEq, Eq)]
pub enum DeallocAction<E> {
    /// Go on with the next group, if any is left.
    Continue,
    /// Give up with the error of the transaction.
    Abort(E),
}

/// The action after a transaction has ended. An error is handed on unchanged.
pub open spec fn action_on<E>(reply: DeallocReply<E>) -> DeallocAction<E> {
    match reply {
        DeallocReply::Done => DeallocAction::Continue,
        DeallocReply::Again => DeallocAction::Continue,
        DeallocReply::Failed(err) => DeallocAction::Abort(err),
    }
}

/// The deallocated pages of a file that remain to be recorded again.
#[derive(Debug)]
pub struct DeallocPagesRewrite {
    chunks: Vec<DeallocChunk>,
    next: usize,
    total_rewrite_pages: usize,
}

/// The state of recording the deallocated pages of a file again.
pub struct DeallocPagesView {
    pub chunks: Seq<DeallocChunk>,
    /// How many groups have been recorded.
    pub done: int,
    /// The number of pages in all groups.
    pub total: int,
}

impl View for DeallocPagesRewrite {
    type V = DeallocPagesView;

    closed spec fn view(&self) -> DeallocPagesView {
        DeallocPagesView {
            chunks: self.chunks@,
            done: self.next as int,
            total: self.total_rewrite_pages as int,
        }
    }
}

impl DeallocPagesView {
    /// The transaction for the next group has ended.
    pub open spec fn after<E>(self, reply: DeallocReply<E>) -> DeallocPagesView {
        DeallocPagesView {
            done: self.done + if reply is Done {
                1int
            } else {
                0int
            },
            ..self
        }
    }

    /// Several transactions have ended, one after the other.
    pub open spec fn after_all<E>(self, replies: Seq<DeallocReply<E>>) -> DeallocPagesView
        decreases replies.len(),
    {
        if replies.len() == 0 {
            self
        } else {
            self.after_all(replies.drop_last()).after(replies.last())
        }
    }
}

/// The pages are cut into groups of `DEALLOC_CHUNK`, in order; the last group
/// may be smaller, and is the only one to name the page file.
pub open spec fn is_chunked(chunks: Seq<DeallocChunk>, file_id: u32, pages: Seq<u64>) -> bool {
    &&& chunks.len() == (pages.len() + DEALLOC_CHUNK - 1) / DEALLOC_CHUNK as int
    &&& forall|i: int|
        0 <= i < chunks.len() ==> (#[trigger] chunks[i]).pages@ == pages.subrange(
            i * DEALLOC_CHUNK,
            if i + 1 < chunks.len() {
                (i + 1) * DEALLOC_CHUNK
            } else {
                pages.len() as int
            },
        )
    &&& forall|i: int|
        0 <= i < chunks.len() ==> (#[trigger] chunks[i]).file_id == if i + 1 < chunks.len() {
            None
        } else {
            Some(file_id)
        }
}

impl DeallocPagesRewrite {
    #[verifier::type_invariant]
    spec fn in_range(self) -> bool {
        self.next <= self.chunks@.len()
    }

    /// The group to record next.
    pub fn next_chunk(&self) -> (res: Option<&DeallocChunk>)
        ensures
            self@.done <= self@.chunks.len(),
            match res {
                Some(chunk) => self@.done < self@.chunks.len() && *chunk
                    == self@.chunks[self@.done],
                None => self@.done == self@.chunks.len(),
            },
    {
        proof {
            use_type_invariant(self);
        }
        if self.next < self.chunks.len() {
            Some(&self.chunks[self.next])
        } else {
            None
        }
    }

    /// The transaction for the group has ended. The group is recorded at most
    /// once, and is tried again until it is recorded or fails.
    pub fn rewrite_dealloc_pages_chunk<E>(&mut self, reply: DeallocReply<E>) -> (res: DeallocAction<
        E,
    >)
        requires
            old(self)@.done < old(self)@.chunks.len(),
        ensures
            final(self)@ == old(self)@.after(reply),
            res == action_on(reply),
    {
        match reply {
            DeallocReply::Done => {
                assert(self.next < self.chunks.len());
                self.next = self.next + 1;
                DeallocAction::Continue
            },
            DeallocReply::Again => DeallocAction::Continue,
            DeallocReply::Failed(err) => DeallocAction::Abort(err),
        }
    }

    /// The number of pages that are recorded again.
    pub fn total_rewrite_pages(&self) -> (res: usize)
        ensures
            res == self@.total,
    {
        self.total_rewrite_pages
    }
}

/// Starts recording the deallocated pages of a file again, so that the file can
/// go. Pages of files that are no longer part of the version are left out.
pub fn rewrite_dealloc_pages(
    file_id: u32,
    active_files: &HashMap<u32, FileInfo>,
    dealloc_pages: &[u64],
) -> (res: DeallocPagesRewrite)
    ensures
        is_chunked(
            res@.chunks,
            file_id,
            pages_of_files(dealloc_pages@, active_files@.dom()),
        ),
        res@.done == 0,
        res@.total == pages_of_files(dealloc_pages@, active_files@.dom()).len(),
{
    broadcast use vstd::std_specs::hash::group_hash_axioms;

    let ghost pred = |page_addr: u64| active_files@.dom().contains(file_of_addr(page_addr));
    let ghost all = pages_of_files(dealloc_pages@, active_files@.dom());
    let mut chunks: Vec<DeallocChunk> = Vec::new();
    let mut cached_pages: Vec<u64> = Vec::new();
    let mut total_rewrite_pages: usize = 0;
    for i in 0..dealloc_pages.len()
        invariant
            pred == (|page_addr: u64| active_files@.dom().contains(file_of_addr(page_addr))),
            total_rewrite_pages <= i,
            total_rewrite_pages == dealloc_pages@.take(i as int).filter(pred).len(),
            total_rewrite_pages == chunks@.len() * DEALLOC_CHUNK + cached_pages@.len(),
            cached_pages@.len() <= DEALLOC_CHUNK,
            cached_pages@.len() == 0 ==> chunks@.len() == 0,
            cached_pages@ == dealloc_pages@.take(i as int).filter(pred).skip(
                chunks@.len() * DEALLOC_CHUNK,
            ),
            forall|c: int|
                0 <= c < chunks@.len() ==> {
                    &&& (#[trigger] chunks@[c]).file_id is None
                    &&& chunks@[c].pages@ == dealloc_pages@.take(i as int).filter(pred).subrange(
                        c * DEALLOC_CHUNK,
                        (c + 1) * DEALLOC_CHUNK,
                    )
                },
    {
        let page_addr = dealloc_pages[i];
        let ghost before = dealloc_pages@.take(i as int).filter(pred);
        let ghost after = dealloc_pages@.take(i + 1).filter(pred);
        proof {
            assert(dealloc_pages@.take(i + 1).drop_last() =~= dealloc_pages@.take(i as int));
            reveal(Seq::filter);
        }
        if active_files.contains_key(&file_id_of_addr(page_addr)) {
            assert(after == before.push(page_addr));
            if cached_pages.len() == DEALLOC_CHUNK {
                let mut pages: Vec<u64> = Vec::new();
                std::mem::swap(&mut pages, &mut cached_pages);
                chunks.push(DeallocChunk { file_id: None, pages });
            }
            cached_pages.push(page_addr);
            total_rewrite_pages = total_rewrite_pages + 1;
        } else {
            assert(after == before);
        }
    }
    assert(dealloc_pages@.take(dealloc_pages@.len() as int) =~= dealloc_pages@);
    // The last group names the page file, so that it is recorded as well.
    if total_rewrite_pages != 0 {
        chunks.push(DeallocChunk { file_id: Some(file_id), pages: cached_pages });
    }
    DeallocPagesRewrite { chunks, next: 0, total_rewrite_pages }
}

/// What to do next for a page file that is being rewritten.
#[derive(Debug, Clone, Copy, PartialEq, Eq, Structural)]
pub enum FileRewriteAction {
    /// Rewrite the page.
    RewritePage(u64),
    /// Record the next group of deallocated pages.
    DeallocPages,
    /// The file has been rewritten.
    Finish,
}

/// The report on a page file that has been rewritten.
#[derive(Debug, Clone, Copy, PartialEq, Eq, Structural)]
pub struct RewriteReport {
    pub file_id: u32,
    pub total_rewrite_pages: usize,
    pub total_dealloc_pages: usize,
    /// The size of the live data that moved.
    pub effective_size: usize,
    /// The size that was freed.
    pub free_size: usize,
    /// The size of the file.
    pub file_size: usize,
}

/// A page file that is being rewritten: first its live pages, then its records
/// of deallocated pages.
#[derive(Debug)]
pub struct FileRewrite {
    file_id: u32,
    file_size: usize,
    effective_size: usize,
    read_bytes: u64,
    active: ActivePagesRewrite,
    dealloc: DeallocPagesRewrite,
}

/// The state of rewriting a page file.
pub struct FileRewriteView {
    pub file_id: u32,
    pub file_size: int,
    pub effective_size: int,
    /// The size read from the file for its metadata.
    pub read_bytes: int,
    pub active: ActivePagesView,
    pub dealloc: DeallocPagesView,
}

impl View for FileRewrite {
    type V = FileRewriteView;

    closed spec fn view(&self) -> FileRewriteView {
        FileRewriteView {
            file_id: self.file_id,
            file_size: self.file_size as int,
            effective_size: self.effective_size as int,
            read_bytes: self.read_bytes as int,
            active: self.active@,
            dealloc: self.dealloc@,
        }
    }
}

impl FileRewriteView {
    /// All live pages have been rewritten.
    pub open spec fn active_done(self) -> bool {
        self.active.done == self.active.pages.len()
    }

    /// All deallocated pages have been recorded.
    pub open spec fn dealloc_done(self) -> bool {
        self.dealloc.done == self.dealloc.chunks.len()
    }

    /// The next thing to do. Deallocated pages are recorded only once all live
    /// pages have been rewritten.
    pub open spec fn action(self) -> FileRewriteAction {
        if !self.active_done() {
            FileRewriteAction::RewritePage(self.active.pages[self.active.done])
        } else if !self.dealloc_done() {
            FileRewriteAction::DeallocPages
        } else {
            FileRewriteAction::Finish
        }
    }
}

/// Starts rewriting a page file, given its page table and its deallocated pages.
pub fn rewrite_file_impl(
    file: &FileInfo,
    active_files: &HashMap<u32, FileInfo>,
    page_table: &BTreeMap<u64, u64>,
    dealloc_pages: &[u64],
    read_bytes: u64,
) -> (res: FileRewrite)
    requires
        maps_active_pages(*file, page_table@),
    ensures
        res@.file_id == file.file_id,
        res@.file_size == file.file_size,
        res@.effective_size == file.effective_size,
        res@.read_bytes == read_bytes,
        res@.active == (ActivePagesView {
            pages: first_occurrences(active_page_ids(*file, page_table@)),
            done: 0,
            total: file.active_pages@.len() as int,
            input: file.total_page_size as int,
            written: 0,
        }),
        is_chunked(
            res@.dealloc.chunks,
            file.file_id,
            pages_of_files(dealloc_pages@, active_files@.dom()),
        ),
        res@.dealloc.done == 0,
        res@.dealloc.total == pages_of_files(dealloc_pages@, active_files@.dom()).len(),
{
    let active = rewrite_active_pages(file, page_table);
    let dealloc = rewrite_dealloc_pages(file.file_id, active_files, dealloc_pages);
    FileRewrite {
        file_id: file.file_id,
        file_size: file.file_size,
        effective_size: file.effective_size,
        read_bytes,
        active,
        dealloc,
    }
}

impl FileRewrite {
    /// The next thing to do.
    pub fn next_action(&self) -> (res: FileRewriteAction)
        ensures
            res == self@.action(),
            self@.active.done <= self@.active.pages.len(),
            self@.dealloc.done <= self@.dealloc.chunks.len(),
    {
        proof {
            use_type_invariant(&self.active);
            use_type_invariant(&self.dealloc);
        }
        match self.active.next_page() {
            Some(page_id) => FileRewriteAction::RewritePage(page_id),
            None => match self.dealloc.next_chunk() {
                Some(_) => FileRewriteAction::DeallocPages,
                None => FileRewriteAction::Finish,
            },
        }
    }

    /// The group of deallocated pages to record next.
    pub fn next_chunk(&self) -> (res: Option<&DeallocChunk>)
        ensures
            match res {
                Some(chunk) => self@.dealloc.done < self@.dealloc.chunks.len() && *chunk
                    == self@.dealloc.chunks[self@.dealloc.done],
                None => self@.dealloc_done(),
            },
    {
        self.dealloc.next_chunk()
    }

    /// Whether the written size with one more page fits in a machine integer.
    pub fn fits(&self, size: usize) -> (res: bool)
        ensures
            res == (self@.active.written + size <= usize::MAX),
    {
        size <= usize::MAX - self.active.rewrite_size
    }

    /// The page has been rewritten, and took `size` bytes.
    pub fn page_rewritten(&mut self, size: usize)
        requires
            old(self)@.active.done < old(self)@.active.pages.len(),
            old(self)@.active.written + size <= usize::MAX,
        ensures
            final(self)@ == (FileRewriteView {
                active: ActivePagesView {
                    done: old(self)@.active.done + 1,
                    written: old(self)@.active.written + size,
                    ..old(self)@.active
                },
                ..old(self)@
            }),
    {
        self.active.page_rewritten(size);
    }

    /// The transaction that records a group of deallocated pages has ended.
    pub fn dealloc_replied<E>(&mut self, reply: DeallocReply<E>) -> (res: DeallocAction<E>)
        requires
            old(self)@.active_done(),
            old(self)@.dealloc.done < old(self)@.dealloc.chunks.len(),
        ensures
            final(self)@ == (FileRewriteView {
                dealloc: old(self)@.dealloc.after(reply),
                ..old(self)@
            }),
            res == action_on(reply),
    {
        self.dealloc.rewrite_dealloc_pages_chunk(reply)
    }

    /// What the job adds to the statistics, whether it went through or not. The
    /// rewritten pages count once all of them have been rewritten.
    pub fn stats(&self) -> (res: JobStats)
        ensures
            res.read_file_bytes == self@.read_bytes,
            res.rewrite_input_bytes == if self@.active_done() {
                self@.active.input
            } else {
                0
            },
            res.rewrite_bytes == if self@.active_done() {
                self@.active.written
            } else {
                0
            },
            res.compact_input_bytes == 0,
            res.compact_write_bytes == 0,
    {
        let active_done = self.active.next_page().is_none();
        JobStats {
            read_file_bytes: self.read_bytes,
            rewrite_input_bytes: if active_done {
                self.active.input_size as u64
            } else {
                0
            },
            rewrite_bytes: if active_done {
                self.active.rewrite_size as u64
            } else {
                0
            },
            compact_input_bytes: 0,
            compact_write_bytes: 0,
        }
    }

    /// The report on the rewritten file.
    pub fn finish(self) -> (res: RewriteReport)
        requires
            self@.action() == FileRewriteAction::Finish,
            self@.effective_size <= self@.file_size,
        ensures
            res.file_id == self@.file_id,
            res.total_rewrite_pages == self@.active.total,
            res.total_dealloc_pages == self@.dealloc.total,
            res.effective_size == self@.effective_size,
            res.free_size == self@.file_size - self@.effective_size,
            res.file_size == self@.file_size,
    {
        RewriteReport {
            file_id: self.file_id,
            total_rewrite_pages: self.active.total_rewrite_pages,
            total_dealloc_pages: self.dealloc.total_rewrite_pages(),
            effective_size: self.effective_size,
            free_size: self.file_size - self.effective_size,
            file_size: self.file_size,
        }
    }
}

/// The first outcome other than "again" decides on a group: the group is then
/// recorded, once, or the error is handed on as it is and the group is not
/// recorded. Until then nothing changes.
pub proof fn law_first_other_outcome_decides<E>(
    before: DeallocPagesView,
    replies: Seq<DeallocReply<E>>,
)
    requires
        replies.len() > 0,
        forall|i: int| 0 <= i < replies.len() - 1 ==> #[trigger] replies[i] is Again,
        !(replies.last() is Again),
    ensures
        before.after_all(replies.drop_last()) == before,
        forall|i: int|
            0 <= i < replies.len() - 1 ==> action_on(#[trigger] replies[i])
                == DeallocAction::<E>::Continue,
        match replies.last() {
            DeallocReply::Failed(err) => {
                &&& action_on(replies.last()) == DeallocAction::Abort(err)
                &&& before.after_all(replies) == before
            },
            _ => {
                &&& action_on(replies.last()) == DeallocAction::<E>::Continue
                &&& before.after_all(replies) == (DeallocPagesView {
                    done: before.done + 1,
                    ..before
                })
            },
        },
{
    lemma_again_changes_nothing(before, replies.drop_last());
}

proof fn lemma_again_changes_nothing<E>(before: DeallocPagesView, replies: Seq<DeallocReply<E>>)
    requires
        forall|i: int| 0 <= i < replies.len() ==> #[trigger] replies[i] is Again,
    ensures
        before.after_all(replies) == before,
    decreases replies.len(),
{
    if replies.len() > 0 {
        lemma_again_changes_nothing(before, replies.drop_last());
        assert(replies[replies.len() - 1] is Again);
    }
}

/// A page is rewritten once, however many addresses it lies at, and no live page
/// is left out.
pub proof fn law_every_active_page_once(s: Seq<u64>)
    ensures
        first_occurrences(s).no_duplicates(),
        first_occurrences(s).to_set() == s.to_set(),
    decreases s.len(),
{
    if s.len() > 0 {
        let rest = s.drop_last();
        law_every_active_page_once(rest);
        assert forall|x: u64| first_occurrences(s).contains(x) <==> s.contains(x) by {
            assert(first_occurrences(rest).to_set().contains(x) <==> rest.to_set().contains(x));
            assert(s =~= rest.push(s.last()));
            vstd::seq_lib::lemma_seq_contains_after_push(rest, s.last(), x);
            vstd::seq_lib::lemma_seq_contains_after_push(first_occurrences(rest), s.last(), x);
        }
        assert(first_occurrences(s).to_set() =~= s.to_set());
        if !rest.contains(s.last()) {
            assert(!first_occurrences(rest).to_set().contains(s.last()));
        }
    } else {
        assert(first_occurrences(s).to_set() =~= s.to_set());
    }
}

/// The groups hold exactly the given pages, in order. No group is empty or too
/// large, and there is none if there is no page.
pub proof fn law_chunks_hold_all_pages(chunks: Seq<DeallocChunk>, file_id: u32, pages: Seq<u64>)
    requires
        is_chunked(chunks, file_id, pages),
    ensures
        chunks.map_values(|chunk: DeallocChunk| chunk.pages@).flatten() == pages,
        forall|i: int|
            0 <= i < chunks.len() ==> 0 < (#[trigger] chunks[i]).pages@.len() <= DEALLOC_CHUNK,
        chunks.len() == 0 <==> pages.len() == 0,
{
    let groups = chunks.map_values(|chunk: DeallocChunk| chunk.pages@);
    lemma_flatten_groups(chunks, file_id, pages, chunks.len() as int);
    assert(groups.take(chunks.len() as int) =~= groups);
    assert(pages.take(pages.len() as int) =~= pages);
}

proof fn lemma_flatten_groups(chunks: Seq<DeallocChunk>, file_id: u32, pages: Seq<u64>, k: int)
    requires
        is_chunked(chunks, file_id, pages),
        0 <= k <= chunks.len(),
    ensures
        chunks.map_values(|chunk: DeallocChunk| chunk.pages@).take(k).flatten() == pages.take(
            if k < chunks.len() {
                k * DEALLOC_CHUNK
            } else {
                pages.len() as int
            },
        ),
    decreases k,
{
    let groups = chunks.map_values(|chunk: DeallocChunk| chunk.pages@);
    if k == 0 {
        assert(groups.take(0) =~= Seq::empty());
        assert(pages.take(0) =~= Seq::empty());
    } else {
        lemma_flatten_groups(chunks, file_id, pages, k - 1);
        assert(groups.take(k) =~= groups.take(k - 1).push(groups[k - 1]));
        groups.take(k - 1).lemma_flatten_push(groups[k - 1]);
        assert(groups[k - 1] == chunks[k - 1].pages@);
    }
}

proof fn lemma_order_of_first_occurrences(s: Seq<u64>, i: int, j: int, a: int, b: int)
    requires
        0 <= i < j < s.len(),
        forall|k: int| 0 <= k <= i ==> #[trigger] s[k] != s[j],
        0 <= a < first_occurrences(s).len(),
        0 <= b < first_occurrences(s).len(),
        first_occurrences(s)[a] == s[i],
        first_occurrences(s)[b] == s[j],
    ensures
        a < b,
    decreases s.len(),
{
    let rest = s.drop_last();
    let firsts = first_occurrences(rest);
    law_every_active_page_once(s);
    law_every_active_page_once(rest);
    assert(s[i] != s[j]);
    assert(rest.contains(s[i])) by {
        assert(rest[i] == s[i]);
    }
    if j < s.len() - 1 {
        assert(rest[j] == s[j]);
        if !rest.contains(s.last()) {
            assert(a < firsts.len());
            assert(b < firsts.len());
        }
        lemma_order_of_first_occurrences(rest, i, j, a, b);
    } else if rest.contains(s.last()) {
        let k = choose|k: int| 0 <= k < rest.len() && rest[k] == s.last();
        assert(s[k] == s[j]);
        assert(k > i);
        lemma_order_of_first_occurrences(rest, i, k, a, b);
    } else {
        if b < firsts.len() {
            assert(firsts.to_set().contains(firsts[b]));
            assert(rest.to_set().contains(s.last()));
        }
    }
}

/// The listed pages are the pages of all live addresses of a file and no others,
/// each once.
spec fn lists_live_pages(pages: Seq<u64>, file: FileInfo, page_table: Map<u64, u64>) -> bool {
    &&& pages.no_duplicates()
    &&& forall|i: int|
        0 <= i < file.active_pages@.len() ==> pages.contains(
            page_table[(#[trigger] file.active_pages@[i]).page_addr],
        )
    &&& forall|k: int|
        0 <= k < pages.len() ==> exists|i: int|
            0 <= i < file.active_pages@.len() && #[trigger] pages[k]
                == page_table[(#[trigger] file.active_pages@[i]).page_addr]
}

proof fn lemma_lists_live_pages(file: FileInfo, page_table: Map<u64, u64>)
    ensures
        lists_live_pages(
            first_occurrences(active_page_ids(file, page_table)),
            file,
            page_table,
        ),
{
    let all = active_page_ids(file, page_table);
    let pages = first_occurrences(all);
    law_every_active_page_once(all);
    assert forall|i: int| 0 <= i < file.active_pages@.len() implies pages.contains(
        page_table[(#[trigger] file.active_pages@[i]).page_addr],
    ) by {
        assert(all[i] == page_table[file.active_pages@[i].page_addr]);
        assert(all.to_set().contains(all[i]));
        assert(pages.to_set().contains(all[i]));
    }
    assert forall|k: int| 0 <= k < pages.len() implies exists|i: int|
        0 <= i < file.active_pages@.len() && #[trigger] pages[k]
            == page_table[(#[trigger] file.active_pages@[i]).page_addr] by {
        assert(pages.to_set().contains(pages[k]));
        assert(all.to_set().contains(pages[k]));
        let i = choose|i: int| 0 <= i < all.len() && all[i] == pages[k];
        assert(pages[k] == page_table[file.active_pages@[i].page_addr]);
    }
}

/// The pages that are handed out for rewriting are those that the page table gives
/// the live addresses of the file: every one of them and nothing else, each once.
/// All live addresses count for the report.
pub proof fn law_all_live_pages_are_rewritten(
    file: FileInfo,
    page_table: BTreeMap<u64, u64>,
    rewrite: ActivePagesRewrite,
)
    requires
        call_ensures(rewrite_active_pages, (&file, &page_table), rewrite),
    ensures
        forall|i: int|
            0 <= i < file.active_pages@.len() ==> rewrite@.pages.contains(
                page_table@[(#[trigger] file.active_pages@[i]).page_addr],
            ),
        forall|k: int|
            0 <= k < rewrite@.pages.len() ==> exists|i: int|
                0 <= i < file.active_pages@.len() && #[trigger] rewrite@.pages[k]
                    == page_table@[(#[trigger] file.active_pages@[i]).page_addr],
        rewrite@.pages.no_duplicates(),
        rewrite@.done == 0,
        rewrite@.written == 0,
        rewrite@.total == file.active_pages@.len(),
        rewrite@.input == file.total_page_size,
{
    lemma_lists_live_pages(file, page_table@);
}

/// Pages are rewritten in the order of the addresses at which they first occur: a
/// page that occurs only after the i-th live address comes after the page of that
/// address.
pub proof fn law_live_pages_are_rewritten_in_order(
    file: FileInfo,
    page_table: BTreeMap<u64, u64>,
    rewrite: ActivePagesRewrite,
    i: int,
    j: int,
    a: int,
    b: int,
)
    requires
        call_ensures(rewrite_active_pages, (&file, &page_table), rewrite),
        0 <= i < j < file.active_pages@.len(),
        forall|k: int|
            0 <= k <= i ==> page_table@[(#[trigger] file.active_pages@[k]).page_addr]
                != page_table@[file.active_pages@[j].page_addr],
        0 <= a < rewrite@.pages.len(),
        0 <= b < rewrite@.pages.len(),
        rewrite@.pages[a] == page_table@[file.active_pages@[i].page_addr],
        rewrite@.pages[b] == page_table@[file.active_pages@[j].page_addr],
    ensures
        a < b,
{
    let all = active_page_ids(file, page_table@);
    lemma_lists_live_pages(file, page_table@);
    assert forall|k: int| 0 <= k <= i implies #[trigger] all[k] != all[j] by {
        assert(all[k] == page_table@[file.active_pages@[k].page_addr]);
    }
    lemma_order_of_first_occurrences(all, i, j, a, b);
}

/// A page address is the number of its page file and the offset in the file.
pub proof fn law_page_address_names_its_file(file_id: u32, offset: u32)
    ensures
        file_of_addr((file_id * 0x1_0000_0000 + offset) as u64) == file_id,
{
    let page_addr = (file_id * 0x1_0000_0000 + offset) as u64;
    assert(page_addr == file_id * 0x1_0000_0000 + offset);
    assert(page_addr / 0x1_0000_0000 == file_id);
}

/// The groups hold exactly the deallocated pages whose page file, which the upper
/// half of the address names, is part of the version, in their order. Every group
/// but the last holds 128 pages and names no file; the last holds at least one and
/// names the file that the records came from.
pub proof fn law_deallocated_pages_are_recorded(
    file_id: u32,
    active_files: HashMap<u32, FileInfo>,
    dealloc_pages: &[u64],
    rewrite: DeallocPagesRewrite,
)
    requires
        call_ensures(rewrite_dealloc_pages, (file_id, &active_files, dealloc_pages), rewrite),
    ensures
        rewrite@.done == 0,
        rewrite@.chunks.map_values(|chunk: DeallocChunk| chunk.pages@).flatten()
            == dealloc_pages@.filter(
            |page_addr: u64|
                active_files@.contains_key((page_addr / 0x1_0000_0000) as u32),
        ),
        rewrite@.total == rewrite@.chunks.map_values(
            |chunk: DeallocChunk| chunk.pages@,
        ).flatten().len(),
        forall|i: int|
            0 <= i < rewrite@.chunks.len() ==> {
                &&& 1 <= (#[trigger] rewrite@.chunks[i]).pages@.len() <= 128
                &&& i + 1 < rewrite@.chunks.len() ==> rewrite@.chunks[i].pages@.len() == 128
                    && rewrite@.chunks[i].file_id is None
                &&& i + 1 == rewrite@.chunks.len() ==> rewrite@.chunks[i].file_id == Some(file_id)
            },
{
    lemma_recorded(file_id, active_files@, dealloc_pages@, rewrite@.chunks);
}

proof fn lemma_recorded(
    file_id: u32,
    active_files: Map<u32, FileInfo>,
    dealloc_pages: Seq<u64>,
    chunks: Seq<DeallocChunk>,
)
    requires
        is_chunked(chunks, file_id, pages_of_files(dealloc_pages, active_files.dom())),
    ensures
        chunks.map_values(|chunk: DeallocChunk| chunk.pages@).flatten() == pages_of_files(
            dealloc_pages,
            active_files.dom(),
        ),
        pages_of_files(dealloc_pages, active_files.dom()) == dealloc_pages.filter(
            |page_addr: u64|
                active_files.contains_key((page_addr / 0x1_0000_0000) as u32),
        ),
        forall|i: int|
            0 <= i < chunks.len() ==> {
                &&& 1 <= (#[trigger] chunks[i]).pages@.len() <= 128
                &&& i + 1 < chunks.len() ==> chunks[i].pages@.len() == 128
                    && chunks[i].file_id is None
                &&& i + 1 == chunks.len() ==> chunks[i].file_id == Some(file_id)
            },
{
    let p = |page_addr: u64| active_files.dom().contains(file_of_addr(page_addr));
    let q = |page_addr: u64| active_files.contains_key((page_addr / 0x1_0000_0000) as u32);
    assert(p =~= q);
    law_chunks_hold_all_pages(chunks, file_id, pages_of_files(dealloc_pages, active_files.dom()));
}

/// A page file is rewritten with all of its live pages and all of the deallocated
/// pages that still count, however many there are.
pub proof fn law_file_is_rewritten_whole(
    file: FileInfo,
    active_files: HashMap<u32, FileInfo>,
    page_table: BTreeMap<u64, u64>,
    dealloc_pages: &[u64],
    read_bytes: u64,
    job: FileRewrite,
)
    requires
        call_ensures(
            rewrite_file_impl,
            (&file, &active_files, &page_table, dealloc_pages, read_bytes),
            job,
        ),
    ensures
        forall|i: int|
            0 <= i < file.active_pages@.len() ==> job@.active.pages.contains(
                page_table@[(#[trigger] file.active_pages@[i]).page_addr],
            ),
        forall|k: int|
            0 <= k < job@.active.pages.len() ==> exists|i: int|
                0 <= i < file.active_pages@.len() && #[trigger] job@.active.pages[k]
                    == page_table@[(#[trigger] file.active_pages@[i]).page_addr],
        job@.active.pages.no_duplicates(),
        job@.active.done == 0,
        job@.active.written == 0,
        job@.active.total == file.active_pages@.len(),
        job@.active.input == file.total_page_size,
        job@.dealloc.done == 0,
        job@.dealloc.chunks.map_values(|chunk: DeallocChunk| chunk.pages@).flatten()
            == dealloc_pages@.filter(
            |page_addr: u64|
                active_files@.contains_key((page_addr / 0x1_0000_0000) as u32),
        ),
        job@.dealloc.total == job@.dealloc.chunks.map_values(
            |chunk: DeallocChunk| chunk.pages@,
        ).flatten().len(),
        job@.dealloc.chunks.len() > 0 ==> job@.dealloc.chunks.last().file_id == Some(file.file_id),
        forall|i: int|
            0 <= i < job@.dealloc.chunks.len() - 1 ==> (
            #[trigger] job@.dealloc.chunks[i]).file_id is None
                && job@.dealloc.chunks[i].pages@.len() == 128,
        forall|i: int|
            0 <= i < job@.dealloc.chunks.len() ==> 1 <= (
            #[trigger] job@.dealloc.chunks[i]).pages@.len() <= 128,
        job@.file_id == file.file_id,
        job@.file_size == file.file_size,
        job@.effective_size == file.effective_size,
        job@.read_bytes == read_bytes,
{
    lemma_lists_live_pages(file, page_table@);
    lemma_recorded(file.file_id, active_files@, dealloc_pages@, job@.dealloc.chunks);
    if job@.dealloc.chunks.len() > 0 {
        let last = job@.dealloc.chunks.len() - 1;
        assert(job@.dealloc.chunks[last].file_id == Some(file.file_id));
    }
}

/// A file that is being rewritten is finished only when all of its live pages have
/// been rewritten and all groups of deallocated pages recorded. Until then the next
/// live page comes, or, once none is left, the next group.
pub proof fn law_nothing_is_left_at_the_finish(job: FileRewrite, action: FileRewriteAction)
    requires
        call_ensures(FileRewrite::next_action, (&job,), action),
    ensures
        action == FileRewriteAction::Finish <==> job@.active.done == job@.active.pages.len()
            && job@.dealloc.done == job@.dealloc.chunks.len(),
        job@.active.done < job@.active.pages.len() ==> action == FileRewriteAction::RewritePage(
            job@.active.pages[job@.active.done],
        ),
        action == FileRewriteAction::DeallocPages <==> job@.active.done == job@.active.pages.len()
            && job@.dealloc.done < job@.dealloc.chunks.len(),
{
}

/// Rewriting a page moves on by one page, and adds its size to what was written.
pub proof fn law_rewritten_page_is_counted(job: &mut FileRewrite, size: usize)
    requires
        call_ensures(FileRewrite::page_rewritten, (job, size), ()),
    ensures
        final(job)@.active.done == old(job)@.active.done + 1,
        final(job)@.active.written == old(job)@.active.written + size,
        final(job)@.active.pages == old(job)@.active.pages,
        final(job)@.active.total == old(job)@.active.total,
        final(job)@.active.input == old(job)@.active.input,
        final(job)@.dealloc == old(job)@.dealloc,
        final(job)@.file_id == old(job)@.file_id,
        final(job)@.file_size == old(job)@.file_size,
        final(job)@.effective_size == old(job)@.effective_size,
        final(job)@.read_bytes == old(job)@.read_bytes,
{
}

/// A group counts as recorded exactly if its transaction went through. A full write
/// buffer changes nothing, and an error is handed on as it is.
pub proof fn law_group_is_recorded_when_done<E>(
    rewrite: &mut DeallocPagesRewrite,
    reply: DeallocReply<E>,
    action: DeallocAction<E>,
)
    requires
        call_ensures(
            DeallocPagesRewrite::rewrite_dealloc_pages_chunk::<E>,
            (rewrite, reply),
            action,
        ),
    ensures
        reply is Done ==> final(rewrite)@.done == old(rewrite)@.done + 1,
        !(reply is Done) ==> final(rewrite)@.done == old(rewrite)@.done,
        final(rewrite)@.chunks == old(rewrite)@.chunks,
        final(rewrite)@.total == old(rewrite)@.total,
        match reply {
            DeallocReply::Failed(err) => action matches DeallocAction::Abort(e) && e == err,
            _ => action is Continue,
        },
{
}

/// The same for the groups of a file that is being rewritten; its live pages are not
/// touched.
pub proof fn law_group_of_a_file_is_recorded_when_done<E>(
    job: &mut FileRewrite,
    reply: DeallocReply<E>,
    action: DeallocAction<E>,
)
    requires
        call_ensures(FileRewrite::dealloc_replied::<E>, (job, reply), action),
    ensures
        reply is Done ==> final(job)@.dealloc.done == old(job)@.dealloc.done + 1,
        !(reply is Done) ==> final(job)@.dealloc.done == old(job)@.dealloc.done,
        final(job)@.dealloc.chunks == old(job)@.dealloc.chunks,
        final(job)@.dealloc.total == old(job)@.dealloc.total,
        final(job)@.active == old(job)@.active,
        final(job)@.file_id == old(job)@.file_id,
        final(job)@.file_size == old(job)@.file_size,
        final(job)@.effective_size == old(job)@.effective_size,
        final(job)@.read_bytes == old(job)@.read_bytes,
        match reply {
            DeallocReply::Failed(err) => action matches DeallocAction::Abort(e) && e == err,
            _ => action is Continue,
        },
{
}

/// The statistics count the rewritten pages once all of them have been rewritten,
/// and what was read in any case.
pub proof fn law_statistics_count_what_was_moved(job: FileRewrite, stats: JobStats)
    requires
        call_ensures(FileRewrite::stats, (&job,), stats),
    ensures
        stats.read_file_bytes == job@.read_bytes,
        job@.active.done == job@.active.pages.len() ==> stats.rewrite_input_bytes
            == job@.active.input && stats.rewrite_bytes == job@.active.written,
        job@.active.done != job@.active.pages.len() ==> stats.rewrite_input_bytes == 0
            && stats.rewrite_bytes == 0,
        stats.compact_input_bytes == 0,
        stats.compact_write_bytes == 0,
{
}

/// A page table serves for a file exactly if it knows every live address of it.
pub proof fn law_page_table_knows_every_live_address(
    file: FileInfo,
    page_table: BTreeMap<u64, u64>,
    res: bool,
)
    requires
        call_ensures(has_page_ids, (&file, &page_table), res),
    ensures
        res <==> forall|i: int|
            0 <= i < file.active_pages@.len() ==> page_table@.contains_key(
                (#[trigger] file.active_pages@[i]).page_addr,
            ),
{
}

/// The pages and the groups come in their order, and none is left out.
pub proof fn law_next_is_the_first_not_done(
    active: ActivePagesRewrite,
    page: Option<u64>,
    dealloc: DeallocPagesRewrite,
    chunk: Option<&DeallocChunk>,
    job: FileRewrite,
    job_chunk: Option<&DeallocChunk>,
)
    requires
        call_ensures(ActivePagesRewrite::next_page, (&active,), page),
        call_ensures(DeallocPagesRewrite::next_chunk, (&dealloc,), chunk),
        call_ensures(FileRewrite::next_chunk, (&job,), job_chunk),
    ensures
        page is Some <==> active@.done < active@.pages.len(),
        page matches Some(id) ==> id == active@.pages[active@.done],
        chunk is Some <==> dealloc@.done < dealloc@.chunks.len(),
        chunk matches Some(group) ==> *group == dealloc@.chunks[dealloc@.done],
        job_chunk matches Some(group) ==> *group == job@.dealloc.chunks[job@.dealloc.done],
        job_chunk is None ==> job@.dealloc.done == job@.dealloc.chunks.len(),
{
}

/// The report on a rewritten file tells its live pages, its recorded pages, and what
/// moved and what was freed, which make up the file together.
pub proof fn law_report_makes_up_the_file(job: FileRewrite, report: RewriteReport)
    requires
        call_ensures(FileRewrite::finish, (job,), report),
    ensures
        report.file_id == job@.file_id,
        report.total_rewrite_pages == job@.active.total,
        report.total_dealloc_pages == job@.dealloc.total,
        report.effective_size == job@.effective_size,
        report.effective_size + report.free_size == report.file_size,
        report.file_size == job@.file_size,
{
}

} // verus!
