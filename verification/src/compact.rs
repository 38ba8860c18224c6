//! Compacting map files into a new map file.

use std::collections::{BTreeMap, HashMap, HashSet};

use vstd::prelude::*;

use crate::collections::{elements_of, set_of, sorted_elements_of};
use crate::copy::{page_copies, PageCopy};
use crate::files::{FileId, FileInfo, FileSet, MapFileInfo};
use crate::install::CompactChange;
use crate::progress::ReclaimProgress;
use crate::rewrite::has_page_ids;
use crate::stats::JobStats;

verus! {

/// The totals over the page files that have been compacted.
#[derive(Debug, Clone, Copy, PartialEq, Eq, Structural, Default)]
pub struct CompactStats {
    pub num_active_pages: usize,
    /// The size of all pages.
    pub input_size: usize,
    /// The size of the live pages.
    pub output_size: usize,
}

/// What a map file says about its contents.
#[derive(Debug)]
pub struct MapFileMeta {
    /// The page files that the map file stores.
    pub file_ids: HashSet<u32>,
    /// The page table of each of them.
    pub page_tables: HashMap<u32, BTreeMap<u64, u64>>,
}

/// The pages of one page file to copy.
#[derive(Debug)]
pub struct FileCopy {
    pub file_id: u32,
    pub pages: Vec<PageCopy>,
}

impl CompactStats {
    /// Whether the totals with one more file fit in machine integers.
    pub open spec fn fits(self, info: FileInfo) -> bool {
        &&& self.num_active_pages + info.active_pages@.len() <= usize::MAX
        &&& self.input_size + info.total_page_size <= usize::MAX
        &&& self.output_size + info.effective_size <= usize::MAX
    }

    /// Whether a page file can be added to the totals.
    pub fn can_collect(&self, info: &FileInfo) -> (res: bool)
        ensures
            res == self.fits(*info),
    {
        info.num_active_pages() <= usize::MAX - self.num_active_pages && info.total_page_size
            <= usize::MAX - self.input_size && info.effective_size <= usize::MAX - self.output_size
    }

    /// Adds a page file to the totals.
    pub fn collect(&mut self, info: &FileInfo)
        requires
            old(self).fits(*info),
        ensures
            final(self).num_active_pages == old(self).num_active_pages + info.active_pages@.len(),
            final(self).input_size == old(self).input_size + info.total_page_size,
            final(self).output_size == old(self).output_size + info.effective_size,
    {
        self.num_active_pages = self.num_active_pages + info.num_active_pages();
        self.input_size = self.input_size + info.total_page_size;
        self.output_size = self.output_size + info.effective_size;
    }
}

/// The number of live pages of some page files.
pub open spec fn total_active_pages(ids: Set<u32>, page_files: Map<u32, FileInfo>) -> nat {
    crate::collections::sum_over(ids, |id: u32| page_files[id].active_pages@.len())
}

/// The size of all pages of some page files.
pub open spec fn total_page_size(ids: Set<u32>, page_files: Map<u32, FileInfo>) -> nat {
    crate::collections::sum_over(ids, |id: u32| page_files[id].total_page_size as nat)
}

/// The size of the live pages of some page files.
pub open spec fn total_effective_size(ids: Set<u32>, page_files: Map<u32, FileInfo>) -> nat {
    crate::collections::sum_over(ids, |id: u32| page_files[id].effective_size as nat)
}

impl MapFileMeta {
    /// The version knows every page file of the map file, and each has a page
    /// table with an entry for every live page.
    pub open spec fn covers(self, page_files: Map<u32, FileInfo>) -> bool {
        forall|id: u32| #[trigger]
            self.file_ids@.contains(id) ==> {
                &&& page_files.contains_key(id)
                &&& self.page_tables@.contains_key(id)
                &&& crate::rewrite::maps_active_pages(page_files[id], self.page_tables@[id]@)
            }
    }

    /// Tests whether the version knows every page file of the map file, and each
    /// has a page table with an entry for every live page.
    pub fn is_covered(&self, page_files: &HashMap<u32, FileInfo>) -> (res: bool)
        ensures
            res == self.covers(page_files@),
    {
        broadcast use vstd::std_specs::hash::group_hash_axioms;

        let ids = elements_of(&self.file_ids);
        for i in 0..ids.len()
            invariant
                ids@.to_set() == self.file_ids@,
                forall|j: int|
                    0 <= j < i ==> {
                        let id = #[trigger] ids@[j];
                        &&& page_files@.contains_key(id)
                        &&& self.page_tables@.contains_key(id)
                        &&& crate::rewrite::maps_active_pages(
                            page_files@[id],
                            self.page_tables@[id]@,
                        )
                    },
        {
            let id = ids[i];
            assert(ids@.to_set().contains(id));
            match (page_files.get(&id), self.page_tables.get(&id)) {
                (Some(info), Some(page_table)) => {
                    if !has_page_ids(info, page_table) {
                        return false;
                    }
                },
                _ => {
                    return false;
                },
            }
        }
        assert forall|id: u32| #[trigger] self.file_ids@.contains(id) implies {
            &&& page_files@.contains_key(id)
            &&& self.page_tables@.contains_key(id)
            &&& crate::rewrite::maps_active_pages(page_files@[id], self.page_tables@[id]@)
        } by {
            assert(ids@.to_set().contains(id));
            let j = choose|j: int| 0 <= j < ids@.len() && ids@[j] == id;
            assert(ids@[j] == id);
        }
        true
    }
}

/// The copies for all page files of a map file: by ascending id, each with all
/// of its live pages.
pub open spec fn copies_map_file(
    copies: Seq<FileCopy>,
    meta: MapFileMeta,
    page_files: Map<u32, FileInfo>,
) -> bool {
    &&& copies.map_values(|copy: FileCopy| copy.file_id).to_set() == meta.file_ids@
    &&& forall|i: int, j: int|
        0 <= i < j < copies.len() ==> (#[trigger] copies[i]).file_id < (
        #[trigger] copies[j]).file_id
    &&& forall|i: int|
        0 <= i < copies.len() ==> (#[trigger] copies[i]).pages@ == crate::copy::copies_of(
            page_files[copies[i].file_id],
            meta.page_tables@[copies[i].file_id]@,
        )
}

/// The totals are those of before with all the page files added.
spec fn adds_up(
    stats: CompactStats,
    before: CompactStats,
    ids: Set<u32>,
    page_files: Map<u32, FileInfo>,
) -> bool {
    &&& stats.num_active_pages == before.num_active_pages + total_active_pages(ids, page_files)
    &&& stats.input_size == before.input_size + total_page_size(ids, page_files)
    &&& stats.output_size == before.output_size + total_effective_size(ids, page_files)
}

/// Adding a page file to some others adds to the totals what it holds.
proof fn lemma_totals_insert(ids: Set<u32>, id: u32, page_files: Map<u32, FileInfo>)
    requires
        ids.finite(),
        !ids.contains(id),
    ensures
        total_active_pages(ids.insert(id), page_files) == total_active_pages(ids, page_files)
            + page_files[id].active_pages@.len(),
        total_page_size(ids.insert(id), page_files) == total_page_size(ids, page_files)
            + page_files[id].total_page_size,
        total_effective_size(ids.insert(id), page_files) == total_effective_size(ids, page_files)
            + page_files[id].effective_size,
{
    let all = ids.insert(id);
    assert(all.remove(id) =~= ids);
    crate::collections::lemma_sum_remove(all, |id: u32| page_files[id].active_pages@.len(), id);
    crate::collections::lemma_sum_remove(
        all,
        |id: u32| page_files[id].total_page_size as nat,
        id,
    );
    crate::collections::lemma_sum_remove(
        all,
        |id: u32| page_files[id].effective_size as nat,
        id,
    );
}

/// The totals of more page files are no less.
proof fn lemma_totals_subset(ids: Set<u32>, all: Set<u32>, page_files: Map<u32, FileInfo>)
    requires
        all.finite(),
        ids.subset_of(all),
    ensures
        total_active_pages(ids, page_files) <= total_active_pages(all, page_files),
        total_page_size(ids, page_files) <= total_page_size(all, page_files),
        total_effective_size(ids, page_files) <= total_effective_size(all, page_files),
    decreases all.len(),
{
    if !(ids =~= all) {
        let id = choose|id: u32| all.contains(id) && !ids.contains(id);
        lemma_totals_subset(ids, all.remove(id), page_files);
        lemma_totals_insert(all.remove(id), id, page_files);
        assert(all.remove(id).insert(id) =~= all);
    }
}

/// Adds the listed page files to the totals, unless the result does not fit in
/// machine integers.
fn collect_all(before: CompactStats, ids: &Vec<u32>, page_files: &HashMap<u32, FileInfo>) -> (res:
    Option<CompactStats>)
    requires
        ids@.no_duplicates(),
        forall|id: u32| #[trigger] ids@.to_set().contains(id) ==> page_files@.contains_key(id),
    ensures
        match res {
            Some(stats) => adds_up(stats, before, ids@.to_set(), page_files@),
            None => {
                ||| before.num_active_pages + total_active_pages(ids@.to_set(), page_files@)
                    > usize::MAX
                ||| before.input_size + total_page_size(ids@.to_set(), page_files@) > usize::MAX
                ||| before.output_size + total_effective_size(ids@.to_set(), page_files@)
                    > usize::MAX
            },
        },
{
    broadcast use vstd::std_specs::hash::group_hash_axioms;

    let mut stats = before;
    assert(ids@.take(0).to_set() =~= Set::empty());
    for i in 0..ids.len()
        invariant
            ids@.no_duplicates(),
            forall|id: u32| #[trigger] ids@.to_set().contains(id) ==> page_files@.contains_key(id),
            adds_up(stats, before, ids@.take(i as int).to_set(), page_files@),
    {
        let id = ids[i];
        let ghost done = ids@.take(i as int).to_set();
        proof {
            assert(ids@.to_set().contains(id));
            assert(!done.contains(id));
            assert(ids@.take(i + 1).to_set() =~= done.insert(id)) by {
                assert forall|k: u32|
                    ids@.take(i + 1).to_set().contains(k) <==> done.insert(id).contains(k) by {
                    crate::collections::lemma_take_contains(ids@, i as int, k);
                }
            }
            lemma_totals_insert(done, id, page_files@);
            assert forall|k: u32| done.insert(id).contains(k) implies ids@.to_set().contains(k) by {
                crate::collections::lemma_take_contains(ids@, i as int, k);
            }
            lemma_totals_subset(done.insert(id), ids@.to_set(), page_files@);
        }
        let info = page_files.get(&id).unwrap();
        if !stats.can_collect(info) {
            return None;
        }
        stats.collect(info);
    }
    assert(ids@.take(ids@.len() as int) =~= ids@);
    Some(stats)
}

/// Lists the copies for one map file.
fn list_copies(meta: &MapFileMeta, ids: &Vec<u32>, page_files: &HashMap<u32, FileInfo>) -> (res: Vec<
    FileCopy,
>)
    requires
        crate::collections::ascending(ids@),
        ids@.to_set() == meta.file_ids@,
        meta.covers(page_files@),
    ensures
        copies_map_file(res@, *meta, page_files@),
{
    broadcast use vstd::std_specs::hash::group_hash_axioms;

    let mut copies: Vec<FileCopy> = Vec::new();
    for i in 0..ids.len()
        invariant
            ids@.to_set() == meta.file_ids@,
            meta.covers(page_files@),
            copies@.len() == i,
            forall|j: int|
                0 <= j < i ==> {
                    &&& (#[trigger] copies@[j]).file_id == ids@[j]
                    &&& copies@[j].pages@ == crate::copy::copies_of(
                        page_files@[ids@[j]],
                        meta.page_tables@[ids@[j]]@,
                    )
                },
    {
        let id = ids[i];
        assert(ids@.to_set().contains(id));
        let info = page_files.get(&id).unwrap();
        let page_table = meta.page_tables.get(&id).unwrap();
        copies.push(FileCopy { file_id: id, pages: page_copies(info, page_table) });
    }
    assert(copies@.map_values(|copy: FileCopy| copy.file_id) =~= ids@);
    copies
}

/// A set of map files that is being compacted, one after the other.
#[derive(Debug)]
pub struct CompactJob {
    new_file_id: u32,
    victims: Vec<u32>,
    next: usize,
    planned: bool,
    stats: CompactStats,
    up2_sum: u32,
}

/// The state of compacting a set of map files.
pub struct CompactView {
    /// The map file that is being made.
    pub new_file_id: u32,
    /// The map files to compact, in order.
    pub victims: Seq<u32>,
    /// How many of them have been compacted.
    pub done: int,
    /// Whether the copies for the next one have been planned.
    pub planned: bool,
    /// The totals over all planned page files.
    pub num_active_pages: int,
    pub input_size: int,
    pub output_size: int,
    pub up2_sum: int,
}

/// The outcome of compacting a set of map files.
#[derive(Debug)]
pub struct CompactOutput {
    pub new_file_id: u32,
    pub victims: Vec<u32>,
    pub num_active_pages: usize,
    pub input_size: usize,
    pub output_size: usize,
    /// The size that was freed.
    pub free_size: usize,
    pub stats: JobStats,
}

impl View for CompactJob {
    type V = CompactView;

    closed spec fn view(&self) -> CompactView {
        CompactView {
            new_file_id: self.new_file_id,
            victims: self.victims@,
            done: self.next as int,
            planned: self.planned,
            num_active_pages: self.stats.num_active_pages as int,
            input_size: self.stats.input_size as int,
            output_size: self.stats.output_size as int,
            up2_sum: self.up2_sum as int,
        }
    }
}

impl CompactView {
    /// Nothing has been compacted yet.
    pub open spec fn start(new_file_id: u32, victims: Seq<u32>) -> CompactView {
        CompactView {
            new_file_id,
            victims,
            done: 0,
            planned: false,
            num_active_pages: 0,
            input_size: 0,
            output_size: 0,
            up2_sum: 0,
        }
    }

    /// The copies of some page files have been planned.
    pub open spec fn with_plan(self, ids: Set<u32>, page_files: Map<u32, FileInfo>) -> CompactView {
        CompactView {
            planned: true,
            num_active_pages: self.num_active_pages + total_active_pages(ids, page_files),
            input_size: self.input_size + total_page_size(ids, page_files),
            output_size: self.output_size + total_effective_size(ids, page_files),
            ..self
        }
    }

    /// Whether the totals with some more page files fit in machine integers.
    pub open spec fn fits(self, ids: Set<u32>, page_files: Map<u32, FileInfo>) -> bool {
        let next = self.with_plan(ids, page_files);
        &&& next.num_active_pages <= usize::MAX
        &&& next.input_size <= usize::MAX
        &&& next.output_size <= usize::MAX
    }

    /// The planned copies are in the new map file.
    pub open spec fn with_copied(self, up2: u32) -> CompactView {
        CompactView { done: self.done + 1, planned: false, up2_sum: self.up2_sum + up2, ..self }
    }

    /// The state after several map files, each with the page files that it stores
    /// and its update time.
    pub open spec fn after_all(
        self,
        files: Seq<(Set<u32>, u32)>,
        page_files: Map<u32, FileInfo>,
    ) -> CompactView
        decreases files.len(),
    {
        if files.len() == 0 {
            self
        } else {
            self.after_all(files.drop_last(), page_files).with_plan(
                files.last().0,
                page_files,
            ).with_copied(files.last().1)
        }
    }
}

/// Starts compacting a set of map files, by ascending id, into a new one.
pub fn compact_map_files(new_file_id: u32, victims: &HashSet<u32>) -> (res: CompactJob)
    ensures
        crate::collections::ascending(res@.victims),
        res@.victims.to_set() == victims@,
        res@ == CompactView::start(new_file_id, res@.victims),
{
    CompactJob {
        new_file_id,
        victims: sorted_elements_of(victims),
        next: 0,
        planned: false,
        stats: CompactStats { num_active_pages: 0, input_size: 0, output_size: 0 },
        up2_sum: 0,
    }
}

impl CompactJob {
    #[verifier::type_invariant]
    spec fn in_range(self) -> bool {
        self.next <= self.victims@.len()
    }

    /// The map file that is being made.
    pub fn new_file_id(&self) -> (res: u32)
        ensures
            res == self@.new_file_id,
    {
        self.new_file_id
    }

    /// The map file to compact next.
    pub fn next_victim(&self) -> (res: Option<u32>)
        ensures
            self@.done <= self@.victims.len(),
            res == if self@.done < self@.victims.len() {
                Some(self@.victims[self@.done])
            } else {
                None
            },
    {
        proof {
            use_type_invariant(self);
        }
        if self.next < self.victims.len() {
            Some(self.victims[self.next])
        } else {
            None
        }
    }

    /// Whether the totals with the page files of one more map file fit in machine
    /// integers, given that the version knows all of them.
    pub fn fits(&self, meta: &MapFileMeta, page_files: &HashMap<u32, FileInfo>) -> (res: bool)
        requires
            meta.covers(page_files@),
        ensures
            res == self@.fits(meta.file_ids@, page_files@),
    {
        collect_all(self.stats, &elements_of(&meta.file_ids), page_files).is_some()
    }

    /// Whether the sum of update times with one more map file fits in a machine
    /// integer.
    pub fn fits_up2(&self, info: &MapFileInfo) -> (res: bool)
        ensures
            res == (self@.up2_sum + info.up2 <= u32::MAX),
    {
        info.up2 <= u32::MAX - self.up2_sum
    }

    /// Plans the copies for the next map file.
    pub fn compact_map_file(&mut self, meta: &MapFileMeta, page_files: &HashMap<u32, FileInfo>) -> (res:
        Vec<FileCopy>)
        requires
            old(self)@.done < old(self)@.victims.len(),
            !old(self)@.planned,
            meta.covers(page_files@),
            old(self)@.fits(meta.file_ids@, page_files@),
        ensures
            copies_map_file(res@, *meta, page_files@),
            final(self)@ == old(self)@.with_plan(meta.file_ids@, page_files@),
    {
        proof {
            use_type_invariant(&*self);
        }
        let ids = sorted_elements_of(&meta.file_ids);
        self.stats = collect_all(self.stats, &ids, page_files).unwrap();
        self.planned = true;
        list_copies(meta, &ids, page_files)
    }

    /// The live pages of the next map file are in the new one. The file is
    /// accounted for and marked as cleaned.
    pub fn map_file_compacted(
        &mut self,
        map_files: &HashMap<u32, MapFileInfo>,
        page_files: &HashMap<u32, FileInfo>,
        progress: &mut ReclaimProgress,
        cleaned_files: &mut FileSet,
    )
        requires
            old(self)@.done < old(self)@.victims.len(),
            old(self)@.planned,
            map_files@.contains_key(old(self)@.victims[old(self)@.done]),
            ({
                let info = map_files@[old(self)@.victims[old(self)@.done]];
                &&& old(self)@.up2_sum + info.up2 <= u32::MAX
                &&& crate::progress::mapped_size(info.page_files@, page_files@) <= usize::MAX
            }),
        ensures
            final(self)@ == old(self)@.with_copied(
                map_files@[old(self)@.victims[old(self)@.done]].up2,
            ),
            (crate::progress::Books { progress: *final(progress), cleaned: final(cleaned_files)@ })
                == (crate::progress::Books {
                progress: *old(progress),
                cleaned: old(cleaned_files)@,
            }).after_map_file(
                old(self)@.victims[old(self)@.done],
                map_files@[old(self)@.victims[old(self)@.done]],
                page_files@,
            ),
    {
        broadcast use vstd::std_specs::hash::group_hash_axioms;

        assert(self.next < self.victims.len());
        let id = self.victims[self.next];
        let info = map_files.get(&id).unwrap();
        self.up2_sum = self.up2_sum + info.up2;
        cleaned_files.insert(FileId::MapFile(id));
        progress.track_map_file(info, page_files);
        self.next = self.next + 1;
        self.planned = false;
    }

    /// The update time of the new map file: the average over all files that
    /// went into it.
    pub fn up2(&self) -> (res: u32)
        requires
            self@.done == self@.victims.len(),
            0 < self@.victims.len() <= u32::MAX,
        ensures
            res == self@.up2_sum / self@.victims.len() as int,
    {
        self.up2_sum / (self.victims.len() as u32)
    }

    /// All map files have been compacted.
    pub fn finish(self) -> (res: CompactOutput)
        requires
            self@.done == self@.victims.len(),
        ensures
            res.new_file_id == self@.new_file_id,
            res.victims@ == self@.victims,
            res.num_active_pages == self@.num_active_pages,
            res.input_size == self@.input_size,
            res.output_size == self@.output_size,
            res.free_size == crate::progress::monus(self@.input_size, self@.output_size),
            res.stats.read_file_bytes == 0,
            res.stats.rewrite_input_bytes == 0,
            res.stats.rewrite_bytes == 0,
            res.stats.compact_input_bytes == self@.input_size,
            res.stats.compact_write_bytes == self@.output_size,
    {
        let stats = self.stats;
        CompactOutput {
            new_file_id: self.new_file_id,
            victims: self.victims,
            num_active_pages: stats.num_active_pages,
            input_size: stats.input_size,
            output_size: stats.output_size,
            free_size: stats.input_size.saturating_sub(stats.output_size),
            stats: JobStats {
                read_file_bytes: 0,
                rewrite_input_bytes: 0,
                rewrite_bytes: 0,
                compact_input_bytes: stats.input_size as u64,
                compact_write_bytes: stats.output_size as u64,
            },
        }
    }
}

impl CompactOutput {
    /// The change that puts the new map file in the place of the others.
    pub fn into_change(
        self,
        map_file: MapFileInfo,
        virtual_page_files: HashMap<u32, FileInfo>,
    ) -> (res: CompactChange)
        ensures
            res.file_id == self.new_file_id,
            res.map_file == map_file,
            res.virtual_page_files == virtual_page_files,
            res.victims@ == self.victims@.to_set(),
    {
        CompactChange {
            file_id: self.new_file_id,
            map_file,
            virtual_page_files,
            victims: set_of(&self.victims),
        }
    }
}

/// The totals of a compact job are the sums over the page files of all map files
/// that went into it.
pub proof fn law_compact_totals(
    new_file_id: u32,
    victims: Seq<u32>,
    files: Seq<(Set<u32>, u32)>,
    page_files: Map<u32, FileInfo>,
)
    ensures
        ({
            let end = CompactView::start(new_file_id, victims).after_all(files, page_files);
            &&& end.new_file_id == new_file_id
            &&& end.victims == victims
            &&& end.done == files.len()
            &&& !end.planned
            &&& end.num_active_pages == crate::collections::sum_seq(
                files,
                |f: (Set<u32>, u32)| total_active_pages(f.0, page_files),
            )
            &&& end.input_size == crate::collections::sum_seq(
                files,
                |f: (Set<u32>, u32)| total_page_size(f.0, page_files),
            )
            &&& end.output_size == crate::collections::sum_seq(
                files,
                |f: (Set<u32>, u32)| total_effective_size(f.0, page_files),
            )
            &&& end.up2_sum == crate::collections::sum_seq(
                files,
                |f: (Set<u32>, u32)| f.1 as nat,
            )
        }),
    decreases files.len(),
{
    if files.len() > 0 {
        law_compact_totals(new_file_id, victims, files.drop_last(), page_files);
    }
}

/// When all map files of a job have been compacted, the cleaned files are those of
/// before and the map files of the job, and the progress has tracked each of them
/// once.
pub proof fn law_compact_accounts_for_its_victims(
    books: crate::progress::Books,
    victims: Seq<u32>,
    page_files: Map<u32, FileInfo>,
    map_files: Map<u32, MapFileInfo>,
)
    ensures
        ({
            let files = victims.map_values(|id: u32| FileId::MapFile(id));
            let end = books.after_map_files(victims, page_files, map_files);
            &&& end.cleaned == books.cleaned.union(files.to_set())
            &&& end.progress == crate::progress::track_all(
                books.progress,
                page_files,
                map_files,
                files,
            )
        }),
    decreases victims.len(),
{
    let files = victims.map_values(|id: u32| FileId::MapFile(id));
    if victims.len() > 0 {
        let rest = victims.drop_last().map_values(|id: u32| FileId::MapFile(id));
        law_compact_accounts_for_its_victims(books, victims.drop_last(), page_files, map_files);
        assert(files.drop_last() =~= rest);
        crate::collections::lemma_last_to_set(files);
    } else {
        assert(files.to_set() =~= Set::empty());
    }
}

/// The update time of a new map file lies between the lowest and the highest
/// of the map files that went into it.
pub proof fn law_compact_up2_is_an_average(
    new_file_id: u32,
    victims: Seq<u32>,
    files: Seq<(Set<u32>, u32)>,
    page_files: Map<u32, FileInfo>,
    low: u32,
    high: u32,
)
    requires
        files.len() == victims.len(),
        victims.len() > 0,
        forall|i: int| 0 <= i < files.len() ==> low <= (#[trigger] files[i]).1 <= high,
    ensures
        ({
            let end = CompactView::start(new_file_id, victims).after_all(files, page_files);
            low <= end.up2_sum / victims.len() as int <= high
        }),
{
    law_compact_totals(new_file_id, victims, files, page_files);
    crate::collections::lemma_average(
        files,
        |f: (Set<u32>, u32)| f.1 as nat,
        low as nat,
        high as nat,
    );
}

/// Compacting a map file keeps every live page that it stores: the page is copied
/// once, under its own id and address.
pub proof fn law_compaction_keeps_live_pages(
    copies: Seq<FileCopy>,
    meta: MapFileMeta,
    page_files: Map<u32, FileInfo>,
    id: u32,
    i: int,
)
    requires
        copies_map_file(copies, meta, page_files),
        meta.file_ids@.contains(id),
        0 <= i < page_files[id].active_pages@.len(),
    ensures
        exists|c: int|
            0 <= c < copies.len() && (#[trigger] copies[c]).file_id == id && {
                let page = page_files[id].active_pages@[i];
                copies[c].pages@[i] == (PageCopy {
                    page_id: meta.page_tables@[id]@[page.page_addr],
                    page_addr: page.page_addr,
                    handle: page.handle,
                })
            },
        forall|c: int, d: int|
            0 <= c < copies.len() && 0 <= d < copies.len() && (#[trigger] copies[c]).file_id == (
            #[trigger] copies[d]).file_id ==> c == d,
{
    let ids = copies.map_values(|copy: FileCopy| copy.file_id);
    assert(ids.to_set().contains(id));
    let c = choose|c: int| 0 <= c < ids.len() && ids[c] == id;
    assert(copies[c].file_id == id);
    assert forall|c: int, d: int|
        0 <= c < copies.len() && 0 <= d < copies.len() && (#[trigger] copies[c]).file_id == (
        #[trigger] copies[d]).file_id implies c == d by {
        if c < d {
            assert(copies[c].file_id < copies[d].file_id);
        } else if d < c {
            assert(copies[d].file_id < copies[c].file_id);
        }
    }
}

/// Every page file adds to the totals its live pages, the size of all its pages and
/// the size of its live pages.
pub proof fn law_totals_by_page_file(ids: Set<u32>, page_files: Map<u32, FileInfo>, id: u32)
    requires
        ids.finite(),
        ids.contains(id),
    ensures
        total_active_pages(ids, page_files) == total_active_pages(ids.remove(id), page_files)
            + page_files[id].active_pages@.len(),
        total_page_size(ids, page_files) == total_page_size(ids.remove(id), page_files)
            + page_files[id].total_page_size,
        total_effective_size(ids, page_files) == total_effective_size(ids.remove(id), page_files)
            + page_files[id].effective_size,
        total_active_pages(Set::empty(), page_files) == 0,
        total_page_size(Set::empty(), page_files) == 0,
        total_effective_size(Set::empty(), page_files) == 0,
{
    lemma_totals_insert(ids.remove(id), id, page_files);
    assert(ids.remove(id).insert(id) =~= ids);
    assert(Set::<u32>::empty().len() == 0);
}

/// A compact job goes through exactly its victims, each once and by ascending id, and
/// starts with nothing counted.
pub proof fn law_compact_goes_through_its_victims(
    new_file_id: u32,
    victims: HashSet<u32>,
    job: CompactJob,
)
    requires
        call_ensures(compact_map_files, (new_file_id, &victims), job),
    ensures
        job@.new_file_id == new_file_id,
        forall|id: u32| #[trigger] victims@.contains(id) <==> job@.victims.contains(id),
        forall|i: int, j: int|
            0 <= i < j < job@.victims.len() ==> #[trigger] job@.victims[i]
                < #[trigger] job@.victims[j],
        job@.done == 0,
        !job@.planned,
        job@.num_active_pages == 0,
        job@.input_size == 0,
        job@.output_size == 0,
        job@.up2_sum == 0,
{
    assert forall|id: u32| #[trigger] victims@.contains(id) <==> job@.victims.contains(id) by {
        assert(job@.victims.to_set().contains(id) <==> job@.victims.contains(id));
    }
}

/// Every victim is compacted: the next one comes as long as there is one.
pub proof fn law_compact_leaves_no_victim_out(job: CompactJob, res: Option<u32>)
    requires
        call_ensures(CompactJob::next_victim, (&job,), res),
    ensures
        job@.done < job@.victims.len() ==> res == Some(job@.victims[job@.done]),
        job@.done >= job@.victims.len() ==> res is None,
{
}

/// The copies planned for a map file are those of its page files, each once and by
/// ascending id, and of each the live pages, one each and in their order.
pub proof fn law_compact_copies_the_live_pages(
    job: &mut CompactJob,
    meta: MapFileMeta,
    page_files: HashMap<u32, FileInfo>,
    copies: Vec<FileCopy>,
)
    requires
        call_ensures(CompactJob::compact_map_file, (job, &meta, &page_files), copies),
    ensures
        forall|id: u32| #[trigger]
            meta.file_ids@.contains(id) <==> exists|c: int|
                0 <= c < copies@.len() && #[trigger] copies@[c].file_id == id,
        forall|c: int, d: int|
            0 <= c < d < copies@.len() ==> #[trigger] copies@[c].file_id
                < #[trigger] copies@[d].file_id,
        forall|c: int|
            0 <= c < copies@.len() ==> (#[trigger] copies@[c]).pages@.len()
                == page_files@[copies@[c].file_id].active_pages@.len(),
        forall|c: int, i: int|
            0 <= c < copies@.len() && 0 <= i < copies@[c].pages@.len() ==> {
                let page = page_files@[copies@[c].file_id].active_pages@[i];
                &&& (#[trigger] copies@[c].pages@[i]).page_addr == page.page_addr
                &&& copies@[c].pages@[i].handle == page.handle
                &&& copies@[c].pages@[i].page_id
                    == meta.page_tables@[copies@[c].file_id]@[page.page_addr]
            },
{
    let ids = copies@.map_values(|copy: FileCopy| copy.file_id);
    assert forall|id: u32| #[trigger] meta.file_ids@.contains(id) <==> exists|c: int|
        0 <= c < copies@.len() && #[trigger] copies@[c].file_id == id by {
        assert(ids.to_set().contains(id) <==> ids.contains(id));
        if ids.contains(id) {
            let c = choose|c: int| 0 <= c < ids.len() && ids[c] == id;
            assert(copies@[c].file_id == id);
        }
        if exists|c: int| 0 <= c < copies@.len() && #[trigger] copies@[c].file_id == id {
            let c = choose|c: int| 0 <= c < copies@.len() && #[trigger] copies@[c].file_id == id;
            assert(ids[c] == id);
        }
    }
    assert forall|c: int, d: int| 0 <= c < d < copies@.len() implies #[trigger] copies@[c].file_id
        < #[trigger] copies@[d].file_id by {
        assert(copies@[c].file_id < copies@[d].file_id);
    }
}

/// Planning adds the page files of a map file to the totals, and changes nothing
/// else.
pub proof fn law_compact_counts_the_page_files(
    job: &mut CompactJob,
    meta: MapFileMeta,
    page_files: HashMap<u32, FileInfo>,
    copies: Vec<FileCopy>,
)
    requires
        call_ensures(CompactJob::compact_map_file, (job, &meta, &page_files), copies),
    ensures
        final(job)@.num_active_pages == old(job)@.num_active_pages + total_active_pages(
            meta.file_ids@,
            page_files@,
        ),
        final(job)@.input_size == old(job)@.input_size + total_page_size(
            meta.file_ids@,
            page_files@,
        ),
        final(job)@.output_size == old(job)@.output_size + total_effective_size(
            meta.file_ids@,
            page_files@,
        ),
        final(job)@.planned,
        final(job)@.new_file_id == old(job)@.new_file_id,
        final(job)@.victims == old(job)@.victims,
        final(job)@.done == old(job)@.done,
        final(job)@.up2_sum == old(job)@.up2_sum,
{
}

/// Compacting a map file moves on to the next, adds its update time, marks it as
/// cleaned and takes it off the progress.
pub proof fn law_compacted_file_is_counted(
    job: &mut CompactJob,
    map_files: HashMap<u32, MapFileInfo>,
    page_files: HashMap<u32, FileInfo>,
    progress: &mut ReclaimProgress,
    cleaned_files: &mut FileSet,
    alone: &mut ReclaimProgress,
)
    requires
        call_ensures(
            CompactJob::map_file_compacted,
            (job, &map_files, &page_files, progress, cleaned_files),
            (),
        ),
        *old(alone) == *old(progress),
        call_ensures(
            ReclaimProgress::track_map_file,
            (alone, &map_files@[old(job)@.victims[old(job)@.done]], &page_files),
            (),
        ),
    ensures
        ({
            let id = old(job)@.victims[old(job)@.done];
            &&& final(job)@.done == old(job)@.done + 1
            &&& final(job)@.up2_sum == old(job)@.up2_sum + map_files@[id].up2
            &&& final(cleaned_files)@ == old(cleaned_files)@.insert(FileId::MapFile(id))
        }),
        !final(job)@.planned,
        final(job)@.new_file_id == old(job)@.new_file_id,
        final(job)@.victims == old(job)@.victims,
        final(job)@.num_active_pages == old(job)@.num_active_pages,
        final(job)@.input_size == old(job)@.input_size,
        final(job)@.output_size == old(job)@.output_size,
        *final(progress) == *final(alone),
{
}

/// The outcome of a compact job is what was counted, and what was freed is the size
/// of the pages beyond the live ones.
pub proof fn law_compact_output_is_what_was_counted(job: CompactJob, up2: u32, res: CompactOutput)
    requires
        0 < job@.victims.len(),
        call_ensures(CompactJob::up2, (&job,), up2),
        call_ensures(CompactJob::finish, (job,), res),
    ensures
        res.new_file_id == job@.new_file_id,
        res.victims@ == job@.victims,
        res.num_active_pages == job@.num_active_pages,
        res.input_size == job@.input_size,
        res.output_size == job@.output_size,
        job@.input_size >= job@.output_size ==> res.free_size == job@.input_size
            - job@.output_size,
        job@.input_size < job@.output_size ==> res.free_size == 0,
        res.stats.compact_input_bytes == job@.input_size,
        res.stats.compact_write_bytes == job@.output_size,
        up2 * job@.victims.len() <= job@.up2_sum < (up2 + 1) * job@.victims.len(),
{
    let n = job@.victims.len() as int;
    let sum = job@.up2_sum;
    assert(sum / n * n <= sum < (sum / n + 1) * n) by (nonlinear_arith)
        requires
            n > 0,
    ;
}

/// The change that a compact job leads to replaces all of its victims.
pub proof fn law_compact_change_is_the_output(
    output: CompactOutput,
    map_file: MapFileInfo,
    virtual_page_files: HashMap<u32, FileInfo>,
    change: CompactChange,
)
    requires
        call_ensures(CompactOutput::into_change, (output, map_file, virtual_page_files), change),
    ensures
        change.file_id == output.new_file_id,
        change.map_file == map_file,
        change.virtual_page_files@ == virtual_page_files@,
        forall|id: u32| #[trigger] change.victims@.contains(id) <==> output.victims@.contains(id),
{
    assert forall|id: u32| #[trigger]
        change.victims@.contains(id) <==> output.victims@.contains(id) by {
        assert(output.victims@.to_set().contains(id) <==> output.victims@.contains(id));
    }
}

/// A map file is covered exactly if the version knows each of its page files, and
/// each has a page table that knows its live addresses.
pub proof fn law_map_file_is_covered_by_its_page_files(
    meta: MapFileMeta,
    page_files: HashMap<u32, FileInfo>,
    res: bool,
)
    requires
        call_ensures(MapFileMeta::is_covered, (&meta, &page_files), res),
    ensures
        res <==> forall|id: u32|
            (#[trigger] meta.file_ids@.contains(id)) ==> {
                &&& page_files@.contains_key(id)
                &&& meta.page_tables@.contains_key(id)
                &&& forall|i: int|
                    0 <= i < page_files@[id].active_pages@.len()
                        ==> meta.page_tables@[id]@.contains_key(
                        (#[trigger] page_files@[id].active_pages@[i]).page_addr,
                    )
            },
{
}

/// A map file fits unless one of the totals with it overflows.
pub proof fn law_compact_fits_unless_a_total_overflows(
    job: CompactJob,
    meta: MapFileMeta,
    page_files: HashMap<u32, FileInfo>,
    info: MapFileInfo,
    res: bool,
    up2: bool,
)
    requires
        call_ensures(CompactJob::fits, (&job, &meta, &page_files), res),
        call_ensures(CompactJob::fits_up2, (&job, &info), up2),
    ensures
        res <==> {
            &&& job@.num_active_pages + total_active_pages(meta.file_ids@, page_files@)
                <= usize::MAX
            &&& job@.input_size + total_page_size(meta.file_ids@, page_files@) <= usize::MAX
            &&& job@.output_size + total_effective_size(meta.file_ids@, page_files@) <= usize::MAX
        },
        up2 <==> job@.up2_sum + info.up2 <= u32::MAX,
{
}

/// Collecting a page file adds its live pages, the size of all its pages and the size
/// of its live pages.
pub proof fn law_collecting_adds_a_page_file(
    stats: &mut CompactStats,
    info: FileInfo,
    can_collect: bool,
)
    requires
        call_ensures(CompactStats::collect, (stats, &info), ()),
        call_ensures(CompactStats::can_collect, (&*old(stats), &info), can_collect),
    ensures
        can_collect <==> {
            &&& old(stats).num_active_pages + info.active_pages@.len() <= usize::MAX
            &&& old(stats).input_size + info.total_page_size <= usize::MAX
            &&& old(stats).output_size + info.effective_size <= usize::MAX
        },
        final(stats).num_active_pages - old(stats).num_active_pages == info.active_pages@.len(),
        final(stats).input_size - old(stats).input_size == info.total_page_size,
        final(stats).output_size - old(stats).output_size == info.effective_size,
{
}

} // verus!
