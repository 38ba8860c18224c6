//! Compounding page files into a new map file.

use std::collections::{BTreeMap, HashMap, HashSet};

use vstd::prelude::*;

use crate::collections::sorted_elements_of;
use crate::copy::{page_copies, PageCopy};
use crate::files::{FileId, FileInfo, FileSet, MapFileInfo};
use crate::install::CompoundChange;
use crate::progress::ReclaimProgress;
use crate::stats::JobStats;

verus! {

/// A set of page files that is being compounded, one after the other.
#[derive(Debug)]
pub struct CompoundJob {
    new_file_id: u32,
    victims: Vec<u32>,
    next: usize,
    planned: bool,
    num_active_pages: usize,
    num_dealloc_pages: usize,
    input_size: usize,
    output_size: usize,
    up2_sum: u32,
    obsoleted_files: Vec<u32>,
    dealloc_page_map: HashMap<u32, Vec<u64>>,
}

/// The state of compounding a set of page files.
#[verifier::ext_equal]
pub struct CompoundView {
    /// The map file that is being made.
    pub new_file_id: u32,
    /// The page files to compound, in order.
    pub victims: Seq<u32>,
    /// How many of them have been compounded.
    pub done: int,
    /// Whether the copies for the next one have been planned.
    pub planned: bool,
    pub num_active_pages: int,
    pub num_dealloc_pages: int,
    /// The size of the compounded files.
    pub input_size: int,
    /// The size of their live data.
    pub output_size: int,
    pub up2_sum: int,
    /// The compounded files that are no longer needed.
    pub obsoleted_files: Seq<u32>,
    /// The deallocated pages of the other compounded files.
    pub dealloc_page_map: Map<u32, Vec<u64>>,
}

/// The outcome of compounding a set of page files.
#[derive(Debug)]
pub struct CompoundOutput {
    pub new_file_id: u32,
    pub victims: Vec<u32>,
    pub num_active_pages: usize,
    pub num_dealloc_pages: usize,
    pub input_size: usize,
    pub output_size: usize,
    /// The size that was freed.
    pub free_size: usize,
    /// The files that can be deleted, since they have no deallocated pages.
    pub obsoleted_files: Vec<u32>,
    /// The deallocated pages that have to be recorded again before the other
    /// files can be deleted.
    pub dealloc_page_map: HashMap<u32, Vec<u64>>,
    pub stats: JobStats,
}

impl View for CompoundJob {
    type V = CompoundView;

    closed spec fn view(&self) -> CompoundView {
        CompoundView {
            new_file_id: self.new_file_id,
            victims: self.victims@,
            done: self.next as int,
            planned: self.planned,
            num_active_pages: self.num_active_pages as int,
            num_dealloc_pages: self.num_dealloc_pages as int,
            input_size: self.input_size as int,
            output_size: self.output_size as int,
            up2_sum: self.up2_sum as int,
            obsoleted_files: self.obsoleted_files@,
            dealloc_page_map: self.dealloc_page_map@,
        }
    }
}

impl CompoundView {
    /// Nothing has been compounded yet.
    pub open spec fn start(new_file_id: u32, victims: Seq<u32>) -> CompoundView {
        CompoundView {
            new_file_id,
            victims,
            done: 0,
            planned: false,
            num_active_pages: 0,
            num_dealloc_pages: 0,
            input_size: 0,
            output_size: 0,
            up2_sum: 0,
            obsoleted_files: Seq::empty(),
            dealloc_page_map: Map::empty(),
        }
    }

    /// The next page file has been compounded.
    pub open spec fn after(self, file: FileInfo, dealloc_pages: Vec<u64>) -> CompoundView {
        let id = self.victims[self.done];
        CompoundView {
            new_file_id: self.new_file_id,
            victims: self.victims,
            done: self.done + 1,
            planned: false,
            num_active_pages: self.num_active_pages + file.active_pages@.len(),
            num_dealloc_pages: self.num_dealloc_pages + dealloc_pages@.len(),
            input_size: self.input_size + file.file_size,
            output_size: self.output_size + file.effective_size,
            up2_sum: self.up2_sum + file.up2,
            obsoleted_files: if dealloc_pages@.len() == 0 {
                self.obsoleted_files.push(id)
            } else {
                self.obsoleted_files
            },
            dealloc_page_map: if dealloc_pages@.len() == 0 {
                self.dealloc_page_map
            } else {
                self.dealloc_page_map.insert(id, dealloc_pages)
            },
        }
    }

    /// Whether the totals with one more file fit in machine integers.
    pub open spec fn fits(self, file: FileInfo, dealloc_pages: Seq<u64>) -> bool {
        &&& self.num_active_pages + file.active_pages@.len() <= usize::MAX
        &&& self.num_dealloc_pages + dealloc_pages.len() <= usize::MAX
        &&& self.input_size + file.file_size <= usize::MAX
        &&& self.output_size + file.effective_size <= usize::MAX
        &&& self.up2_sum + file.up2 <= u32::MAX
    }

    /// The compounded files are split into those that can be deleted and those
    /// with deallocated pages.
    pub open spec fn splits(self) -> bool {
        &&& 0 <= self.done <= self.victims.len()
        &&& crate::collections::ascending(self.victims)
        &&& crate::collections::ascending(self.obsoleted_files)
        &&& forall|id: u32| #[trigger]
            self.obsoleted_files.contains(id) ==> !self.dealloc_page_map.contains_key(id)
        &&& forall|id: u32|
            #![trigger self.obsoleted_files.contains(id)]
            #![trigger self.dealloc_page_map.contains_key(id)]
            #![trigger self.victims.take(self.done).contains(id)]
            self.victims.take(self.done).contains(id) <==> self.obsoleted_files.contains(id)
                || self.dealloc_page_map.contains_key(id)
        &&& forall|id: u32| #[trigger]
            self.dealloc_page_map.contains_key(id) ==> self.dealloc_page_map[id]@.len() > 0
    }
}

/// Compounding one more file keeps the compounded files split.
proof fn lemma_after_splits(state: CompoundView, file: FileInfo, dealloc_pages: Vec<u64>)
    requires
        state.splits(),
        state.done < state.victims.len(),
    ensures
        state.after(file, dealloc_pages).splits(),
{
    let next = state.after(file, dealloc_pages);
    let id = state.victims[state.done];
    let done = state.victims.take(state.done);
    assert forall|k: u32| done.contains(k) implies k < id by {
        let j = choose|j: int| 0 <= j < done.len() && done[j] == k;
        assert(state.victims[j] == k);
    }
    assert forall|j: int| 0 <= j < state.obsoleted_files.len() implies state.obsoleted_files[j]
        < id by {
        assert(state.obsoleted_files.contains(state.obsoleted_files[j]));
    }
    assert(!state.dealloc_page_map.contains_key(id));
    assert forall|k: u32|
        next.victims.take(next.done).contains(k) <==> next.obsoleted_files.contains(k)
            || next.dealloc_page_map.contains_key(k) by {
        crate::collections::lemma_take_contains(state.victims, state.done, k);
        vstd::seq_lib::lemma_seq_contains_after_push(state.obsoleted_files, id, k);
    }
    assert forall|k: u32| #[trigger]
        next.obsoleted_files.contains(k) implies !next.dealloc_page_map.contains_key(k) by {
        vstd::seq_lib::lemma_seq_contains_after_push(state.obsoleted_files, id, k);
    }
}

/// Starts compounding a set of page files, by ascending id, into a new map file.
pub fn compound_page_files(new_file_id: u32, victims: &HashSet<u32>) -> (res: CompoundJob)
    ensures
        crate::collections::ascending(res@.victims),
        res@.victims.to_set() == victims@,
        res@ == CompoundView::start(new_file_id, res@.victims),
{
    let victims = sorted_elements_of(victims);
    CompoundJob {
        new_file_id,
        victims,
        next: 0,
        planned: false,
        num_active_pages: 0,
        num_dealloc_pages: 0,
        input_size: 0,
        output_size: 0,
        up2_sum: 0,
        obsoleted_files: Vec::new(),
        dealloc_page_map: HashMap::new(),
    }
}

impl CompoundJob {
    #[verifier::type_invariant]
    spec fn inv(self) -> bool {
        self@.splits()
    }

    /// The map file that is being made.
    pub fn new_file_id(&self) -> (res: u32)
        ensures
            res == self@.new_file_id,
    {
        self.new_file_id
    }

    /// Whether the totals with one more file fit in machine integers.
    pub fn fits(&self, file_info: &FileInfo, dealloc_pages: &Vec<u64>) -> (res: bool)
        ensures
            res == self@.fits(*file_info, dealloc_pages@),
    {
        file_info.num_active_pages() <= usize::MAX - self.num_active_pages && dealloc_pages.len()
            <= usize::MAX - self.num_dealloc_pages && file_info.file_size <= usize::MAX
            - self.input_size && file_info.effective_size <= usize::MAX - self.output_size
            && file_info.up2 <= u32::MAX - self.up2_sum
    }

    /// The page file to compound next.
    pub fn next_victim(&self) -> (res: Option<u32>)
        ensures
            self@.done <= self@.victims.len(),
            res == if self@.done < self@.victims.len() {
                Some(self@.victims[self@.done])
            } else {
                None
            },
    {
        proof {
            use_type_invariant(self);
        }
        if self.next < self.victims.len() {
            Some(self.victims[self.next])
        } else {
            None
        }
    }

    /// Plans the copies for the next page file: all of its live pages, and none of
    /// the deallocated ones.
    pub fn compound_partial_page_file(
        &mut self,
        file_infos: &HashMap<u32, FileInfo>,
        page_table: &BTreeMap<u64, u64>,
    ) -> (res: Vec<PageCopy>)
        requires
            old(self)@.done < old(self)@.victims.len(),
            !old(self)@.planned,
            file_infos@.contains_key(old(self)@.victims[old(self)@.done]),
            crate::rewrite::maps_active_pages(
                file_infos@[old(self)@.victims[old(self)@.done]],
                page_table@,
            ),
        ensures
            res@ == crate::copy::copies_of(
                file_infos@[old(self)@.victims[old(self)@.done]],
                page_table@,
            ),
            final(self)@ == (CompoundView { planned: true, ..old(self)@ }),
    {
        broadcast use vstd::std_specs::hash::group_hash_axioms;

        proof {
            use_type_invariant(&*self);
        }
        assert(self.next < self.victims.len());
        let file_info = file_infos.get(&self.victims[self.next]).unwrap();
        let copies = page_copies(file_info, page_table);
        self.planned = true;
        copies
    }

    /// The live pages of the next page file are in the map file. The file is
    /// accounted for and marked as cleaned.
    pub fn page_file_compounded(
        self,
        file_infos: &HashMap<u32, FileInfo>,
        dealloc_pages: Vec<u64>,
        progress: &mut ReclaimProgress,
        cleaned_files: &mut FileSet,
    ) -> (res: CompoundJob)
        requires
            self@.done < self@.victims.len(),
            self@.planned,
            file_infos@.contains_key(self@.victims[self@.done]),
            self@.fits(file_infos@[self@.victims[self@.done]], dealloc_pages@),
            file_infos@[self@.victims[self@.done]].map_file_id is None,
        ensures
            res@ == self@.after(file_infos@[self@.victims[self@.done]], dealloc_pages),
            (crate::progress::Books { progress: *final(progress), cleaned: final(cleaned_files)@ })
                == (crate::progress::Books {
                progress: *old(progress),
                cleaned: old(cleaned_files)@,
            }).after_page_file(
                self@.victims[self@.done],
                file_infos@[self@.victims[self@.done]],
            ),
    {
        broadcast use vstd::std_specs::hash::group_hash_axioms;

        proof {
            use_type_invariant(&self);
            lemma_after_splits(self@, file_infos@[self@.victims[self@.done]], dealloc_pages);
        }
        assert(self.next < self.victims.len());
        let id = self.victims[self.next];
        let file_info = file_infos.get(&id).unwrap();
        let num_dealloc_pages = self.num_dealloc_pages + dealloc_pages.len();
        let mut obsoleted_files = self.obsoleted_files;
        let mut dealloc_page_map = self.dealloc_page_map;
        if dealloc_pages.len() == 0 {
            obsoleted_files.push(id);
        } else {
            dealloc_page_map.insert(id, dealloc_pages);
        }
        progress.track_page_file(file_info);
        cleaned_files.insert(FileId::Page(id));
        CompoundJob {
            new_file_id: self.new_file_id,
            victims: self.victims,
            next: self.next + 1,
            planned: false,
            num_active_pages: self.num_active_pages + file_info.num_active_pages(),
            num_dealloc_pages,
            input_size: self.input_size + file_info.file_size,
            output_size: self.output_size + file_info.effective_size,
            up2_sum: self.up2_sum + file_info.up2,
            obsoleted_files,
            dealloc_page_map,
        }
    }

    /// The update time of the new map file: the average over all files that
    /// went into it.
    pub fn up2(&self) -> (res: u32)
        requires
            self@.done == self@.victims.len(),
            0 < self@.victims.len() <= u32::MAX,
        ensures
            res == self@.up2_sum / self@.victims.len() as int,
    {
        self.up2_sum / (self.victims.len() as u32)
    }

    /// All page files have been compounded.
    pub fn finish(self) -> (res: CompoundOutput)
        requires
            self@.done == self@.victims.len(),
        ensures
            res.new_file_id == self@.new_file_id,
            res.victims@ == self@.victims,
            res.num_active_pages == self@.num_active_pages,
            res.num_dealloc_pages == self@.num_dealloc_pages,
            res.input_size == self@.input_size,
            res.output_size == self@.output_size,
            res.free_size == crate::progress::monus(self@.input_size, self@.output_size),
            res.obsoleted_files@ == self@.obsoleted_files,
            res.dealloc_page_map@ == self@.dealloc_page_map,
            res.stats.read_file_bytes == 0,
            res.stats.rewrite_input_bytes == 0,
            res.stats.rewrite_bytes == 0,
            res.stats.compact_input_bytes == self@.input_size,
            res.stats.compact_write_bytes == self@.output_size,
            self@.splits(),
    {
        proof {
            use_type_invariant(&self);
        }
        CompoundOutput {
            new_file_id: self.new_file_id,
            victims: self.victims,
            num_active_pages: self.num_active_pages,
            num_dealloc_pages: self.num_dealloc_pages,
            input_size: self.input_size,
            output_size: self.output_size,
            free_size: self.input_size.saturating_sub(self.output_size),
            obsoleted_files: self.obsoleted_files,
            dealloc_page_map: self.dealloc_page_map,
            stats: JobStats {
                read_file_bytes: 0,
                rewrite_input_bytes: 0,
                rewrite_bytes: 0,
                compact_input_bytes: self.input_size as u64,
                compact_write_bytes: self.output_size as u64,
            },
        }
    }
}

impl CompoundOutput {
    /// The change that puts the new map file in place.
    pub fn into_change(
        self,
        map_file: MapFileInfo,
        virtual_page_files: HashMap<u32, FileInfo>,
    ) -> (res: CompoundChange)
        ensures
            res.file_id == self.new_file_id,
            res.map_file == map_file,
            res.virtual_page_files == virtual_page_files,
            res.obsoleted_files == self.obsoleted_files,
            res.dealloc_page_map == self.dealloc_page_map,
    {
        CompoundChange {
            file_id: self.new_file_id,
            map_file,
            virtual_page_files,
            obsoleted_files: self.obsoleted_files,
            dealloc_page_map: self.dealloc_page_map,
        }
    }
}

impl CompoundView {
    /// The state after several page files, each with its deallocated pages.
    pub open spec fn after_all(self, files: Seq<(FileInfo, Vec<u64>)>) -> CompoundView
        decreases files.len(),
    {
        if files.len() == 0 {
            self
        } else {
            self.after_all(files.drop_last()).after(files.last().0, files.last().1)
        }
    }
}

/// The totals of a compound job are the sums over the files that went into it.
pub proof fn law_compound_totals(new_file_id: u32, victims: Seq<u32>, files: Seq<(FileInfo, Vec<u64>)>)
    ensures
        ({
            let end = CompoundView::start(new_file_id, victims).after_all(files);
            &&& end.victims == victims
            &&& end.done == files.len()
            &&& end.num_active_pages == crate::collections::sum_seq(
                files,
                |f: (FileInfo, Vec<u64>)| f.0.active_pages@.len(),
            )
            &&& end.num_dealloc_pages == crate::collections::sum_seq(
                files,
                |f: (FileInfo, Vec<u64>)| f.1@.len(),
            )
            &&& end.input_size == crate::collections::sum_seq(
                files,
                |f: (FileInfo, Vec<u64>)| f.0.file_size as nat,
            )
            &&& end.output_size == crate::collections::sum_seq(
                files,
                |f: (FileInfo, Vec<u64>)| f.0.effective_size as nat,
            )
            &&& end.up2_sum == crate::collections::sum_seq(
                files,
                |f: (FileInfo, Vec<u64>)| f.0.up2 as nat,
            )
        }),
    decreases files.len(),
{
    if files.len() > 0 {
        law_compound_totals(new_file_id, victims, files.drop_last());
    }
}

/// When all page files of a job have been compounded, the cleaned files are those
/// of before and the page files of the job, and the progress has tracked each of
/// them once.
pub proof fn law_compound_accounts_for_its_victims(
    books: crate::progress::Books,
    victims: Seq<u32>,
    page_files: Map<u32, FileInfo>,
    map_files: Map<u32, MapFileInfo>,
)
    ensures
        ({
            let files = victims.map_values(|id: u32| FileId::Page(id));
            let end = books.after_page_files(victims, page_files);
            &&& end.cleaned == books.cleaned.union(files.to_set())
            &&& end.progress == crate::progress::track_all(
                books.progress,
                page_files,
                map_files,
                files,
            )
        }),
    decreases victims.len(),
{
    let files = victims.map_values(|id: u32| FileId::Page(id));
    if victims.len() > 0 {
        let rest = victims.drop_last().map_values(|id: u32| FileId::Page(id));
        law_compound_accounts_for_its_victims(
            books,
            victims.drop_last(),
            page_files,
            map_files,
        );
        assert(files.drop_last() =~= rest);
        crate::collections::lemma_last_to_set(files);
    } else {
        assert(files.to_set() =~= Set::empty());
    }
}

/// When all page files of a job have been compounded, each of them can either
/// be deleted or has deallocated pages that must be recorded first, and never
/// both.
pub proof fn law_compound_splits_victims(
    new_file_id: u32,
    victims: Seq<u32>,
    files: Seq<(FileInfo, Vec<u64>)>,
)
    requires
        crate::collections::ascending(victims),
        files.len() == victims.len(),
    ensures
        ({
            let end = CompoundView::start(new_file_id, victims).after_all(files);
            &&& end.obsoleted_files.to_set().union(end.dealloc_page_map.dom()) == victims.to_set()
            &&& end.obsoleted_files.to_set().disjoint(end.dealloc_page_map.dom())
            &&& forall|i: int|
                0 <= i < victims.len() ==> {
                    &&& end.obsoleted_files.contains(victims[i]) <==> (#[trigger] files[i]).1@.len()
                        == 0
                    &&& files[i].1@.len() > 0 ==> end.dealloc_page_map.contains_pair(
                        victims[i],
                        files[i].1,
                    )
                }
        }),
{
    let end = CompoundView::start(new_file_id, victims).after_all(files);
    lemma_split_prefix(new_file_id, victims, files);
    law_compound_totals(new_file_id, victims, files);
    assert(victims.take(victims.len() as int) =~= victims);
    assert(end.obsoleted_files.to_set().union(end.dealloc_page_map.dom()) =~= victims.to_set());
    assert forall|i: int| 0 <= i < victims.len() implies {
        &&& end.obsoleted_files.contains(victims[i]) <==> (#[trigger] files[i]).1@.len() == 0
        &&& files[i].1@.len() > 0 ==> end.dealloc_page_map.contains_pair(victims[i], files[i].1)
    } by {
        assert(victims.contains(victims[i]));
    }
}

proof fn lemma_split_prefix(
    new_file_id: u32,
    victims: Seq<u32>,
    files: Seq<(FileInfo, Vec<u64>)>,
)
    requires
        crate::collections::ascending(victims),
        files.len() <= victims.len(),
    ensures
        ({
            let end = CompoundView::start(new_file_id, victims).after_all(files);
            &&& end.victims == victims
            &&& end.done == files.len()
            &&& end.splits()
            &&& forall|i: int|
                0 <= i < files.len() ==> {
                    &&& (#[trigger] files[i]).1@.len() == 0 ==> end.obsoleted_files.contains(
                        victims[i],
                    )
                    &&& files[i].1@.len() > 0 ==> end.dealloc_page_map.contains_pair(
                        victims[i],
                        files[i].1,
                    )
                }
        }),
    decreases files.len(),
{
    let end = CompoundView::start(new_file_id, victims).after_all(files);
    if files.len() > 0 {
        let rest = files.drop_last();
        let before = CompoundView::start(new_file_id, victims).after_all(rest);
        lemma_split_prefix(new_file_id, victims, rest);
        lemma_after_splits(before, files.last().0, files.last().1);
        assert forall|i: int| 0 <= i < files.len() implies {
            &&& (#[trigger] files[i]).1@.len() == 0 ==> end.obsoleted_files.contains(victims[i])
            &&& files[i].1@.len() > 0 ==> end.dealloc_page_map.contains_pair(victims[i], files[i].1)
        } by {
            if i < rest.len() {
                assert(rest[i] == files[i]);
                vstd::seq_lib::lemma_seq_contains_after_push(
                    before.obsoleted_files,
                    victims[before.done],
                    victims[i],
                );
                assert(victims[i] < victims[before.done]);
            } else {
                vstd::seq_lib::lemma_seq_contains_after_push(
                    before.obsoleted_files,
                    victims[before.done],
                    victims[i],
                );
            }
        }
    } else {
        assert(victims.take(0) =~= Seq::empty());
    }
}

/// The update time of a new map file lies between the lowest and the highest
/// of the page files that went into it.
pub proof fn law_compound_up2_is_an_average(
    new_file_id: u32,
    victims: Seq<u32>,
    files: Seq<(FileInfo, Vec<u64>)>,
    low: u32,
    high: u32,
)
    requires
        files.len() == victims.len(),
        victims.len() > 0,
        forall|i: int| 0 <= i < files.len() ==> low <= (#[trigger] files[i]).0.up2 <= high,
    ensures
        ({
            let end = CompoundView::start(new_file_id, victims).after_all(files);
            low <= end.up2_sum / victims.len() as int <= high
        }),
{
    law_compound_totals(new_file_id, victims, files);
    crate::collections::lemma_average(
        files,
        |f: (FileInfo, Vec<u64>)| f.0.up2 as nat,
        low as nat,
        high as nat,
    );
}

/// A compound job goes through exactly its victims, each once and by ascending id,
/// and starts with nothing counted.
pub proof fn law_compound_goes_through_its_victims(
    new_file_id: u32,
    victims: HashSet<u32>,
    job: CompoundJob,
)
    requires
        call_ensures(compound_page_files, (new_file_id, &victims), job),
    ensures
        job@.new_file_id == new_file_id,
        forall|id: u32| #[trigger] victims@.contains(id) <==> job@.victims.contains(id),
        forall|i: int, j: int|
            0 <= i < j < job@.victims.len() ==> #[trigger] job@.victims[i]
                < #[trigger] job@.victims[j],
        job@.done == 0,
        !job@.planned,
        job@.num_active_pages == 0,
        job@.num_dealloc_pages == 0,
        job@.input_size == 0,
        job@.output_size == 0,
        job@.up2_sum == 0,
        job@.obsoleted_files.len() == 0,
        forall|id: u32| !(#[trigger] job@.dealloc_page_map.contains_key(id)),
{
    assert forall|id: u32| #[trigger] victims@.contains(id) <==> job@.victims.contains(id) by {
        assert(job@.victims.to_set().contains(id) <==> job@.victims.contains(id));
    }
}

/// Every victim is compounded: the next one comes as long as there is one.
pub proof fn law_compound_leaves_no_victim_out(job: CompoundJob, res: Option<u32>)
    requires
        call_ensures(CompoundJob::next_victim, (&job,), res),
    ensures
        job@.done < job@.victims.len() ==> res == Some(job@.victims[job@.done]),
        job@.done >= job@.victims.len() ==> res is None,
{
}

/// The copies planned for a page file are its live pages, one each and in their
/// order.
pub proof fn law_compound_copies_the_live_pages(
    job: &mut CompoundJob,
    file_infos: HashMap<u32, FileInfo>,
    page_table: BTreeMap<u64, u64>,
    copies: Vec<PageCopy>,
)
    requires
        call_ensures(
            CompoundJob::compound_partial_page_file,
            (job, &file_infos, &page_table),
            copies,
        ),
    ensures
        ({
            let pages = file_infos@[old(job)@.victims[old(job)@.done]].active_pages@;
            &&& copies@.len() == pages.len()
            &&& forall|i: int|
                0 <= i < pages.len() ==> {
                    &&& (#[trigger] copies@[i]).page_addr == pages[i].page_addr
                    &&& copies@[i].handle == pages[i].handle
                    &&& copies@[i].page_id == page_table@[pages[i].page_addr]
                }
        }),
        final(job)@.planned,
        final(job)@.done == old(job)@.done,
        final(job)@.victims == old(job)@.victims,
{
}

/// Compounding a page file counts all of it, marks it as cleaned, takes it off the
/// progress, and sets it aside: as obsolete if it has no deallocated pages, with its
/// deallocated pages otherwise.
pub proof fn law_compounded_file_is_counted(
    job: CompoundJob,
    file_infos: HashMap<u32, FileInfo>,
    dealloc_pages: Vec<u64>,
    progress: &mut ReclaimProgress,
    cleaned_files: &mut FileSet,
    alone: &mut ReclaimProgress,
    res: CompoundJob,
)
    requires
        call_ensures(
            CompoundJob::page_file_compounded,
            (job, &file_infos, dealloc_pages, progress, cleaned_files),
            res,
        ),
        *old(alone) == *old(progress),
        call_ensures(
            ReclaimProgress::track_page_file,
            (alone, &file_infos@[job@.victims[job@.done]]),
            (),
        ),
    ensures
        ({
            let id = job@.victims[job@.done];
            let file = file_infos@[id];
            &&& res@.new_file_id == job@.new_file_id
            &&& res@.victims == job@.victims
            &&& res@.done == job@.done + 1
            &&& !res@.planned
            &&& res@.num_active_pages == job@.num_active_pages + file.active_pages@.len()
            &&& res@.num_dealloc_pages == job@.num_dealloc_pages + dealloc_pages@.len()
            &&& res@.input_size == job@.input_size + file.file_size
            &&& res@.output_size == job@.output_size + file.effective_size
            &&& res@.up2_sum == job@.up2_sum + file.up2
            &&& dealloc_pages@.len() == 0 ==> res@.obsoleted_files == job@.obsoleted_files.push(id)
                && res@.dealloc_page_map == job@.dealloc_page_map
            &&& dealloc_pages@.len() > 0 ==> res@.obsoleted_files == job@.obsoleted_files
                && res@.dealloc_page_map == job@.dealloc_page_map.insert(id, dealloc_pages)
            &&& final(cleaned_files)@ == old(cleaned_files)@.insert(FileId::Page(id))
            &&& *final(progress) == *final(alone)
        }),
{
}

/// The outcome of a compound job is what was counted, and what was freed is what the
/// files took up beyond their live data.
pub proof fn law_compound_output_is_what_was_counted(job: CompoundJob, up2: u32, res: CompoundOutput)
    requires
        0 < job@.victims.len(),
        call_ensures(CompoundJob::up2, (&job,), up2),
        call_ensures(CompoundJob::finish, (job,), res),
    ensures
        res.new_file_id == job@.new_file_id,
        res.victims@ == job@.victims,
        res.num_active_pages == job@.num_active_pages,
        res.num_dealloc_pages == job@.num_dealloc_pages,
        res.input_size == job@.input_size,
        res.output_size == job@.output_size,
        job@.input_size >= job@.output_size ==> res.free_size == job@.input_size
            - job@.output_size,
        job@.input_size < job@.output_size ==> res.free_size == 0,
        res.obsoleted_files@ == job@.obsoleted_files,
        res.dealloc_page_map@ == job@.dealloc_page_map,
        res.stats.compact_input_bytes == job@.input_size,
        res.stats.compact_write_bytes == job@.output_size,
        up2 * job@.victims.len() <= job@.up2_sum < (up2 + 1) * job@.victims.len(),
{
    let n = job@.victims.len() as int;
    let sum = job@.up2_sum;
    assert(sum / n * n <= sum < (sum / n + 1) * n) by (nonlinear_arith)
        requires
            n > 0,
    ;
}

/// The change that a compound job leads to holds what the job set aside.
pub proof fn law_compound_change_is_the_output(
    output: CompoundOutput,
    map_file: MapFileInfo,
    virtual_page_files: HashMap<u32, FileInfo>,
    change: CompoundChange,
)
    requires
        call_ensures(CompoundOutput::into_change, (output, map_file, virtual_page_files), change),
    ensures
        change.file_id == output.new_file_id,
        change.map_file == map_file,
        change.virtual_page_files@ == virtual_page_files@,
        change.obsoleted_files@ == output.obsoleted_files@,
        change.dealloc_page_map@ == output.dealloc_page_map@,
{
}

/// A page file fits unless one of the totals with it overflows.
pub proof fn law_compound_fits_unless_a_total_overflows(
    job: CompoundJob,
    file: FileInfo,
    dealloc_pages: Vec<u64>,
    res: bool,
)
    requires
        call_ensures(CompoundJob::fits, (&job, &file, &dealloc_pages), res),
    ensures
        res <==> {
            &&& job@.num_active_pages + file.active_pages@.len() <= usize::MAX
            &&& job@.num_dealloc_pages + dealloc_pages@.len() <= usize::MAX
            &&& job@.input_size + file.file_size <= usize::MAX
            &&& job@.output_size + file.effective_size <= usize::MAX
            &&& job@.up2_sum + file.up2 <= u32::MAX
        },
{
}

} // verus!
