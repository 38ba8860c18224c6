//! The state of the reclaiming task.

use std::collections::{HashMap, HashSet};

use vstd::prelude::*;

use crate::collections::keys_of;
use crate::compact::{compact_map_files, CompactJob};
use crate::compound::{compound_page_files, CompoundJob};
use crate::files::{FileId, FileInfo, FileSet, MapFileInfo, Version};
use crate::options::Options;
use crate::orphan::OrphanJob;
use crate::progress::{ReclaimProgress, ReclaimTrace};
use crate::strategy::StrategyFiles;

verus! {

/// What the reclaiming task keeps from one version to the next.
#[derive(Debug)]
pub struct ReclaimCtx {
    options: Options,
    next_map_file_id: u32,
    cleaned_files: FileSet,
    orphan_page_files: HashSet<u32>,
}

/// What the reclaiming task keeps from one version to the next.
#[verifier::ext_equal]
pub struct ReclaimCtxView {
    pub options: Options,
    /// The id of the next map file.
    pub next_map_file_id: u32,
    /// The files that have been reclaimed and may still be part of a version.
    pub cleaned_files: Set<FileId>,
    /// The page files that a crash left behind.
    pub orphan_page_files: Set<u32>,
}

/// The files that one pass over a version starts from.
#[derive(Debug)]
pub struct ReclaimPass {
    /// The files that had been reclaimed before.
    pub cleaned_files: FileSet,
    /// The page files without live pages, to be rewritten whatever the strategy.
    pub empty_files: Vec<u32>,
}

/// The verdict on a version.
#[derive(Debug, Clone, Copy, PartialEq, Eq, Structural)]
pub struct Verdict {
    pub progress: ReclaimProgress,
    pub trace: ReclaimTrace,
    pub reclaimable: bool,
}

/// A list of page files to rewrite, one after the other.
#[derive(Debug)]
pub struct RewriteQueue {
    files: Vec<u32>,
    next: usize,
}

impl View for ReclaimCtx {
    type V = ReclaimCtxView;

    closed spec fn view(&self) -> ReclaimCtxView {
        ReclaimCtxView {
            options: self.options,
            next_map_file_id: self.next_map_file_id,
            cleaned_files: self.cleaned_files@,
            orphan_page_files: self.orphan_page_files@,
        }
    }
}

/// Whether the version has the file.
pub open spec fn has_file(version: Version, file: FileId) -> bool {
    match file {
        FileId::Page(id) => version.page_files@.contains_key(id),
        FileId::MapFile(id) => version.map_files@.contains_key(id),
    }
}

/// The page files of a version that have been cleaned.
pub open spec fn cleaned_page_files(version: Version, cleaned: Set<FileId>) -> Set<FileId> {
    cleaned.filter(
        |file: FileId| file matches FileId::Page(id) && version.page_files@.contains_key(id),
    )
}

/// The map files of a version that have been cleaned.
pub open spec fn cleaned_map_files(version: Version, cleaned: Set<FileId>) -> Set<FileId> {
    cleaned.filter(
        |file: FileId| file matches FileId::MapFile(id) && version.map_files@.contains_key(id),
    )
}

/// Whether a page file is reclaimed without asking the strategy: it has no live
/// pages, is not virtual and has not been cleaned.
pub open spec fn is_empty_page_file(id: u32, info: FileInfo, cleaned: Set<FileId>) -> bool {
    &&& !cleaned.contains(FileId::Page(id))
    &&& info.active_pages@.len() == 0
    &&& info.map_file_id is None
}

/// The page files of a version to reclaim without asking the strategy.
pub open spec fn empty_page_files(version: Version, cleaned: Set<FileId>) -> Set<u32> {
    version.page_files@.dom().filter(
        |id: u32| is_empty_page_file(id, version.page_files@[id], cleaned),
    )
}

/// The page files of a version among which the strategy picks.
pub open spec fn candidate_page_files(version: Version, cleaned: Set<FileId>) -> Set<u32> {
    version.page_files@.dom().filter(
        |id: u32| crate::strategy::is_candidate(id, version.page_files@[id], cleaned),
    )
}

/// The map files of a version among which the strategy picks.
pub open spec fn candidate_map_files(version: Version, cleaned: Set<FileId>) -> Set<u32> {
    version.map_files@.dom().filter(|id: u32| !cleaned.contains(FileId::MapFile(id)))
}

/// The cleaned files that are page files with one of the ids.
spec fn listed_pages(ids: Seq<u32>, cleaned: Set<FileId>) -> Set<FileId> {
    cleaned.filter(|file: FileId| file matches FileId::Page(id) && ids.contains(id))
}

/// The cleaned files that are map files with one of the ids.
spec fn listed_map_files(ids: Seq<u32>, cleaned: Set<FileId>) -> Set<FileId> {
    cleaned.filter(|file: FileId| file matches FileId::MapFile(id) && ids.contains(id))
}

impl ReclaimCtx {
    /// The state at the start of the store.
    pub fn new(options: Options, next_map_file_id: u32, orphan_page_files: HashSet<u32>) -> (res:
        ReclaimCtx)
        ensures
            res@ == (ReclaimCtxView {
                options,
                next_map_file_id,
                cleaned_files: Set::empty(),
                orphan_page_files: orphan_page_files@,
            }),
    {
        ReclaimCtx { options, next_map_file_id, cleaned_files: FileSet::new(), orphan_page_files }
    }

    /// The options of the store.
    pub fn options(&self) -> (res: &Options)
        ensures
            *res == self@.options,
    {
        &self.options
    }

    /// Starts a pass over a version. Cleaned files that are no longer part of
    /// the version are forgotten.
    pub fn reclaim(&mut self, version: &Version) -> (res: ReclaimPass)
        ensures
            res.cleaned_files@ == old(self)@.cleaned_files,
            res.empty_files@.no_duplicates(),
            res.empty_files@.to_set() == empty_page_files(*version, old(self)@.cleaned_files),
            final(self)@ == (ReclaimCtxView {
                cleaned_files: cleaned_page_files(*version, old(self)@.cleaned_files),
                ..old(self)@
            }),
    {
        let mut cleaned_files = FileSet::new();
        std::mem::swap(&mut cleaned_files, &mut self.cleaned_files);
        let empty_files = self.pick_empty_page_files(version, &cleaned_files);
        assert(self@.cleaned_files =~= cleaned_page_files(*version, old(self)@.cleaned_files));
        ReclaimPass { cleaned_files, empty_files }
    }

    /// Picks the page files that can go without asking the strategy, and
    /// remembers those that have been cleaned.
    pub fn pick_empty_page_files(&mut self, version: &Version, cleaned_files: &FileSet) -> (res: Vec<
        u32,
    >)
        ensures
            res@.no_duplicates(),
            res@.to_set() == empty_page_files(*version, cleaned_files@),
            final(self)@ == (ReclaimCtxView {
                cleaned_files: old(self)@.cleaned_files.union(
                    cleaned_page_files(*version, cleaned_files@),
                ),
                ..old(self)@
            }),
    {
        broadcast use vstd::std_specs::hash::group_hash_axioms;

        let ids = keys_of(&version.page_files);
        let ghost pred = |id: u32| is_empty_page_file(id, version.page_files@[id], cleaned_files@);
        let mut empty_files: Vec<u32> = Vec::new();
        for i in 0..ids.len()
            invariant
                ids@.no_duplicates(),
                ids@.to_set() == version.page_files@.dom(),
                pred == (|id: u32| is_empty_page_file(id, version.page_files@[id], cleaned_files@)),
                empty_files@ == ids@.take(i as int).filter(pred),
                self@ == (ReclaimCtxView {
                    cleaned_files: old(self)@.cleaned_files.union(
                        listed_pages(ids@.take(i as int), cleaned_files@),
                    ),
                    ..old(self)@
                }),
        {
            let id = ids[i];
            proof {
                assert(ids@.to_set().contains(id));
                lemma_next_id(ids@, i as int);
                assert(ids@.take(i + 1).drop_last() =~= ids@.take(i as int));
                reveal(Seq::filter);
            }
            let info = version.page_files.get(&id).unwrap();
            if cleaned_files.contains(&FileId::Page(id)) {
                self.cleaned_files.insert(FileId::Page(id));
            } else if info.is_empty() && info.map_file_id.is_none() {
                empty_files.push(id);
            }
            proof {
                assert(self@.cleaned_files =~= old(self)@.cleaned_files.union(
                    listed_pages(ids@.take(i + 1), cleaned_files@),
                ));
            }
        }
        proof {
            lemma_all_ids(ids@, version.page_files@.dom());
            lemma_filter_ids(ids@, version.page_files@.dom(), pred);
            assert(ids@.take(ids@.len() as int) =~= ids@);
            assert(empty_files@.to_set() =~= empty_page_files(*version, cleaned_files@));
            assert(self@.cleaned_files =~= old(self)@.cleaned_files.union(
                cleaned_page_files(*version, cleaned_files@),
            ));
        }
        empty_files
    }

    /// Judges whether space has to be reclaimed beyond the empty page files.
    pub fn judge(&self, version: &Version, cleaned_files: &FileSet) -> (res: Verdict)
        requires
            ReclaimProgress::measurable(version.page_files@, version.map_files@, cleaned_files@),
            ReclaimProgress::measured(
                self@.options,
                version.page_files@,
                version.map_files@,
                cleaned_files@,
            ).decidable(),
        ensures
            res.progress == ReclaimProgress::measured(
                self@.options,
                version.page_files@,
                version.map_files@,
                cleaned_files@,
            ),
            res.trace == res.progress.trace(),
            res.reclaimable == (res.progress.high_space_usage() || res.progress.large_space_amp()),
    {
        let progress = ReclaimProgress::new(&self.options, version, cleaned_files);
        Verdict {
            progress,
            trace: progress.trace_log(),
            reclaimable: progress.is_reclaimable(),
        }
    }

    /// Whether a page file still has to be rewritten.
    pub fn needs_rewrite(&self, file_id: u32) -> (res: bool)
        ensures
            res == !self@.cleaned_files.contains(FileId::Page(file_id)),
    {
        !self.cleaned_files.contains(&FileId::Page(file_id))
    }

    /// A page file has been rewritten, outside of any strategy. It is marked as
    /// cleaned.
    pub fn rewrite_file(&mut self, file_id: u32, page_files: &HashMap<u32, FileInfo>)
        requires
            old(self)@.cleaned_files.contains(FileId::Page(file_id)) || page_files@.contains_key(
                file_id,
            ),
        ensures
            final(self)@ == (ReclaimCtxView {
                cleaned_files: old(self)@.cleaned_files.insert(FileId::Page(file_id)),
                ..old(self)@
            }),
    {
        self.cleaned_files.insert(FileId::Page(file_id));
    }

    /// A page file has been rewritten. It is accounted for and marked as
    /// cleaned. A file that had been cleaned before is not accounted for again.
    pub fn rewrite_file_with_progress(
        &mut self,
        progress: &mut ReclaimProgress,
        file_id: u32,
        page_files: &HashMap<u32, FileInfo>,
    )
        requires
            !old(self)@.cleaned_files.contains(FileId::Page(file_id)) ==> page_files@.contains_key(
                file_id,
            ) && page_files@[file_id].map_file_id is None,
        ensures
            final(self)@ == (ReclaimCtxView {
                cleaned_files: old(self)@.cleaned_files.insert(FileId::Page(file_id)),
                ..old(self)@
            }),
            *final(progress) == if old(self)@.cleaned_files.contains(FileId::Page(file_id)) {
                *old(progress)
            } else {
                old(progress).without(
                    page_files@[file_id].file_size as int,
                    page_files@[file_id].effective_size as int,
                )
            },
    {
        broadcast use vstd::std_specs::hash::group_hash_axioms;

        if !self.needs_rewrite(file_id) {
            assert(self@.cleaned_files.insert(FileId::Page(file_id)) =~= self@.cleaned_files);
            return;
        }
        progress.track_page_file(page_files.get(&file_id).unwrap());
        self.rewrite_file(file_id, page_files);
    }

    /// The attempt to rewrite a page file has ended. Only a file that has been
    /// rewritten is accounted for, if there is a progress to keep, and marked as
    /// cleaned. For a file that had been cleaned before there was nothing to do.
    pub fn rewrite_ended<E>(
        &mut self,
        progress: Option<&mut ReclaimProgress>,
        file_id: u32,
        page_files: &HashMap<u32, FileInfo>,
        outcome: Result<(), E>,
    ) -> (res: Result<(), E>)
        requires
            !old(self)@.cleaned_files.contains(FileId::Page(file_id)) && outcome is Ok ==> {
                &&& page_files@.contains_key(file_id)
                &&& progress is Some ==> page_files@[file_id].map_file_id is None
            },
        ensures
            ({
                let was_cleaned = old(self)@.cleaned_files.contains(FileId::Page(file_id));
                let rewritten = !was_cleaned && outcome is Ok;
                &&& res == if was_cleaned {
                    Ok(())
                } else {
                    outcome
                }
                &&& final(self)@ == if rewritten {
                    ReclaimCtxView {
                        cleaned_files: old(self)@.cleaned_files.insert(FileId::Page(file_id)),
                        ..old(self)@
                    }
                } else {
                    old(self)@
                }
                &&& progress matches Some(progress) ==> *final(progress) == if rewritten {
                    progress.without(
                        page_files@[file_id].file_size as int,
                        page_files@[file_id].effective_size as int,
                    )
                } else {
                    *progress
                }
            }),
    {
        if !self.needs_rewrite(file_id) {
            return Ok(());
        }
        if outcome.is_ok() {
            match progress {
                Some(progress) => self.rewrite_file_with_progress(progress, file_id, page_files),
                None => self.rewrite_file(file_id, page_files),
            }
        }
        outcome
    }

    /// Lists the files among which the strategy picks, and remembers those that
    /// have been cleaned.
    pub fn build_strategy(&mut self, version: &Version, cleaned_files: &FileSet) -> (res:
        StrategyFiles)
        ensures
            res.page_files@.no_duplicates(),
            res.page_files@.to_set() == candidate_page_files(*version, cleaned_files@),
            res.map_files@.no_duplicates(),
            res.map_files@.to_set() == candidate_map_files(*version, cleaned_files@),
            final(self)@ == (ReclaimCtxView {
                cleaned_files: old(self)@.cleaned_files.union(
                    cleaned_page_files(*version, cleaned_files@),
                ).union(cleaned_map_files(*version, cleaned_files@)),
                ..old(self)@
            }),
    {
        let page_files = self.collect_page_files(version, cleaned_files);
        let map_files = self.collect_map_files(version, cleaned_files);
        StrategyFiles { page_files, map_files }
    }

    fn collect_page_files(&mut self, version: &Version, cleaned_files: &FileSet) -> (res: Vec<u32>)
        ensures
            res@.no_duplicates(),
            res@.to_set() == candidate_page_files(*version, cleaned_files@),
            final(self)@ == (ReclaimCtxView {
                cleaned_files: old(self)@.cleaned_files.union(
                    cleaned_page_files(*version, cleaned_files@),
                ),
                ..old(self)@
            }),
    {
        broadcast use vstd::std_specs::hash::group_hash_axioms;

        let ids = keys_of(&version.page_files);
        let ghost pred = |id: u32|
            crate::strategy::is_candidate(id, version.page_files@[id], cleaned_files@);
        let mut page_files: Vec<u32> = Vec::new();
        for i in 0..ids.len()
            invariant
                ids@.no_duplicates(),
                ids@.to_set() == version.page_files@.dom(),
                pred == (|id: u32|
            crate::strategy::is_candidate(id, version.page_files@[id], cleaned_files@)),
                page_files@ == ids@.take(i as int).filter(pred),
                self@ == (ReclaimCtxView {
                    cleaned_files: old(self)@.cleaned_files.union(
                        listed_pages(ids@.take(i as int), cleaned_files@),
                    ),
                    ..old(self)@
                }),
        {
            let id = ids[i];
            proof {
                assert(ids@.to_set().contains(id));
                lemma_next_id(ids@, i as int);
                assert(ids@.take(i + 1).drop_last() =~= ids@.take(i as int));
                reveal(Seq::filter);
            }
            let info = version.page_files.get(&id).unwrap();
            if cleaned_files.contains(&FileId::Page(id)) {
                self.cleaned_files.insert(FileId::Page(id));
            } else if !info.is_empty() && info.map_file_id.is_none() {
                page_files.push(id);
            }
            proof {
                assert(self@.cleaned_files =~= old(self)@.cleaned_files.union(
                    listed_pages(ids@.take(i + 1), cleaned_files@),
                ));
            }
        }
        proof {
            lemma_all_ids(ids@, version.page_files@.dom());
            lemma_filter_ids(ids@, version.page_files@.dom(), pred);
            assert(ids@.take(ids@.len() as int) =~= ids@);
            assert(page_files@.to_set() =~= candidate_page_files(*version, cleaned_files@));
            assert(self@.cleaned_files =~= old(self)@.cleaned_files.union(
                cleaned_page_files(*version, cleaned_files@),
            ));
        }
        page_files
    }

    fn collect_map_files(&mut self, version: &Version, cleaned_files: &FileSet) -> (res: Vec<u32>)
        ensures
            res@.no_duplicates(),
            res@.to_set() == candidate_map_files(*version, cleaned_files@),
            final(self)@ == (ReclaimCtxView {
                cleaned_files: old(self)@.cleaned_files.union(
                    cleaned_map_files(*version, cleaned_files@),
                ),
                ..old(self)@
            }),
    {
        let ids = keys_of(&version.map_files);
        let ghost pred = |id: u32| !cleaned_files@.contains(FileId::MapFile(id));
        let mut map_files: Vec<u32> = Vec::new();
        for i in 0..ids.len()
            invariant
                ids@.no_duplicates(),
                ids@.to_set() == version.map_files@.dom(),
                pred == (|id: u32| !cleaned_files@.contains(FileId::MapFile(id))),
                map_files@ == ids@.take(i as int).filter(pred),
                self@ == (ReclaimCtxView {
                    cleaned_files: old(self)@.cleaned_files.union(
                        listed_map_files(ids@.take(i as int), cleaned_files@),
                    ),
                    ..old(self)@
                }),
        {
            let id = ids[i];
            proof {
                assert(ids@.to_set().contains(id));
                lemma_next_id(ids@, i as int);
                assert(ids@.take(i + 1).drop_last() =~= ids@.take(i as int));
                reveal(Seq::filter);
            }
            if cleaned_files.contains(&FileId::MapFile(id)) {
                self.cleaned_files.insert(FileId::MapFile(id));
            } else {
                map_files.push(id);
            }
            proof {
                assert(self@.cleaned_files =~= old(self)@.cleaned_files.union(
                    listed_map_files(ids@.take(i + 1), cleaned_files@),
                ));
            }
        }
        proof {
            lemma_all_ids(ids@, version.map_files@.dom());
            lemma_filter_ids(ids@, version.map_files@.dom(), pred);
            assert(ids@.take(ids@.len() as int) =~= ids@);
            assert(map_files@.to_set() =~= candidate_map_files(*version, cleaned_files@));
            assert(self@.cleaned_files =~= old(self)@.cleaned_files.union(
                cleaned_map_files(*version, cleaned_files@),
            ));
        }
        map_files
    }

    /// Whether there is an id left for a new map file.
    pub fn has_map_file_id(&self) -> (res: bool)
        ensures
            res == (self@.next_map_file_id < u32::MAX),
    {
        self.next_map_file_id < u32::MAX
    }

    /// Starts compounding page files into a new map file, and gives the new file
    /// its id.
    pub fn reclaim_page_files(&mut self, victims: &HashSet<u32>) -> (res: CompoundJob)
        requires
            old(self)@.next_map_file_id < u32::MAX,
        ensures
            final(self)@ == (ReclaimCtxView {
                next_map_file_id: (old(self)@.next_map_file_id + 1) as u32,
                ..old(self)@
            }),
            crate::collections::ascending(res@.victims),
            res@.victims.to_set() == victims@,
            res@ == crate::compound::CompoundView::start(
                old(self)@.next_map_file_id,
                res@.victims,
            ),
    {
        let file_id = self.next_map_file_id;
        self.next_map_file_id = self.next_map_file_id + 1;
        compound_page_files(file_id, victims)
    }

    /// Starts compacting map files into a new map file, and gives the new file
    /// its id.
    pub fn reclaim_map_files(&mut self, victims: &HashSet<u32>) -> (res: CompactJob)
        requires
            old(self)@.next_map_file_id < u32::MAX,
        ensures
            final(self)@ == (ReclaimCtxView {
                next_map_file_id: (old(self)@.next_map_file_id + 1) as u32,
                ..old(self)@
            }),
            crate::collections::ascending(res@.victims),
            res@.victims.to_set() == victims@,
            res@ == crate::compact::CompactView::start(
                old(self)@.next_map_file_id,
                res@.victims,
            ),
    {
        let file_id = self.next_map_file_id;
        self.next_map_file_id = self.next_map_file_id + 1;
        compact_map_files(file_id, victims)
    }

    /// Starts reclaiming the orphan page files, if there are any.
    pub fn reclaim_orphan_page_files(&mut self) -> (res: Option<OrphanJob>)
        ensures
            final(self)@ == (ReclaimCtxView { orphan_page_files: Set::empty(), ..old(self)@ }),
            match res {
                Some(job) => {
                    &&& !(old(self)@.orphan_page_files =~= Set::empty())
                    &&& job@.wf()
                    &&& job@.files == old(self)@.orphan_page_files
                    &&& job@.done == 0
                },
                None => old(self)@.orphan_page_files =~= Set::empty(),
            },
    {
        let mut orphan_page_files: HashSet<u32> = HashSet::new();
        std::mem::swap(&mut orphan_page_files, &mut self.orphan_page_files);
        if orphan_page_files.is_empty() {
            None
        } else {
            Some(OrphanJob::new(orphan_page_files))
        }
    }

    /// The live pages of the next page file of a job are in its map file. The file
    /// is accounted for and marked as cleaned.
    pub fn page_file_compounded(
        &mut self,
        job: CompoundJob,
        file_infos: &HashMap<u32, FileInfo>,
        dealloc_pages: Vec<u64>,
        progress: &mut ReclaimProgress,
    ) -> (res: CompoundJob)
        requires
            job@.done < job@.victims.len(),
            job@.planned,
            file_infos@.contains_key(job@.victims[job@.done]),
            job@.fits(file_infos@[job@.victims[job@.done]], dealloc_pages@),
            file_infos@[job@.victims[job@.done]].map_file_id is None,
        ensures
            res@ == job@.after(file_infos@[job@.victims[job@.done]], dealloc_pages),
            ({
                let books = crate::progress::Books {
                    progress: *old(progress),
                    cleaned: old(self)@.cleaned_files,
                }.after_page_file(
                    job@.victims[job@.done],
                    file_infos@[job@.victims[job@.done]],
                );
                &&& *final(progress) == books.progress
                &&& final(self)@ == (ReclaimCtxView { cleaned_files: books.cleaned, ..old(self)@ })
            }),
    {
        job.page_file_compounded(file_infos, dealloc_pages, progress, &mut self.cleaned_files)
    }

    /// The live pages of the next map file of a job are in the new map file. The
    /// file is accounted for and marked as cleaned.
    pub fn map_file_compacted(
        &mut self,
        job: &mut CompactJob,
        map_files: &HashMap<u32, MapFileInfo>,
        page_files: &HashMap<u32, FileInfo>,
        progress: &mut ReclaimProgress,
    )
        requires
            old(job)@.done < old(job)@.victims.len(),
            old(job)@.planned,
            map_files@.contains_key(old(job)@.victims[old(job)@.done]),
            ({
                let info = map_files@[old(job)@.victims[old(job)@.done]];
                &&& old(job)@.up2_sum + info.up2 <= u32::MAX
                &&& crate::progress::mapped_size(info.page_files@, page_files@) <= usize::MAX
            }),
        ensures
            final(job)@ == old(job)@.with_copied(
                map_files@[old(job)@.victims[old(job)@.done]].up2,
            ),
            ({
                let books = crate::progress::Books {
                    progress: *old(progress),
                    cleaned: old(self)@.cleaned_files,
                }.after_map_file(
                    old(job)@.victims[old(job)@.done],
                    map_files@[old(job)@.victims[old(job)@.done]],
                    page_files@,
                );
                &&& *final(progress) == books.progress
                &&& final(self)@ == (ReclaimCtxView { cleaned_files: books.cleaned, ..old(self)@ })
            }),
    {
        job.map_file_compacted(map_files, page_files, progress, &mut self.cleaned_files)
    }

    /// The files that have been cleaned.
    pub fn cleaned_files(&self) -> (res: &FileSet)
        ensures
            res@ == self@.cleaned_files,
    {
        &self.cleaned_files
    }
}

proof fn lemma_next_id(ids: Seq<u32>, i: int)
    requires
        ids.no_duplicates(),
        0 <= i < ids.len(),
    ensures
        !ids.take(i).contains(ids[i]),
        forall|k: u32| #[trigger]
            ids.take(i + 1).contains(k) <==> ids.take(i).contains(k) || k == ids[i],
{
    if ids.take(i).contains(ids[i]) {
        let j = choose|j: int| 0 <= j < ids.take(i).len() && ids.take(i)[j] == ids[i];
        assert(ids[j] == ids[i]);
    }
    assert forall|k: u32| #[trigger]
        ids.take(i + 1).contains(k) <==> ids.take(i).contains(k) || k == ids[i] by {
        crate::collections::lemma_take_contains(ids, i, k);
    }
}

proof fn lemma_all_ids(ids: Seq<u32>, all: Set<u32>)
    requires
        ids.to_set() == all,
    ensures
        forall|k: u32| #[trigger] ids.take(ids.len() as int).contains(k) <==> all.contains(k),
{
    assert(ids.take(ids.len() as int) =~= ids);
    assert forall|k: u32| ids.contains(k) <==> all.contains(k) by {
        assert(ids.to_set().contains(k) <==> ids.contains(k));
    }
}

proof fn lemma_filter_ids(ids: Seq<u32>, all: Set<u32>, pred: spec_fn(u32) -> bool)
    requires
        ids.no_duplicates(),
        ids.to_set() == all,
    ensures
        ids.filter(pred).no_duplicates(),
        ids.filter(pred).to_set() == all.filter(pred),
    decreases ids.len(),
{
    reveal(Seq::filter);
    if ids.len() > 0 {
        let rest = ids.drop_last();
        lemma_filter_ids(rest, rest.to_set(), pred);
        assert forall|k: u32| ids.filter(pred).contains(k) <==> all.filter(pred).contains(k) by {
            assert(rest.filter(pred).to_set().contains(k) <==> rest.to_set().filter(pred).contains(k));
            assert(ids =~= rest.push(ids.last()));
            assert(ids.to_set().contains(k) <==> ids.contains(k));
            vstd::seq_lib::lemma_seq_contains_after_push(rest, ids.last(), k);
            vstd::seq_lib::lemma_seq_contains_after_push(rest.filter(pred), ids.last(), k);
        }
        assert(!rest.filter(pred).contains(ids.last())) by {
            if rest.filter(pred).contains(ids.last()) {
                assert(rest.to_set().filter(pred).contains(ids.last()));
            }
        }
        assert(ids.filter(pred).to_set() =~= all.filter(pred));
    } else {
        assert(ids.filter(pred).to_set() =~= all.filter(pred));
    }
}

/// The state of rewriting a list of page files.
pub struct RewriteQueueView {
    pub files: Seq<u32>,
    /// How many files have been handed out.
    pub done: int,
}

impl View for RewriteQueue {
    type V = RewriteQueueView;

    closed spec fn view(&self) -> RewriteQueueView {
        RewriteQueueView { files: self.files@, done: self.next as int }
    }
}

/// Starts rewriting a list of page files.
pub fn rewrite_files(files: Vec<u32>) -> (res: RewriteQueue)
    ensures
        res@.files == files@,
        res@.done == 0,
{
    RewriteQueue { files, next: 0 }
}

impl RewriteQueue {
    #[verifier::type_invariant]
    spec fn in_range(self) -> bool {
        self.next <= self.files@.len()
    }

    /// The page file to rewrite next. There is none once the store shuts down or
    /// a newer version is there to be looked at.
    pub fn next_file(&mut self, terminated: bool, has_next_version: bool) -> (res: Option<u32>)
        ensures
            0 <= old(self)@.done <= old(self)@.files.len(),
            final(self)@.files == old(self)@.files,
            if !terminated && !has_next_version && old(self)@.done < old(self)@.files.len() {
                &&& res == Some(old(self)@.files[old(self)@.done])
                &&& final(self)@.done == old(self)@.done + 1
            } else {
                &&& res is None
                &&& final(self)@.done == old(self)@.done
            },
    {
        proof {
            use_type_invariant(&*self);
        }
        if self.next >= self.files.len() || terminated || has_next_version {
            return None;
        }
        let file_id = self.files[self.next];
        self.next = self.next + 1;
        Some(file_id)
    }
}

/// A page file of a version is either cleaned, or empty, or a candidate of the
/// strategy, or virtual, and never two of these unless it is cleaned.
pub proof fn law_page_files_are_sorted_out(version: Version, cleaned: Set<FileId>, id: u32)
    requires
        version.page_files@.contains_key(id),
    ensures
        ({
            let is_cleaned = cleaned_page_files(version, cleaned).contains(FileId::Page(id));
            let is_empty = empty_page_files(version, cleaned).contains(id);
            let is_candidate = candidate_page_files(version, cleaned).contains(id);
            let is_virtual = version.page_files@[id].map_file_id is Some;
            &&& is_cleaned || is_empty || is_candidate || is_virtual
            &&& !(is_empty && is_candidate)
            &&& is_empty || is_candidate ==> !is_cleaned && !is_virtual
        }),
{
}

/// A cleaned page file stays cleaned as long as it is part of the version, and
/// is not reclaimed again.
pub proof fn law_cleaned_page_files_stay_cleaned(version: Version, cleaned: Set<FileId>, id: u32)
    requires
        version.page_files@.contains_key(id),
        cleaned.contains(FileId::Page(id)),
    ensures
        cleaned_page_files(version, cleaned).contains(FileId::Page(id)),
        !empty_page_files(version, cleaned).contains(id),
        !candidate_page_files(version, cleaned).contains(id),
{
}

/// A cleaned map file stays cleaned as long as it is part of the version, and is
/// not picked again.
pub proof fn law_cleaned_map_files_stay_cleaned(version: Version, cleaned: Set<FileId>, id: u32)
    requires
        version.map_files@.contains_key(id),
    ensures
        cleaned.contains(FileId::MapFile(id)) <==> cleaned_map_files(version, cleaned).contains(
            FileId::MapFile(id),
        ),
        cleaned.contains(FileId::MapFile(id)) <==> !candidate_map_files(version, cleaned).contains(
            id,
        ),
{
}

/// Files that are no longer part of the version are not remembered as cleaned.
pub proof fn law_gone_files_are_forgotten(version: Version, cleaned: Set<FileId>, file: FileId)
    ensures
        cleaned_page_files(version, cleaned).union(cleaned_map_files(version, cleaned)).contains(
            file,
        ) ==> cleaned.contains(file) && has_file(version, file),
{
}

/// A step of a pass that changes which files are cleaned.
pub enum PassStep {
    /// A file has been rewritten, compounded or compacted.
    Cleaned(FileId),
    /// The strategy has been asked for files.
    StrategyBuilt,
}

/// The cleaned files after some steps of a pass that began with `cleaned`.
pub open spec fn cleaned_in_pass(
    version: Version,
    cleaned: Set<FileId>,
    steps: Seq<PassStep>,
) -> Set<FileId>
    decreases steps.len(),
{
    if steps.len() == 0 {
        cleaned_page_files(version, cleaned)
    } else {
        let before = cleaned_in_pass(version, cleaned, steps.drop_last());
        match steps.last() {
            PassStep::Cleaned(file) => before.insert(file),
            PassStep::StrategyBuilt => before.union(cleaned_page_files(version, cleaned)).union(
                cleaned_map_files(version, cleaned),
            ),
        }
    }
}

/// Whatever a pass does, every file that is cleaned is part of the version. Page
/// files that are still part of it stay cleaned, and so do map files once the
/// strategy has been asked. What the pass itself cleans is cleaned, and nothing
/// else is.
pub proof fn law_pass_keeps_cleaned_files(
    version: Version,
    cleaned: Set<FileId>,
    steps: Seq<PassStep>,
    file: FileId,
)
    requires
        forall|i: int|
            0 <= i < steps.len() ==> (#[trigger] steps[i] matches PassStep::Cleaned(f) ==> has_file(
                version,
                f,
            )),
    ensures
        ({
            let after = cleaned_in_pass(version, cleaned, steps);
            let was_cleaned = cleaned.contains(file) && has_file(version, file);
            let is_kept = file is Page || steps.contains(PassStep::StrategyBuilt);
            &&& after.contains(file) <==> {
                ||| was_cleaned && is_kept
                ||| steps.contains(PassStep::Cleaned(file))
            }
            &&& after.contains(file) ==> has_file(version, file)
        }),
    decreases steps.len(),
{
    if steps.len() > 0 {
        let rest = steps.drop_last();
        let last = steps.last();
        assert forall|i: int| 0 <= i < rest.len() implies (
        #[trigger] rest[i] matches PassStep::Cleaned(f) ==> has_file(version, f)) by {
            assert(rest[i] == steps[i]);
        }
        law_pass_keeps_cleaned_files(version, cleaned, rest, file);
        assert(steps =~= rest.push(last));
        vstd::seq_lib::lemma_seq_contains_after_push(rest, last, PassStep::StrategyBuilt);
        vstd::seq_lib::lemma_seq_contains_after_push(rest, last, PassStep::Cleaned(file));
        assert(steps[steps.len() - 1] == last);
    }
}

/// A new task has cleaned nothing, and keeps what it was made with.
pub proof fn law_new_task_has_cleaned_nothing(
    options: Options,
    next_map_file_id: u32,
    orphan_page_files: HashSet<u32>,
    ctx: ReclaimCtx,
)
    requires
        call_ensures(ReclaimCtx::new, (options, next_map_file_id, orphan_page_files), ctx),
    ensures
        ctx@.options == options,
        ctx@.next_map_file_id == next_map_file_id,
        ctx@.orphan_page_files == orphan_page_files@,
        forall|file: FileId| !(#[trigger] ctx@.cleaned_files.contains(file)),
{
}

/// A pass starts with exactly the page files that have no live pages, are not virtual
/// and have not been cleaned. It hands on what had been cleaned, and remembers of it
/// the page files that the version still has, and nothing else.
pub proof fn law_pass_starts_with_the_empty_files(
    ctx: &mut ReclaimCtx,
    version: Version,
    pass: ReclaimPass,
)
    requires
        call_ensures(ReclaimCtx::reclaim, (ctx, &version), pass),
    ensures
        pass.empty_files@.no_duplicates(),
        forall|id: u32| #[trigger]
            pass.empty_files@.contains(id) <==> {
                &&& version.page_files@.contains_key(id)
                &&& !old(ctx)@.cleaned_files.contains(FileId::Page(id))
                &&& version.page_files@[id].active_pages@.len() == 0
                &&& version.page_files@[id].map_file_id is None
            },
        pass.cleaned_files@ == old(ctx)@.cleaned_files,
        forall|file: FileId| #[trigger]
            final(ctx)@.cleaned_files.contains(file) <==> old(ctx)@.cleaned_files.contains(file)
                && (file matches FileId::Page(id) && version.page_files@.contains_key(id)),
        final(ctx)@.options == old(ctx)@.options,
        final(ctx)@.next_map_file_id == old(ctx)@.next_map_file_id,
        final(ctx)@.orphan_page_files == old(ctx)@.orphan_page_files,
{
    lemma_set_of_list(pass.empty_files@);
}

proof fn lemma_set_of_list(ids: Seq<u32>)
    ensures
        forall|id: u32| #[trigger] ids.contains(id) <==> ids.to_set().contains(id),
{
}

/// Picking empty page files picks exactly those without live pages that are not
/// virtual and have not been cleaned, and remembers the cleaned page files that the
/// version still has.
pub proof fn law_empty_page_files_are_picked(
    ctx: &mut ReclaimCtx,
    version: Version,
    cleaned_files: FileSet,
    res: Vec<u32>,
)
    requires
        call_ensures(ReclaimCtx::pick_empty_page_files, (ctx, &version, &cleaned_files), res),
    ensures
        res@.no_duplicates(),
        forall|id: u32| #[trigger]
            res@.contains(id) <==> {
                &&& version.page_files@.contains_key(id)
                &&& !cleaned_files@.contains(FileId::Page(id))
                &&& version.page_files@[id].active_pages@.len() == 0
                &&& version.page_files@[id].map_file_id is None
            },
        forall|file: FileId| #[trigger]
            final(ctx)@.cleaned_files.contains(file) <==> old(ctx)@.cleaned_files.contains(file)
                || (cleaned_files@.contains(file) && (file matches FileId::Page(id)
                && version.page_files@.contains_key(id))),
        final(ctx)@.options == old(ctx)@.options,
        final(ctx)@.next_map_file_id == old(ctx)@.next_map_file_id,
        final(ctx)@.orphan_page_files == old(ctx)@.orphan_page_files,
{
    lemma_set_of_list(res@);
}

/// The strategy chooses among exactly the page files with live pages that are not
/// virtual and have not been cleaned, and the map files that have not been cleaned.
/// Cleaned files that the version still has are remembered.
pub proof fn law_strategy_chooses_among_the_uncleaned(
    ctx: &mut ReclaimCtx,
    version: Version,
    cleaned_files: FileSet,
    res: StrategyFiles,
)
    requires
        call_ensures(ReclaimCtx::build_strategy, (ctx, &version, &cleaned_files), res),
    ensures
        res.page_files@.no_duplicates(),
        forall|id: u32| #[trigger]
            res.page_files@.contains(id) <==> {
                &&& version.page_files@.contains_key(id)
                &&& !cleaned_files@.contains(FileId::Page(id))
                &&& version.page_files@[id].active_pages@.len() > 0
                &&& version.page_files@[id].map_file_id is None
            },
        res.map_files@.no_duplicates(),
        forall|id: u32| #[trigger]
            res.map_files@.contains(id) <==> version.map_files@.contains_key(id)
                && !cleaned_files@.contains(FileId::MapFile(id)),
        forall|file: FileId| #[trigger]
            final(ctx)@.cleaned_files.contains(file) <==> old(ctx)@.cleaned_files.contains(file)
                || (cleaned_files@.contains(file) && match file {
                FileId::Page(id) => version.page_files@.contains_key(id),
                FileId::MapFile(id) => version.map_files@.contains_key(id),
            }),
        final(ctx)@.options == old(ctx)@.options,
        final(ctx)@.next_map_file_id == old(ctx)@.next_map_file_id,
        final(ctx)@.orphan_page_files == old(ctx)@.orphan_page_files,
{
    lemma_set_of_list(res.page_files@);
    lemma_set_of_list(res.map_files@);
}

/// The verdict is that of the progress of the version: space is reclaimed exactly if
/// the used space is above the watermark and more than two files worth could be
/// freed, or some space could be freed and its ratio to the live data is at the target
/// or above.
pub proof fn law_verdict_follows_the_progress(
    ctx: ReclaimCtx,
    version: Version,
    cleaned_files: FileSet,
    progress: ReclaimProgress,
    trace: ReclaimTrace,
    verdict: Verdict,
)
    requires
        call_ensures(ReclaimCtx::judge, (&ctx, &version, &cleaned_files), verdict),
        call_ensures(ReclaimProgress::new, (&ctx@.options, &version, &cleaned_files), progress),
        call_ensures(ReclaimProgress::trace_log, (&progress,), trace),
    ensures
        verdict.progress == progress,
        verdict.trace == trace,
        verdict.reclaimable <==> {
            ||| progress.space_used_high < progress.used_space && 2 * progress.file_base_size
                < progress.additional_size
            ||| 0 < progress.additional_size && progress.target_space_amp * progress.base_size
                <= progress.additional_size * 100
        },
{
}

/// A page file has to be rewritten exactly if it has not been cleaned.
pub proof fn law_uncleaned_file_needs_rewriting(ctx: ReclaimCtx, file_id: u32, res: bool)
    requires
        call_ensures(ReclaimCtx::needs_rewrite, (&ctx, file_id), res),
    ensures
        res <==> !ctx@.cleaned_files.contains(FileId::Page(file_id)),
{
}

/// A rewritten page file is cleaned from then on, and no other file is affected.
pub proof fn law_rewritten_file_is_cleaned(
    ctx: &mut ReclaimCtx,
    file_id: u32,
    page_files: HashMap<u32, FileInfo>,
)
    requires
        call_ensures(ReclaimCtx::rewrite_file, (ctx, file_id, &page_files), ()),
    ensures
        forall|file: FileId| #[trigger]
            final(ctx)@.cleaned_files.contains(file) <==> old(ctx)@.cleaned_files.contains(file)
                || file == FileId::Page(file_id),
        final(ctx)@.options == old(ctx)@.options,
        final(ctx)@.next_map_file_id == old(ctx)@.next_map_file_id,
        final(ctx)@.orphan_page_files == old(ctx)@.orphan_page_files,
{
}

/// With a progress, a page file that had not been cleaned is taken off it once, as if
/// it were tracked alone. One that had been cleaned leaves the progress as it is.
pub proof fn law_rewritten_file_is_tracked_once(
    ctx: &mut ReclaimCtx,
    progress: &mut ReclaimProgress,
    file_id: u32,
    page_files: HashMap<u32, FileInfo>,
    alone: &mut ReclaimProgress,
)
    requires
        call_ensures(
            ReclaimCtx::rewrite_file_with_progress,
            (ctx, progress, file_id, &page_files),
            (),
        ),
        *old(alone) == *old(progress),
        call_ensures(ReclaimProgress::track_page_file, (alone, &page_files@[file_id]), ()),
    ensures
        old(ctx)@.cleaned_files.contains(FileId::Page(file_id)) ==> *final(progress) == *old(progress),
        !old(ctx)@.cleaned_files.contains(FileId::Page(file_id)) ==> *final(progress) == *final(alone),
        forall|file: FileId| #[trigger]
            final(ctx)@.cleaned_files.contains(file) <==> old(ctx)@.cleaned_files.contains(file)
                || file == FileId::Page(file_id),
        final(ctx)@.options == old(ctx)@.options,
        final(ctx)@.next_map_file_id == old(ctx)@.next_map_file_id,
        final(ctx)@.orphan_page_files == old(ctx)@.orphan_page_files,
{
}

/// A failed rewrite changes nothing and hands its error on. A rewrite that went
/// through cleans the file and takes it off the progress, unless it had been cleaned
/// before: then nothing changes either.
pub proof fn law_failed_rewrite_changes_nothing<E>(
    ctx: &mut ReclaimCtx,
    progress: &mut ReclaimProgress,
    file_id: u32,
    page_files: HashMap<u32, FileInfo>,
    outcome: Result<(), E>,
    alone: &mut ReclaimProgress,
    res: Result<(), E>,
)
    requires
        call_ensures(
            ReclaimCtx::rewrite_ended::<E>,
            (ctx, Some(progress), file_id, &page_files, outcome),
            res,
        ),
        *old(alone) == *old(progress),
        call_ensures(ReclaimProgress::track_page_file, (alone, &page_files@[file_id]), ()),
    ensures
        old(ctx)@.cleaned_files.contains(FileId::Page(file_id)) ==> res is Ok && *final(progress)
            == *old(progress) && final(ctx)@ == old(ctx)@,
        !old(ctx)@.cleaned_files.contains(FileId::Page(file_id)) ==> res == outcome,
        outcome is Err ==> *final(progress) == *old(progress) && final(ctx)@ == old(ctx)@,
        !old(ctx)@.cleaned_files.contains(FileId::Page(file_id)) && outcome is Ok ==> {
            &&& *final(progress) == *final(alone)
            &&& forall|file: FileId| #[trigger]
                final(ctx)@.cleaned_files.contains(file) <==> old(ctx)@.cleaned_files.contains(
                    file,
                ) || file == FileId::Page(file_id)
        },
        final(ctx)@.options == old(ctx)@.options,
        final(ctx)@.next_map_file_id == old(ctx)@.next_map_file_id,
        final(ctx)@.orphan_page_files == old(ctx)@.orphan_page_files,
{
}

/// Every job for a new map file gets the next id, goes through exactly its victims by
/// ascending id, and leaves the rest of the task as it is.
pub proof fn law_new_map_files_get_new_ids(
    ctx: &mut ReclaimCtx,
    victims: HashSet<u32>,
    job: CompoundJob,
)
    requires
        old(ctx)@.next_map_file_id < u32::MAX,
        call_ensures(ReclaimCtx::reclaim_page_files, (ctx, &victims), job),
    ensures
        job@.new_file_id == old(ctx)@.next_map_file_id,
        final(ctx)@.next_map_file_id == old(ctx)@.next_map_file_id + 1,
        final(ctx)@.options == old(ctx)@.options,
        final(ctx)@.cleaned_files == old(ctx)@.cleaned_files,
        final(ctx)@.orphan_page_files == old(ctx)@.orphan_page_files,
        job@.done == 0,
        !job@.planned,
        forall|id: u32| #[trigger] job@.victims.contains(id) <==> victims@.contains(id),
        forall|i: int, j: int|
            0 <= i < j < job@.victims.len() ==> #[trigger] job@.victims[i]
                < #[trigger] job@.victims[j],
        job@.num_active_pages == 0,
        job@.num_dealloc_pages == 0,
        job@.input_size == 0,
        job@.output_size == 0,
        job@.up2_sum == 0,
        job@.obsoleted_files.len() == 0,
        forall|id: u32| !(#[trigger] job@.dealloc_page_map.contains_key(id)),
{
    lemma_set_of_list(job@.victims);
}

/// The same for a job that compacts map files.
pub proof fn law_compacted_map_files_get_new_ids(
    ctx: &mut ReclaimCtx,
    victims: HashSet<u32>,
    job: CompactJob,
)
    requires
        old(ctx)@.next_map_file_id < u32::MAX,
        call_ensures(ReclaimCtx::reclaim_map_files, (ctx, &victims), job),
    ensures
        job@.new_file_id == old(ctx)@.next_map_file_id,
        final(ctx)@.next_map_file_id == old(ctx)@.next_map_file_id + 1,
        final(ctx)@.options == old(ctx)@.options,
        final(ctx)@.cleaned_files == old(ctx)@.cleaned_files,
        final(ctx)@.orphan_page_files == old(ctx)@.orphan_page_files,
        job@.done == 0,
        !job@.planned,
        forall|id: u32| #[trigger] job@.victims.contains(id) <==> victims@.contains(id),
        forall|i: int, j: int|
            0 <= i < j < job@.victims.len() ==> #[trigger] job@.victims[i]
                < #[trigger] job@.victims[j],
        job@.num_active_pages == 0,
        job@.input_size == 0,
        job@.output_size == 0,
        job@.up2_sum == 0,
{
    lemma_set_of_list(job@.victims);
}

/// There is an id for a new map file unless the last one has been given away.
pub proof fn law_map_file_ids_last(ctx: ReclaimCtx, res: bool)
    requires
        call_ensures(ReclaimCtx::has_map_file_id, (&ctx,), res),
    ensures
        res <==> ctx@.next_map_file_id < u32::MAX,
{
}

/// The orphans are taken on once, all of them, and there is no job without any.
pub proof fn law_orphans_are_taken_on_once(ctx: &mut ReclaimCtx, res: Option<OrphanJob>)
    requires
        call_ensures(ReclaimCtx::reclaim_orphan_page_files, (ctx,), res),
    ensures
        res is Some <==> exists|id: u32| #[trigger] old(ctx)@.orphan_page_files.contains(id),
        res matches Some(job) ==> {
            &&& job@.files == old(ctx)@.orphan_page_files
            &&& job@.done == 0
            &&& job@.queue.no_duplicates()
            &&& forall|id: u32| #[trigger]
                job@.queue.contains(id) <==> old(ctx)@.orphan_page_files.contains(id)
        },
        forall|id: u32| !(#[trigger] final(ctx)@.orphan_page_files.contains(id)),
        final(ctx)@.options == old(ctx)@.options,
        final(ctx)@.next_map_file_id == old(ctx)@.next_map_file_id,
        final(ctx)@.cleaned_files == old(ctx)@.cleaned_files,
{
    if let Some(job) = res {
        lemma_set_of_list(job@.queue);
        if !(exists|id: u32| #[trigger] old(ctx)@.orphan_page_files.contains(id)) {
            assert(old(ctx)@.orphan_page_files =~= Set::empty());
        }
    }
}

/// A compounded page file is cleaned from then on, is taken off the progress as if it
/// were tracked alone, and the job moves on to the next.
pub proof fn law_compounded_file_is_cleaned(
    ctx: &mut ReclaimCtx,
    job: CompoundJob,
    file_infos: HashMap<u32, FileInfo>,
    dealloc_pages: Vec<u64>,
    progress: &mut ReclaimProgress,
    alone: &mut ReclaimProgress,
    cleaned_files: &mut FileSet,
    other: &mut ReclaimProgress,
    res: CompoundJob,
    counted: CompoundJob,
)
    requires
        call_ensures(
            ReclaimCtx::page_file_compounded,
            (ctx, job, &file_infos, dealloc_pages, progress),
            res,
        ),
        *old(alone) == *old(progress),
        call_ensures(
            ReclaimProgress::track_page_file,
            (alone, &file_infos@[job@.victims[job@.done]]),
            (),
        ),
        call_ensures(
            CompoundJob::page_file_compounded,
            (job, &file_infos, dealloc_pages, other, cleaned_files),
            counted,
        ),
    ensures
        res@ == counted@,
        *final(progress) == *final(alone),
        forall|file: FileId| #[trigger]
            final(ctx)@.cleaned_files.contains(file) <==> old(ctx)@.cleaned_files.contains(file)
                || file == FileId::Page(job@.victims[job@.done]),
        final(ctx)@.options == old(ctx)@.options,
        final(ctx)@.next_map_file_id == old(ctx)@.next_map_file_id,
        final(ctx)@.orphan_page_files == old(ctx)@.orphan_page_files,
{
}

/// A compacted map file is cleaned from then on, is taken off the progress as if it
/// were tracked alone, and the job moves on to the next.
pub proof fn law_compacted_file_is_cleaned(
    ctx: &mut ReclaimCtx,
    job: &mut CompactJob,
    map_files: HashMap<u32, MapFileInfo>,
    page_files: HashMap<u32, FileInfo>,
    progress: &mut ReclaimProgress,
    alone: &mut ReclaimProgress,
)
    requires
        call_ensures(
            ReclaimCtx::map_file_compacted,
            (ctx, job, &map_files, &page_files, progress),
            (),
        ),
        *old(alone) == *old(progress),
        call_ensures(
            ReclaimProgress::track_map_file,
            (alone, &map_files@[old(job)@.victims[old(job)@.done]], &page_files),
            (),
        ),
    ensures
        final(job)@.done == old(job)@.done + 1,
        final(job)@.up2_sum == old(job)@.up2_sum + map_files@[old(job)@.victims[old(job)@.done]].up2,
        !final(job)@.planned,
        final(job)@.new_file_id == old(job)@.new_file_id,
        final(job)@.victims == old(job)@.victims,
        final(job)@.num_active_pages == old(job)@.num_active_pages,
        final(job)@.input_size == old(job)@.input_size,
        final(job)@.output_size == old(job)@.output_size,
        *final(progress) == *final(alone),
        forall|file: FileId| #[trigger]
            final(ctx)@.cleaned_files.contains(file) <==> old(ctx)@.cleaned_files.contains(file)
                || file == FileId::MapFile(old(job)@.victims[old(job)@.done]),
        final(ctx)@.options == old(ctx)@.options,
        final(ctx)@.next_map_file_id == old(ctx)@.next_map_file_id,
        final(ctx)@.orphan_page_files == old(ctx)@.orphan_page_files,
{
}

/// Rewriting goes through the listed files in order, until the store shuts down or
/// there is a newer version.
pub proof fn law_listed_files_are_rewritten_in_order(
    files: Vec<u32>,
    start: RewriteQueue,
    queue: &mut RewriteQueue,
    terminated: bool,
    has_next_version: bool,
    res: Option<u32>,
)
    requires
        call_ensures(rewrite_files, (files,), start),
        call_ensures(RewriteQueue::next_file, (queue, terminated, has_next_version), res),
    ensures
        start@.files == files@,
        start@.done == 0,
        res is Some <==> !terminated && !has_next_version && old(queue)@.done < old(queue)@.files.len(),
        res matches Some(id) ==> id == old(queue)@.files[old(queue)@.done] && final(queue)@.done
            == old(queue)@.done + 1,
        res is None ==> final(queue)@.done == old(queue)@.done,
        final(queue)@.files == old(queue)@.files,
{
}

} // verus!
