//! How much space is in use, and whether reclaiming is worth it.

use std::collections::HashMap;

use vstd::prelude::*;

use crate::collections::{elements_of, keys_of};
use crate::files::{FileId, FileInfo, FileSet, MapFileInfo, Version};
use crate::options::Options;

verus! {

/// Whether the live pages of a page file count as live data of the store: the
/// file that stores them is not being cleaned.
pub open spec fn counts_as_base(info: FileInfo, cleaned: Set<FileId>) -> bool {
    &&& info.active_pages@.len() > 0
    &&& match info.map_file_id {
        Some(map_file_id) => !cleaned.contains(FileId::MapFile(map_file_id)),
        None => !cleaned.contains(FileId::Page(info.file_id)),
    }
}

/// Whether a page file occupies space of its own: it has live pages, is not
/// virtual and is not being cleaned.
pub open spec fn counts_as_used(info: FileInfo, cleaned: Set<FileId>) -> bool {
    &&& info.active_pages@.len() > 0
    &&& info.map_file_id is None
    &&& !cleaned.contains(FileId::Page(info.file_id))
}

/// The size of the live data, in bytes.
pub open spec fn base_size(page_files: Map<u32, FileInfo>, cleaned: Set<FileId>) -> nat {
    crate::collections::sum_over(
        page_files.dom(),
        |id: u32|
            if counts_as_base(page_files[id], cleaned) {
                page_files[id].effective_size as nat
            } else {
                0
            },
    )
}

/// The space that page files occupy, in bytes.
pub open spec fn page_file_space(page_files: Map<u32, FileInfo>, cleaned: Set<FileId>) -> nat {
    crate::collections::sum_over(
        page_files.dom(),
        |id: u32|
            if counts_as_used(page_files[id], cleaned) {
                page_files[id].file_size as nat
            } else {
                0
            },
    )
}

/// The space that map files occupy, in bytes.
pub open spec fn map_file_space(map_files: Map<u32, MapFileInfo>, cleaned: Set<FileId>) -> nat {
    crate::collections::sum_over(
        map_files.dom(),
        |id: u32|
            if !cleaned.contains(FileId::MapFile(map_files[id].file_id)) {
                map_files[id].file_size as nat
            } else {
                0
            },
    )
}

/// The size of the live data that a map file stores, in bytes. A page file that
/// the version no longer knows counts for nothing.
pub open spec fn mapped_size(page_ids: Set<u32>, page_files: Map<u32, FileInfo>) -> nat {
    crate::collections::sum_over(
        page_ids,
        |id: u32|
            if page_files.contains_key(id) {
                page_files[id].effective_size as nat
            } else {
                0
            },
    )
}

/// Subtraction that stops at zero.
pub open spec fn monus(a: int, b: int) -> int {
    if a >= b {
        a - b
    } else {
        0
    }
}

/// The size of the live data outside of the files being cleaned.
pub fn compute_base_size(page_files: &HashMap<u32, FileInfo>, cleaned_files: &FileSet) -> (res: u64)
    requires
        base_size(page_files@, cleaned_files@) <= usize::MAX,
    ensures
        res == base_size(page_files@, cleaned_files@),
{
    sum_base_size(page_files, cleaned_files).unwrap() as u64
}

/// A sum as a machine integer, or nothing if it does not fit.
pub open spec fn fitting(sum: nat, res: Option<usize>) -> bool {
    match res {
        Some(size) => size == sum,
        None => sum > usize::MAX,
    }
}

/// Sums up the sizes of the listed files.
fn sum_sizes<F: Fn(u32) -> usize>(
    ids: &Vec<u32>,
    size_of: F,
    Ghost(sizes): Ghost<spec_fn(u32) -> nat>,
) -> (res: Option<usize>)
    requires
        ids@.no_duplicates(),
        forall|id: u32| #[trigger] ids@.to_set().contains(id) ==> size_of.requires((id,)),
        forall|id: u32, size: usize| #[trigger]
            size_of.ensures((id,), size) ==> size == sizes(id),
    ensures
        fitting(crate::collections::sum_over(ids@.to_set(), sizes), res),
{
    proof {
        crate::collections::lemma_sum_list(ids@, sizes);
    }
    let mut sum: usize = 0;
    for i in 0..ids.len()
        invariant
            forall|id: u32| #[trigger] ids@.to_set().contains(id) ==> size_of.requires((id,)),
            forall|id: u32, size: usize| #[trigger]
                size_of.ensures((id,), size) ==> size == sizes(id),
            crate::collections::sum_seq(ids@, sizes) == crate::collections::sum_over(
                ids@.to_set(),
                sizes,
            ),
            sum == crate::collections::sum_seq(ids@.take(i as int), sizes),
    {
        proof {
            assert(ids@.to_set().contains(ids@[i as int]));
            crate::collections::lemma_sum_prefix(ids@, sizes, i as int);
        }
        let size = size_of(ids[i]);
        match sum.checked_add(size) {
            Some(next) => {
                sum = next;
            },
            None => {
                return None;
            },
        }
    }
    assert(ids@.take(ids@.len() as int) =~= ids@);
    Some(sum)
}

fn sum_base_size(page_files: &HashMap<u32, FileInfo>, cleaned_files: &FileSet) -> (res: Option<usize>)
    ensures
        fitting(base_size(page_files@, cleaned_files@), res),
{
    broadcast use vstd::std_specs::hash::group_hash_axioms;

    let ghost sizes = |id: u32|
        if counts_as_base(page_files@[id], cleaned_files@) {
            page_files@[id].effective_size as nat
        } else {
            0
        };
    let size_of = |id: u32| -> (size: usize)
        requires
            page_files@.contains_key(id),
        ensures
            size == sizes(id),
        {
            let info = page_files.get(&id).unwrap();
            let allowed = !info.is_empty() && match info.map_file_id {
                Some(map_file_id) => !cleaned_files.contains(&FileId::MapFile(map_file_id)),
                None => !cleaned_files.contains(&FileId::Page(info.file_id)),
            };
            if allowed {
                info.effective_size
            } else {
                0
            }
        };
    sum_sizes(&keys_of(page_files), size_of, Ghost(sizes))
}

/// The space that files occupy, outside of those being cleaned.
pub fn compute_used_space(
    page_files: &HashMap<u32, FileInfo>,
    map_files: &HashMap<u32, MapFileInfo>,
    cleaned_files: &FileSet,
) -> (res: u64)
    requires
        page_file_space(page_files@, cleaned_files@) <= usize::MAX,
        map_file_space(map_files@, cleaned_files@) <= usize::MAX,
        page_file_space(page_files@, cleaned_files@) + map_file_space(map_files@, cleaned_files@)
            <= u64::MAX,
    ensures
        res == page_file_space(page_files@, cleaned_files@) + map_file_space(
            map_files@,
            cleaned_files@,
        ),
{
    let page_file_size = sum_page_file_space(page_files, cleaned_files).unwrap() as u64;
    let map_file_size = sum_map_file_space(map_files, cleaned_files).unwrap() as u64;
    map_file_size + page_file_size
}

fn sum_page_file_space(page_files: &HashMap<u32, FileInfo>, cleaned_files: &FileSet) -> (res: Option<
    usize,
>)
    ensures
        fitting(page_file_space(page_files@, cleaned_files@), res),
{
    broadcast use vstd::std_specs::hash::group_hash_axioms;

    let ghost sizes = |id: u32|
        if counts_as_used(page_files@[id], cleaned_files@) {
            page_files@[id].file_size as nat
        } else {
            0
        };
    let size_of = |id: u32| -> (size: usize)
        requires
            page_files@.contains_key(id),
        ensures
            size == sizes(id),
        {
            let info = page_files.get(&id).unwrap();
            let allowed = !info.is_empty() && info.map_file_id.is_none()
                && !cleaned_files.contains(&FileId::Page(info.file_id));
            if allowed {
                info.file_size
            } else {
                0
            }
        };
    sum_sizes(&keys_of(page_files), size_of, Ghost(sizes))
}

fn sum_map_file_space(map_files: &HashMap<u32, MapFileInfo>, cleaned_files: &FileSet) -> (res: Option<
    usize,
>)
    ensures
        fitting(map_file_space(map_files@, cleaned_files@), res),
{
    broadcast use vstd::std_specs::hash::group_hash_axioms;

    let ghost sizes = |id: u32|
        if !cleaned_files@.contains(FileId::MapFile(map_files@[id].file_id)) {
            map_files@[id].file_size as nat
        } else {
            0
        };
    let size_of = |id: u32| -> (size: usize)
        requires
            map_files@.contains_key(id),
        ensures
            size == sizes(id),
        {
            let info = map_files.get(&id).unwrap();
            if !cleaned_files.contains(&FileId::MapFile(info.file_id)) {
                info.file_size
            } else {
                0
            }
        };
    sum_sizes(&keys_of(map_files), size_of, Ghost(sizes))
}

fn sum_mapped_size(file: &MapFileInfo, page_files: &HashMap<u32, FileInfo>) -> (res: Option<usize>)
    ensures
        fitting(mapped_size(file.page_files@, page_files@), res),
{
    broadcast use vstd::std_specs::hash::group_hash_axioms;

    let ghost sizes = |id: u32|
        if page_files@.contains_key(id) {
            page_files@[id].effective_size as nat
        } else {
            0
        };
    let size_of = |id: u32| -> (size: usize)
        ensures
            size == sizes(id),
        {
            match page_files.get(&id) {
                Some(info) => info.effective_size,
                None => 0,
            }
        };
    sum_sizes(&elements_of(&file.page_files), size_of, Ghost(sizes))
}

/// Whether the sizes of a set of files can be computed in machine integers.
pub fn is_measurable(version: &Version, cleaned_files: &FileSet) -> (res: bool)
    ensures
        res == ReclaimProgress::measurable(
            version.page_files@,
            version.map_files@,
            cleaned_files@,
        ),
{
    let page_file_size = sum_page_file_space(&version.page_files, cleaned_files);
    let map_file_size = sum_map_file_space(&version.map_files, cleaned_files);
    let base_size = sum_base_size(&version.page_files, cleaned_files);
    match (page_file_size, map_file_size, base_size) {
        (Some(page_file_size), Some(map_file_size), Some(_)) => {
            (page_file_size as u64).checked_add(map_file_size as u64).is_some()
        },
        _ => false,
    }
}

/// Whether the size of the live data of a map file fits in a machine integer.
pub fn is_mapped_size_computable(file: &MapFileInfo, page_files: &HashMap<u32, FileInfo>) -> (res:
    bool)
    ensures
        res == (mapped_size(file.page_files@, page_files@) <= usize::MAX),
{
    sum_mapped_size(file, page_files).is_some()
}

/// Why space should be reclaimed.
#[derive(Debug, Clone, Copy, PartialEq, Eq, Structural)]
pub enum ReclaimReason {
    /// There is no reason.
    NoReason,
    /// The used space is above the high watermark.
    HighSpaceUsage,
    /// The reclaimable space is large against the live data.
    LargeSpaceAmp,
}

/// A record of a verdict on reclaiming, for the trace log. The space
/// amplification is the ratio of `additional_size` to `base_size`.
#[derive(Debug, Clone, Copy, PartialEq, Eq, Structural)]
pub enum ReclaimTrace {
    HighSpaceUsage {
        used_space: u64,
        space_used_high: u64,
        base_size: u64,
        additional_size: u64,
    },
    LargeSpaceAmp { additional_size: u64, target_space_amp: u64, base_size: u64, used_space: u64 },
    NotReclaimable {
        base_size: u64,
        additional_size: u64,
        used_space: u64,
        space_used_high: u64,
    },
}

/// The space in use, kept up to date while files are reclaimed.
#[derive(Debug, Clone, Copy, PartialEq, Eq, Structural, Default)]
pub struct ReclaimProgress {
    /// The highest space amplification, in percent.
    pub target_space_amp: u64,
    /// The high watermark of the used space.
    pub space_used_high: u64,
    /// The size that new files aim at.
    pub file_base_size: u64,
    /// The space that files occupy.
    pub used_space: u64,
    /// The size of the live data.
    pub base_size: u64,
    /// The space that reclaiming could free.
    pub additional_size: u64,
}

impl ReclaimProgress {
    /// What can be reclaimed is what is used beyond the live data.
    pub open spec fn wf(self) -> bool {
        self.additional_size == monus(self.used_space as int, self.base_size as int)
    }

    /// The measure of a set of files.
    pub open spec fn measured(
        option: Options,
        page_files: Map<u32, FileInfo>,
        map_files: Map<u32, MapFileInfo>,
        cleaned: Set<FileId>,
    ) -> ReclaimProgress {
        let used = page_file_space(page_files, cleaned) + map_file_space(map_files, cleaned);
        let base = base_size(page_files, cleaned);
        ReclaimProgress {
            target_space_amp: option.max_space_amplification_percent as u64,
            space_used_high: option.space_used_high,
            file_base_size: option.file_base_size as u64,
            used_space: used as u64,
            base_size: base as u64,
            additional_size: monus(used as int, base as int) as u64,
        }
    }

    /// Whether the sizes of a set of files can be computed in machine integers.
    pub open spec fn measurable(
        page_files: Map<u32, FileInfo>,
        map_files: Map<u32, MapFileInfo>,
        cleaned: Set<FileId>,
    ) -> bool {
        &&& page_file_space(page_files, cleaned) <= usize::MAX
        &&& map_file_space(map_files, cleaned) <= usize::MAX
        &&& page_file_space(page_files, cleaned) + map_file_space(map_files, cleaned) <= u64::MAX
        &&& base_size(page_files, cleaned) <= usize::MAX
    }

    /// The progress after `file_size` bytes of files that held `effective_size`
    /// bytes of live data are gone.
    pub open spec fn without(self, file_size: int, effective_size: int) -> ReclaimProgress {
        let used = monus(self.used_space as int, file_size);
        let base = monus(self.base_size as int, effective_size);
        ReclaimProgress {
            used_space: used as u64,
            base_size: base as u64,
            additional_size: monus(used, base) as u64,
            ..self
        }
    }

    /// The used space is above the high watermark, and at least two files worth
    /// of it could be freed.
    pub open spec fn high_space_usage(self) -> bool {
        &&& self.space_used_high < self.used_space
        &&& 2 * self.file_base_size < self.additional_size
    }

    /// Some space could be freed, and its ratio to the live data is at the
    /// target or above.
    pub open spec fn large_space_amp(self) -> bool {
        &&& 0 < self.additional_size
        &&& self.target_space_amp * self.base_size <= self.additional_size * 100
    }

    /// The reason to reclaim space; high usage comes first.
    pub open spec fn reason(self) -> ReclaimReason {
        if self.high_space_usage() {
            ReclaimReason::HighSpaceUsage
        } else if self.large_space_amp() {
            ReclaimReason::LargeSpaceAmp
        } else {
            ReclaimReason::NoReason
        }
    }

    /// Whether every product that the verdict needs fits in a machine integer.
    pub open spec fn decidable(self) -> bool {
        &&& self.space_used_high < self.used_space ==> 2 * self.file_base_size <= u64::MAX
        &&& !self.high_space_usage() && 0 < self.additional_size ==> {
            &&& self.target_space_amp * self.base_size <= u64::MAX
            &&& self.additional_size * 100 <= u64::MAX
        }
    }

    /// Measures the files of a version, leaving out those being cleaned.
    pub fn new(option: &Options, version: &Version, cleaned_files: &FileSet) -> (res:
        ReclaimProgress)
        requires
            ReclaimProgress::measurable(
                version.page_files@,
                version.map_files@,
                cleaned_files@,
            ),
        ensures
            res == ReclaimProgress::measured(
                *option,
                version.page_files@,
                version.map_files@,
                cleaned_files@,
            ),
            res.wf(),
    {
        let used_space = compute_used_space(
            &version.page_files,
            &version.map_files,
            cleaned_files,
        );
        let base_size = compute_base_size(&version.page_files, cleaned_files);
        let additional_size = used_space.saturating_sub(base_size);
        ReclaimProgress {
            target_space_amp: option.max_space_amplification_percent as u64,
            space_used_high: option.space_used_high,
            file_base_size: option.file_base_size as u64,
            used_space,
            base_size,
            additional_size,
        }
    }

    /// Accounts for a page file that has been reclaimed. A virtual page file
    /// occupies no space of its own and cannot be reclaimed.
    pub fn track_page_file(&mut self, file: &FileInfo)
        requires
            file.map_file_id is None,
        ensures
            *final(self) == old(self).without(file.file_size as int, file.effective_size as int),
            final(self).wf(),
    {
        self.used_space = self.used_space.saturating_sub(file.file_size as u64);
        self.base_size = self.base_size.saturating_sub(file.effective_size as u64);
        self.additional_size = self.used_space.saturating_sub(self.base_size);
    }

    /// Accounts for a map file that has been reclaimed.
    pub fn track_map_file(&mut self, file: &MapFileInfo, page_files: &HashMap<u32, FileInfo>)
        requires
            mapped_size(file.page_files@, page_files@) <= usize::MAX,
        ensures
            *final(self) == old(self).without(
                file.file_size as int,
                mapped_size(file.page_files@, page_files@) as int,
            ),
            final(self).wf(),
    {
        self.used_space = self.used_space.saturating_sub(file.file_size as u64);
        let effective_size = sum_mapped_size(file, page_files).unwrap();
        self.base_size = self.base_size.saturating_sub(effective_size as u64);
        self.additional_size = self.used_space.saturating_sub(self.base_size);
    }

    /// Whether every product that the verdict needs fits in a machine integer.
    pub fn is_decidable(&self) -> (res: bool)
        ensures
            res == self.decidable(),
    {
        if self.space_used_high < self.used_space {
            match self.file_base_size.checked_mul(2) {
                None => {
                    return false;
                },
                Some(two_files) => if two_files < self.additional_size {
                    return true;
                },
            }
        }
        self.additional_size == 0 || (self.target_space_amp.checked_mul(self.base_size).is_some()
            && self.additional_size.checked_mul(100).is_some())
    }

    /// Decides whether space should be reclaimed, and why.
    pub fn reclaim_reason(&self) -> (res: ReclaimReason)
        requires
            self.decidable(),
        ensures
            res == self.reason(),
    {
        if self.space_used_high < self.used_space && 2 * self.file_base_size
            < self.additional_size {
            ReclaimReason::HighSpaceUsage
        } else if 0 < self.additional_size && self.target_space_amp * self.base_size
            <= self.additional_size * 100 {
            ReclaimReason::LargeSpaceAmp
        } else {
            ReclaimReason::NoReason
        }
    }

    /// Whether there is any reason to reclaim space.
    pub fn is_reclaimable(&self) -> (res: bool)
        requires
            self.decidable(),
        ensures
            res == (self.high_space_usage() || self.large_space_amp()),
            res == (self.reason() != ReclaimReason::NoReason),
    {
        match self.reclaim_reason() {
            ReclaimReason::HighSpaceUsage | ReclaimReason::LargeSpaceAmp => true,
            ReclaimReason::NoReason => false,
        }
    }

    /// The record of the verdict for the trace log.
    pub fn trace_log(&self) -> (res: ReclaimTrace)
        requires
            self.decidable(),
        ensures
            res == self.trace(),
    {
        match self.reclaim_reason() {
            ReclaimReason::HighSpaceUsage => ReclaimTrace::HighSpaceUsage {
                used_space: self.used_space,
                space_used_high: self.space_used_high,
                base_size: self.base_size,
                additional_size: self.additional_size,
            },
            ReclaimReason::LargeSpaceAmp => ReclaimTrace::LargeSpaceAmp {
                additional_size: self.additional_size,
                target_space_amp: self.target_space_amp,
                base_size: self.base_size,
                used_space: self.used_space,
            },
            ReclaimReason::NoReason => ReclaimTrace::NotReclaimable {
                base_size: self.base_size,
                additional_size: self.additional_size,
                used_space: self.used_space,
                space_used_high: self.space_used_high,
            },
        }
    }

    /// What the trace log records of the verdict.
    pub open spec fn trace(self) -> ReclaimTrace {
        match self.reason() {
            ReclaimReason::HighSpaceUsage => ReclaimTrace::HighSpaceUsage {
                used_space: self.used_space,
                space_used_high: self.space_used_high,
                base_size: self.base_size,
                additional_size: self.additional_size,
            },
            ReclaimReason::LargeSpaceAmp => ReclaimTrace::LargeSpaceAmp {
                additional_size: self.additional_size,
                target_space_amp: self.target_space_amp,
                base_size: self.base_size,
                used_space: self.used_space,
            },
            ReclaimReason::NoReason => ReclaimTrace::NotReclaimable {
                base_size: self.base_size,
                additional_size: self.additional_size,
                used_space: self.used_space,
                space_used_high: self.space_used_high,
            },
        }
    }
}

/// What a job keeps up to date while it reclaims files.
#[verifier::ext_equal]
pub struct Books {
    pub progress: ReclaimProgress,
    /// The files that have been cleaned.
    pub cleaned: Set<FileId>,
}

impl Books {
    /// A page file has been accounted for and marked as cleaned.
    pub open spec fn after_page_file(self, id: u32, info: FileInfo) -> Books {
        Books {
            progress: self.progress.without(info.file_size as int, info.effective_size as int),
            cleaned: self.cleaned.insert(FileId::Page(id)),
        }
    }

    /// A map file has been accounted for and marked as cleaned.
    pub open spec fn after_map_file(
        self,
        id: u32,
        info: MapFileInfo,
        page_files: Map<u32, FileInfo>,
    ) -> Books {
        Books {
            progress: self.progress.without(
                info.file_size as int,
                mapped_size(info.page_files@, page_files) as int,
            ),
            cleaned: self.cleaned.insert(FileId::MapFile(id)),
        }
    }

    /// Several page files have been accounted for, one after the other.
    pub open spec fn after_page_files(self, ids: Seq<u32>, page_files: Map<u32, FileInfo>) -> Books
        decreases ids.len(),
    {
        if ids.len() == 0 {
            self
        } else {
            self.after_page_files(ids.drop_last(), page_files).after_page_file(
                ids.last(),
                page_files[ids.last()],
            )
        }
    }

    /// Several map files have been accounted for, one after the other.
    pub open spec fn after_map_files(
        self,
        ids: Seq<u32>,
        page_files: Map<u32, FileInfo>,
        map_files: Map<u32, MapFileInfo>,
    ) -> Books
        decreases ids.len(),
    {
        if ids.len() == 0 {
            self
        } else {
            self.after_map_files(ids.drop_last(), page_files, map_files).after_map_file(
                ids.last(),
                map_files[ids.last()],
                page_files,
            )
        }
    }
}

/// Every page file is listed under its own id.
pub open spec fn page_files_by_id(page_files: Map<u32, FileInfo>) -> bool {
    forall|id: u32| #[trigger] page_files.contains_key(id) ==> page_files[id].file_id == id
}

/// Every map file is listed under its own id.
pub open spec fn map_files_by_id(map_files: Map<u32, MapFileInfo>) -> bool {
    forall|id: u32| #[trigger] map_files.contains_key(id) ==> map_files[id].file_id == id
}

/// A map file and the version agree on which page files it stores, and a page
/// file without live pages has no live data.
pub open spec fn maps_its_pages(info: MapFileInfo, page_files: Map<u32, FileInfo>) -> bool {
    forall|id: u32| #[trigger]
        page_files.contains_key(id) ==> {
            &&& page_files[id].map_file_id == Some(info.file_id) <==> info.page_files@.contains(id)
            &&& page_files[id].active_pages@.len() == 0 ==> page_files[id].effective_size == 0
        }
}

/// Tracking a reclaimed page file gives the progress that measuring all files
/// anew would give, with that file marked as cleaned.
pub proof fn law_track_page_file_is_a_new_measure(
    option: Options,
    page_files: Map<u32, FileInfo>,
    map_files: Map<u32, MapFileInfo>,
    cleaned: Set<FileId>,
    id: u32,
)
    requires
        page_files.dom().finite(),
        map_files.dom().finite(),
        page_files_by_id(page_files),
        ReclaimProgress::measurable(page_files, map_files, cleaned),
        page_files.contains_key(id),
        counts_as_used(page_files[id], cleaned),
    ensures
        ReclaimProgress::measured(option, page_files, map_files, cleaned.insert(FileId::Page(id)))
            == ReclaimProgress::measured(option, page_files, map_files, cleaned).without(
            page_files[id].file_size as int,
            page_files[id].effective_size as int,
        ),
{
    let cleaned2 = cleaned.insert(FileId::Page(id));
    let used = |c: Set<FileId>|
        |k: u32|
            if counts_as_used(page_files[k], c) {
                page_files[k].file_size as nat
            } else {
                0
            };
    let base = |c: Set<FileId>|
        |k: u32|
            if counts_as_base(page_files[k], c) {
                page_files[k].effective_size as nat
            } else {
                0
            };
    let rest = page_files.dom().remove(id);
    assert(page_file_space(page_files, cleaned) == crate::collections::sum_over(
        page_files.dom(),
        used(cleaned),
    ));
    crate::collections::lemma_sum_remove(page_files.dom(), used(cleaned), id);
    crate::collections::lemma_sum_remove(page_files.dom(), used(cleaned2), id);
    assert forall|k: u32| #[trigger] rest.contains(k) implies used(cleaned)(k) == used(cleaned2)(
        k,
    ) by {
        assert(page_files.contains_key(k));
    }
    crate::collections::lemma_sum_ext(rest, used(cleaned), used(cleaned2));
    crate::collections::lemma_sum_remove(page_files.dom(), base(cleaned), id);
    crate::collections::lemma_sum_remove(page_files.dom(), base(cleaned2), id);
    assert forall|k: u32| #[trigger] rest.contains(k) implies base(cleaned)(k) == base(cleaned2)(
        k,
    ) by {
        assert(page_files.contains_key(k));
    }
    crate::collections::lemma_sum_ext(rest, base(cleaned), base(cleaned2));
    let maps = |c: Set<FileId>|
        |k: u32|
            if !c.contains(FileId::MapFile(map_files[k].file_id)) {
                map_files[k].file_size as nat
            } else {
                0
            };
    crate::collections::lemma_sum_ext(map_files.dom(), maps(cleaned), maps(cleaned2));
}

/// Tracking a reclaimed map file gives the progress that measuring all files
/// anew would give, with that file marked as cleaned.
pub proof fn law_track_map_file_is_a_new_measure(
    option: Options,
    page_files: Map<u32, FileInfo>,
    map_files: Map<u32, MapFileInfo>,
    cleaned: Set<FileId>,
    id: u32,
)
    requires
        page_files.dom().finite(),
        map_files.dom().finite(),
        map_files_by_id(map_files),
        ReclaimProgress::measurable(page_files, map_files, cleaned),
        map_files.contains_key(id),
        map_files[id].page_files@.finite(),
        maps_its_pages(map_files[id], page_files),
        !cleaned.contains(FileId::MapFile(id)),
    ensures
        ReclaimProgress::measured(
            option,
            page_files,
            map_files,
            cleaned.insert(FileId::MapFile(id)),
        ) == ReclaimProgress::measured(option, page_files, map_files, cleaned).without(
            map_files[id].file_size as int,
            mapped_size(map_files[id].page_files@, page_files) as int,
        ),
{
    let cleaned2 = cleaned.insert(FileId::MapFile(id));
    let stored = map_files[id].page_files@;
    let maps = |c: Set<FileId>|
        |k: u32|
            if !c.contains(FileId::MapFile(map_files[k].file_id)) {
                map_files[k].file_size as nat
            } else {
                0
            };
    let rest = map_files.dom().remove(id);
    crate::collections::lemma_sum_remove(map_files.dom(), maps(cleaned), id);
    crate::collections::lemma_sum_remove(map_files.dom(), maps(cleaned2), id);
    assert forall|k: u32| #[trigger] rest.contains(k) implies maps(cleaned)(k) == maps(cleaned2)(
        k,
    ) by {
        assert(map_files.contains_key(k));
    }
    crate::collections::lemma_sum_ext(rest, maps(cleaned), maps(cleaned2));
    let used = |c: Set<FileId>|
        |k: u32|
            if counts_as_used(page_files[k], c) {
                page_files[k].file_size as nat
            } else {
                0
            };
    crate::collections::lemma_sum_ext(page_files.dom(), used(cleaned), used(cleaned2));
    let base = |c: Set<FileId>|
        |k: u32|
            if counts_as_base(page_files[k], c) {
                page_files[k].effective_size as nat
            } else {
                0
            };
    let mapped = |k: u32|
        if page_files.contains_key(k) {
            page_files[k].effective_size as nat
        } else {
            0
        };
    let here = |k: u32|
        if stored.contains(k) {
            mapped(k)
        } else {
            0
        };
    assert forall|k: u32| #[trigger] page_files.dom().contains(k) implies base(cleaned)(k) == base(
        cleaned2,
    )(k) + here(k) by {
        assert(page_files.contains_key(k));
    }
    crate::collections::lemma_sum_add(page_files.dom(), base(cleaned), base(cleaned2), here);
    let both = page_files.dom().intersect(stored);
    crate::collections::lemma_sum_support(page_files.dom(), both, here);
    crate::collections::lemma_sum_support(stored, both, mapped);
    crate::collections::lemma_sum_ext(both, here, mapped);
}

/// Marking more files as cleaned never raises the used space nor the size of
/// the live data.
pub proof fn law_cleaning_frees_space(
    page_files: Map<u32, FileInfo>,
    map_files: Map<u32, MapFileInfo>,
    cleaned: Set<FileId>,
    more: Set<FileId>,
)
    requires
        page_files.dom().finite(),
        map_files.dom().finite(),
        cleaned.subset_of(more),
    ensures
        page_file_space(page_files, more) <= page_file_space(page_files, cleaned),
        map_file_space(map_files, more) <= map_file_space(map_files, cleaned),
        base_size(page_files, more) <= base_size(page_files, cleaned),
{
    let used = |c: Set<FileId>|
        |k: u32|
            if counts_as_used(page_files[k], c) {
                page_files[k].file_size as nat
            } else {
                0
            };
    crate::collections::lemma_sum_le(page_files.dom(), used(more), used(cleaned));
    let base = |c: Set<FileId>|
        |k: u32|
            if counts_as_base(page_files[k], c) {
                page_files[k].effective_size as nat
            } else {
                0
            };
    crate::collections::lemma_sum_le(page_files.dom(), base(more), base(cleaned));
    let maps = |c: Set<FileId>|
        |k: u32|
            if !c.contains(FileId::MapFile(map_files[k].file_id)) {
                map_files[k].file_size as nat
            } else {
                0
            };
    crate::collections::lemma_sum_le(map_files.dom(), maps(more), maps(cleaned));
}

/// Without space beyond the live data there is nothing to reclaim, however
/// much is used.
pub proof fn law_nothing_to_reclaim(progress: ReclaimProgress)
    requires
        progress.wf(),
        progress.used_space <= progress.base_size,
    ensures
        progress.reason() == ReclaimReason::NoReason,
{
}

/// Reclaiming a file lowers the used space and the live data, never raises
/// them, and keeps the options.
pub proof fn law_tracking_only_lowers(
    progress: ReclaimProgress,
    file_size: usize,
    effective_size: usize,
)
    ensures
        ({
            let after = progress.without(file_size as int, effective_size as int);
            &&& after.used_space <= progress.used_space
            &&& after.base_size <= progress.base_size
            &&& after.wf()
            &&& after.target_space_amp == progress.target_space_amp
            &&& after.space_used_high == progress.space_used_high
            &&& after.file_base_size == progress.file_base_size
            &&& progress.wf() && effective_size <= file_size ==> after.additional_size
                <= progress.additional_size
        }),
{
}

/// The progress after several files have been reclaimed.
pub open spec fn track_all(
    progress: ReclaimProgress,
    page_files: Map<u32, FileInfo>,
    map_files: Map<u32, MapFileInfo>,
    files: Seq<FileId>,
) -> ReclaimProgress
    decreases files.len(),
{
    if files.len() == 0 {
        progress
    } else {
        let before = track_all(progress, page_files, map_files, files.drop_last());
        match files.last() {
            FileId::Page(id) => before.without(
                page_files[id].file_size as int,
                page_files[id].effective_size as int,
            ),
            FileId::MapFile(id) => before.without(
                map_files[id].file_size as int,
                mapped_size(map_files[id].page_files@, page_files) as int,
            ),
        }
    }
}

/// Whether a file occupies space of its own that reclaiming it frees.
pub open spec fn occupies_space(
    file: FileId,
    page_files: Map<u32, FileInfo>,
    map_files: Map<u32, MapFileInfo>,
    cleaned: Set<FileId>,
) -> bool {
    match file {
        FileId::Page(id) => {
            &&& page_files.contains_key(id)
            &&& counts_as_used(page_files[id], cleaned)
        },
        FileId::MapFile(id) => {
            &&& map_files.contains_key(id)
            &&& map_files[id].page_files@.finite()
            &&& maps_its_pages(map_files[id], page_files)
            &&& !cleaned.contains(file)
        },
    }
}

/// Tracking page files and map files one after the other, as they are reclaimed,
/// gives the progress that measuring all files anew would give with all of them
/// marked as cleaned.
pub proof fn law_tracking_keeps_up_with_cleaning(
    option: Options,
    page_files: Map<u32, FileInfo>,
    map_files: Map<u32, MapFileInfo>,
    cleaned: Set<FileId>,
    files: Seq<FileId>,
)
    requires
        page_files.dom().finite(),
        map_files.dom().finite(),
        page_files_by_id(page_files),
        map_files_by_id(map_files),
        ReclaimProgress::measurable(page_files, map_files, cleaned),
        files.no_duplicates(),
        forall|i: int|
            0 <= i < files.len() ==> occupies_space(
                #[trigger] files[i],
                page_files,
                map_files,
                cleaned,
            ),
    ensures
        ReclaimProgress::measured(option, page_files, map_files, cleaned.union(files.to_set()))
            == track_all(
            ReclaimProgress::measured(option, page_files, map_files, cleaned),
            page_files,
            map_files,
            files,
        ),
    decreases files.len(),
{
    if files.len() > 0 {
        let rest = files.drop_last();
        let last = files.last();
        let cleaned2 = cleaned.union(rest.to_set());
        assert forall|i: int| 0 <= i < rest.len() implies occupies_space(
            #[trigger] rest[i],
            page_files,
            map_files,
            cleaned,
        ) by {
            assert(rest[i] == files[i]);
        }
        law_tracking_keeps_up_with_cleaning(option, page_files, map_files, cleaned, rest);
        assert(occupies_space(files[files.len() - 1], page_files, map_files, cleaned));
        assert(!rest.contains(last));
        assert(cleaned.union(files.to_set()) =~= cleaned2.insert(last)) by {
            assert(files =~= rest.push(last));
            assert forall|file: FileId|
                files.to_set().contains(file) <==> rest.to_set().contains(file) || file == last by {
                vstd::seq_lib::lemma_seq_contains_after_push(rest, last, file);
            }
        }
        law_cleaning_frees_space(page_files, map_files, cleaned, cleaned2);
        match last {
            FileId::Page(id) => {
                law_track_page_file_is_a_new_measure(option, page_files, map_files, cleaned2, id);
            },
            FileId::MapFile(id) => {
                law_track_map_file_is_a_new_measure(option, page_files, map_files, cleaned2, id);
            },
        }
    } else {
        assert(cleaned.union(files.to_set()) =~= cleaned);
    }
}

/// A page file adds its size to the used space exactly if it has live pages, is not
/// virtual and is not being cleaned, whatever its sizes. Otherwise it adds nothing.
pub proof fn law_page_file_space_by_file(
    page_files: Map<u32, FileInfo>,
    cleaned: Set<FileId>,
    id: u32,
)
    requires
        page_files.dom().finite(),
        page_files.contains_key(id),
    ensures
        page_file_space(page_files, cleaned) == page_file_space(page_files.remove(id), cleaned)
            + if page_files[id].active_pages@.len() > 0 && page_files[id].map_file_id is None
            && !cleaned.contains(FileId::Page(page_files[id].file_id)) {
            page_files[id].file_size as nat
        } else {
            0
        },
        page_file_space(Map::empty(), cleaned) == 0,
{
    let rest = page_files.remove(id);
    let f = |k: u32|
        if counts_as_used(page_files[k], cleaned) {
            page_files[k].file_size as nat
        } else {
            0
        };
    let g = |k: u32|
        if counts_as_used(rest[k], cleaned) {
            rest[k].file_size as nat
        } else {
            0
        };
    crate::collections::lemma_sum_remove(page_files.dom(), f, id);
    assert(page_files.dom().remove(id) =~= rest.dom());
    crate::collections::lemma_sum_ext(rest.dom(), f, g);
    assert(Map::<u32, FileInfo>::empty().dom().len() == 0);
}

/// The live data of a page file counts exactly if the file that stores it is not
/// being cleaned: its map file if it is virtual, the page file itself if not.
pub proof fn law_base_size_by_file(
    page_files: Map<u32, FileInfo>,
    cleaned: Set<FileId>,
    id: u32,
)
    requires
        page_files.dom().finite(),
        page_files.contains_key(id),
    ensures
        base_size(page_files, cleaned) == base_size(page_files.remove(id), cleaned)
            + if page_files[id].active_pages@.len() > 0 && !cleaned.contains(
            match page_files[id].map_file_id {
                Some(map_file_id) => FileId::MapFile(map_file_id),
                None => FileId::Page(page_files[id].file_id),
            },
        ) {
            page_files[id].effective_size as nat
        } else {
            0
        },
        base_size(Map::empty(), cleaned) == 0,
{
    let rest = page_files.remove(id);
    let f = |k: u32|
        if counts_as_base(page_files[k], cleaned) {
            page_files[k].effective_size as nat
        } else {
            0
        };
    let g = |k: u32|
        if counts_as_base(rest[k], cleaned) {
            rest[k].effective_size as nat
        } else {
            0
        };
    crate::collections::lemma_sum_remove(page_files.dom(), f, id);
    assert(page_files.dom().remove(id) =~= rest.dom());
    crate::collections::lemma_sum_ext(rest.dom(), f, g);
    assert(Map::<u32, FileInfo>::empty().dom().len() == 0);
}

/// A map file adds its size to the used space exactly if it is not being cleaned.
pub proof fn law_map_file_space_by_file(
    map_files: Map<u32, MapFileInfo>,
    cleaned: Set<FileId>,
    id: u32,
)
    requires
        map_files.dom().finite(),
        map_files.contains_key(id),
    ensures
        map_file_space(map_files, cleaned) == map_file_space(map_files.remove(id), cleaned)
            + if !cleaned.contains(FileId::MapFile(map_files[id].file_id)) {
            map_files[id].file_size as nat
        } else {
            0
        },
        map_file_space(Map::empty(), cleaned) == 0,
{
    let rest = map_files.remove(id);
    let f = |k: u32|
        if !cleaned.contains(FileId::MapFile(map_files[k].file_id)) {
            map_files[k].file_size as nat
        } else {
            0
        };
    let g = |k: u32|
        if !cleaned.contains(FileId::MapFile(rest[k].file_id)) {
            rest[k].file_size as nat
        } else {
            0
        };
    crate::collections::lemma_sum_remove(map_files.dom(), f, id);
    assert(map_files.dom().remove(id) =~= rest.dom());
    crate::collections::lemma_sum_ext(rest.dom(), f, g);
    assert(Map::<u32, MapFileInfo>::empty().dom().len() == 0);
}

/// Every page file that the version knows adds its live data to what a map file
/// stores, and no other does.
pub proof fn law_mapped_size_by_file(
    page_ids: Set<u32>,
    page_files: Map<u32, FileInfo>,
    id: u32,
)
    requires
        page_ids.finite(),
        page_ids.contains(id),
    ensures
        mapped_size(page_ids, page_files) == mapped_size(page_ids.remove(id), page_files)
            + if page_files.contains_key(id) {
            page_files[id].effective_size as nat
        } else {
            0
        },
        mapped_size(Set::empty(), page_files) == 0,
{
    let f = |k: u32|
        if page_files.contains_key(k) {
            page_files[k].effective_size as nat
        } else {
            0
        };
    crate::collections::lemma_sum_remove(page_ids, f, id);
    assert(Set::<u32>::empty().len() == 0);
}

/// The used space of two versions that differ in one page file differs by the size
/// of that file if it has live pages, is not virtual and is not being cleaned, and
/// not at all otherwise.
pub proof fn law_used_space_counts_a_page_file(
    page_files: HashMap<u32, FileInfo>,
    rest: HashMap<u32, FileInfo>,
    map_files: HashMap<u32, MapFileInfo>,
    cleaned_files: FileSet,
    id: u32,
    used: u64,
    used_by_rest: u64,
)
    requires
        page_files@.dom().finite(),
        page_files@.contains_key(id),
        rest@ == page_files@.remove(id),
        call_ensures(compute_used_space, (&page_files, &map_files, &cleaned_files), used),
        call_ensures(compute_used_space, (&rest, &map_files, &cleaned_files), used_by_rest),
    ensures
        used == used_by_rest + if page_files@[id].active_pages@.len() > 0
            && page_files@[id].map_file_id is None && !cleaned_files@.contains(
            FileId::Page(page_files@[id].file_id),
        ) {
            page_files@[id].file_size as int
        } else {
            0
        },
{
    law_page_file_space_by_file(page_files@, cleaned_files@, id);
}

/// The used space of two versions that differ in one map file differs by the size
/// of that file, unless it is being cleaned.
pub proof fn law_used_space_counts_a_map_file(
    page_files: HashMap<u32, FileInfo>,
    map_files: HashMap<u32, MapFileInfo>,
    rest: HashMap<u32, MapFileInfo>,
    cleaned_files: FileSet,
    id: u32,
    used: u64,
    used_by_rest: u64,
)
    requires
        map_files@.dom().finite(),
        map_files@.contains_key(id),
        rest@ == map_files@.remove(id),
        call_ensures(compute_used_space, (&page_files, &map_files, &cleaned_files), used),
        call_ensures(compute_used_space, (&page_files, &rest, &cleaned_files), used_by_rest),
    ensures
        used == used_by_rest + if cleaned_files@.contains(
            FileId::MapFile(map_files@[id].file_id),
        ) {
            0
        } else {
            map_files@[id].file_size as int
        },
{
    law_map_file_space_by_file(map_files@, cleaned_files@, id);
}

/// The live data of two versions that differ in one page file differs by the live
/// data of that file, unless it is empty or what stores it is being cleaned.
pub proof fn law_base_size_counts_a_page_file(
    page_files: HashMap<u32, FileInfo>,
    rest: HashMap<u32, FileInfo>,
    cleaned_files: FileSet,
    id: u32,
    base: u64,
    base_of_rest: u64,
)
    requires
        page_files@.dom().finite(),
        page_files@.contains_key(id),
        rest@ == page_files@.remove(id),
        call_ensures(compute_base_size, (&page_files, &cleaned_files), base),
        call_ensures(compute_base_size, (&rest, &cleaned_files), base_of_rest),
    ensures
        base == base_of_rest + if page_files@[id].active_pages@.len() > 0
            && !cleaned_files@.contains(
            match page_files@[id].map_file_id {
                Some(map_file_id) => FileId::MapFile(map_file_id),
                None => FileId::Page(page_files@[id].file_id),
            },
        ) {
            page_files@[id].effective_size as int
        } else {
            0
        },
{
    law_base_size_by_file(page_files@, cleaned_files@, id);
}

/// Without files no space is used, and there is no live data.
pub proof fn law_no_files_no_space(
    page_files: HashMap<u32, FileInfo>,
    map_files: HashMap<u32, MapFileInfo>,
    cleaned_files: FileSet,
    used: u64,
    base: u64,
)
    requires
        page_files@ == Map::<u32, FileInfo>::empty(),
        map_files@ == Map::<u32, MapFileInfo>::empty(),
        call_ensures(compute_used_space, (&page_files, &map_files, &cleaned_files), used),
        call_ensures(compute_base_size, (&page_files, &cleaned_files), base),
    ensures
        used == 0,
        base == 0,
{
    assert(page_files@.dom().len() == 0);
    assert(map_files@.dom().len() == 0);
}

/// A new progress holds the used space and the live data as they are computed, what
/// the one exceeds the other by, and the options as they are.
pub proof fn law_new_progress_is_what_is_computed(
    option: Options,
    version: Version,
    cleaned_files: FileSet,
    progress: ReclaimProgress,
    used: u64,
    base: u64,
)
    requires
        call_ensures(ReclaimProgress::new, (&option, &version, &cleaned_files), progress),
        call_ensures(
            compute_used_space,
            (&version.page_files, &version.map_files, &cleaned_files),
            used,
        ),
        call_ensures(compute_base_size, (&version.page_files, &cleaned_files), base),
    ensures
        progress.used_space == used,
        progress.base_size == base,
        used >= base ==> progress.additional_size == used - base,
        used < base ==> progress.additional_size == 0,
        progress.space_used_high == option.space_used_high,
        progress.file_base_size == option.file_base_size,
        progress.target_space_amp == option.max_space_amplification_percent,
{
}

/// Tracking a page file takes its size off the used space and its live data off the
/// base size, down to zero, and changes no option.
pub proof fn law_tracking_a_page_file_subtracts_it(progress: &mut ReclaimProgress, file: FileInfo)
    requires
        call_ensures(ReclaimProgress::track_page_file, (progress, &file), ()),
    ensures
        old(progress).used_space >= file.file_size ==> final(progress).used_space
            == old(progress).used_space - file.file_size,
        old(progress).used_space < file.file_size ==> final(progress).used_space == 0,
        old(progress).base_size >= file.effective_size ==> final(progress).base_size
            == old(progress).base_size - file.effective_size,
        old(progress).base_size < file.effective_size ==> final(progress).base_size == 0,
        final(progress).used_space >= final(progress).base_size ==> final(progress).additional_size == final(progress).used_space - final(progress).base_size,
        final(progress).used_space < final(progress).base_size ==> final(progress).additional_size
            == 0,
        final(progress).target_space_amp == old(progress).target_space_amp,
        final(progress).space_used_high == old(progress).space_used_high,
        final(progress).file_base_size == old(progress).file_base_size,
{
}

/// Tracking a map file takes its size off the used space, down to zero, and keeps
/// the options. A map file that stores no page file takes nothing off the base
/// size.
pub proof fn law_tracking_a_map_file_subtracts_it(
    progress: &mut ReclaimProgress,
    file: MapFileInfo,
    page_files: HashMap<u32, FileInfo>,
)
    requires
        call_ensures(ReclaimProgress::track_map_file, (progress, &file, &page_files), ()),
    ensures
        old(progress).used_space >= file.file_size ==> final(progress).used_space
            == old(progress).used_space - file.file_size,
        old(progress).used_space < file.file_size ==> final(progress).used_space == 0,
        file.page_files@ == Set::<u32>::empty() ==> final(progress).base_size == old(progress).base_size,
        final(progress).used_space >= final(progress).base_size ==> final(progress).additional_size == final(progress).used_space - final(progress).base_size,
        final(progress).used_space < final(progress).base_size ==> final(progress).additional_size
            == 0,
        final(progress).target_space_amp == old(progress).target_space_amp,
        final(progress).space_used_high == old(progress).space_used_high,
        final(progress).file_base_size == old(progress).file_base_size,
{
    assert(Set::<u32>::empty().len() == 0);
}

/// Tracking a map file that stores one page file more takes the live data of that
/// page file off the base size as well, down to zero, if the version knows it.
pub proof fn law_tracking_a_map_file_counts_its_page_files(
    progress: &mut ReclaimProgress,
    file: MapFileInfo,
    other: &mut ReclaimProgress,
    smaller: MapFileInfo,
    page_files: HashMap<u32, FileInfo>,
    id: u32,
)
    requires
        file.page_files@.finite(),
        file.page_files@.contains(id),
        smaller.page_files@ == file.page_files@.remove(id),
        *old(progress) == *old(other),
        call_ensures(ReclaimProgress::track_map_file, (progress, &file, &page_files), ()),
        call_ensures(ReclaimProgress::track_map_file, (other, &smaller, &page_files), ()),
    ensures
        ({
            let size = if page_files@.contains_key(id) {
                page_files@[id].effective_size as int
            } else {
                0
            };
            final(progress).base_size == if final(other).base_size >= size {
                final(other).base_size - size
            } else {
                0
            }
        }),
{
    law_mapped_size_by_file(file.page_files@, page_files@, id);
}

/// There is a reason to reclaim space exactly if the used space is above the
/// watermark and more than two files worth could be freed, or if some space could be
/// freed and its ratio to the live data is at the target or above. The first of
/// these comes first.
pub proof fn law_reason_follows_the_sizes(
    progress: ReclaimProgress,
    reason: ReclaimReason,
    reclaimable: bool,
)
    requires
        call_ensures(ReclaimProgress::reclaim_reason, (&progress,), reason),
        call_ensures(ReclaimProgress::is_reclaimable, (&progress,), reclaimable),
    ensures
        progress.space_used_high < progress.used_space && 2 * progress.file_base_size
            < progress.additional_size <==> reason == ReclaimReason::HighSpaceUsage,
        reason != ReclaimReason::HighSpaceUsage ==> (reason == ReclaimReason::LargeSpaceAmp <==> 0
            < progress.additional_size && progress.target_space_amp * progress.base_size
            <= progress.additional_size * 100),
        reclaimable <==> {
            ||| progress.space_used_high < progress.used_space && 2 * progress.file_base_size
                < progress.additional_size
            ||| 0 < progress.additional_size && progress.target_space_amp * progress.base_size
                <= progress.additional_size * 100
        },
{
}

/// The trace tells the reason, with the sizes that it rests on.
pub proof fn law_trace_tells_the_reason(
    progress: ReclaimProgress,
    reason: ReclaimReason,
    trace: ReclaimTrace,
)
    requires
        call_ensures(ReclaimProgress::reclaim_reason, (&progress,), reason),
        call_ensures(ReclaimProgress::trace_log, (&progress,), trace),
    ensures
        match trace {
            ReclaimTrace::HighSpaceUsage {
                used_space,
                space_used_high,
                base_size,
                additional_size,
            } => {
                &&& reason == ReclaimReason::HighSpaceUsage
                &&& used_space == progress.used_space
                &&& space_used_high == progress.space_used_high
                &&& base_size == progress.base_size
                &&& additional_size == progress.additional_size
            },
            ReclaimTrace::LargeSpaceAmp {
                additional_size,
                target_space_amp,
                base_size,
                used_space,
            } => {
                &&& reason == ReclaimReason::LargeSpaceAmp
                &&& used_space == progress.used_space
                &&& target_space_amp == progress.target_space_amp
                &&& base_size == progress.base_size
                &&& additional_size == progress.additional_size
            },
            ReclaimTrace::NotReclaimable {
                base_size,
                additional_size,
                used_space,
                space_used_high,
            } => {
                &&& reason == ReclaimReason::NoReason
                &&& used_space == progress.used_space
                &&& space_used_high == progress.space_used_high
                &&& base_size == progress.base_size
                &&& additional_size == progress.additional_size
            },
        },
{
}

/// A verdict is out of reach only if a product that it needs does not fit in 64
/// bits.
pub proof fn law_verdict_is_in_reach(progress: ReclaimProgress, res: bool)
    requires
        call_ensures(ReclaimProgress::is_decidable, (&progress,), res),
    ensures
        2 * progress.file_base_size <= u64::MAX && progress.target_space_amp * progress.base_size
            <= u64::MAX && progress.additional_size * 100 <= u64::MAX ==> res,
        res && progress.space_used_high < progress.used_space ==> 2 * progress.file_base_size
            <= u64::MAX,
        res && progress.space_used_high >= progress.used_space && progress.additional_size > 0
            ==> progress.target_space_amp * progress.base_size <= u64::MAX
            && progress.additional_size * 100 <= u64::MAX,
        progress.space_used_high < progress.used_space && 2 * progress.file_base_size
            < progress.additional_size ==> res,
{
}

/// The sizes of a version are out of reach only if one of them does not fit in a
/// machine integer.
pub proof fn law_sizes_are_in_reach(version: Version, cleaned_files: FileSet, res: bool)
    requires
        call_ensures(is_measurable, (&version, &cleaned_files), res),
    ensures
        res <==> {
            let pages = page_file_space(version.page_files@, cleaned_files@);
            let maps = map_file_space(version.map_files@, cleaned_files@);
            &&& pages <= usize::MAX
            &&& maps <= usize::MAX
            &&& pages + maps <= u64::MAX
            &&& base_size(version.page_files@, cleaned_files@) <= usize::MAX
        },
{
}

/// The live data of a map file is out of reach only if it does not fit in a machine
/// integer.
pub proof fn law_mapped_size_is_in_reach(
    file: MapFileInfo,
    page_files: HashMap<u32, FileInfo>,
    res: bool,
)
    requires
        call_ensures(is_mapped_size_computable, (&file, &page_files), res),
    ensures
        res <==> mapped_size(file.page_files@, page_files@) <= usize::MAX,
{
}

} // verus!
