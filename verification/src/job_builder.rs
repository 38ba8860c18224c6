//! Groups the files picked for reclaiming into jobs.

use std::collections::HashSet;

use vstd::prelude::*;

use crate::files::FileId;

verus! {

/// Page files with this much live data or less are rewritten directly, in bytes.
pub const SMALL_PAGE_FILE: usize = 16384;

/// A unit of reclaiming work.
#[derive(Debug)]
pub enum ReclaimJob {
    /// Rewrite a page file.
    Rewrite(u32),
    /// Compound a set of page files into a new map file.
    Compound(HashSet<u32>),
    /// Compact a set of map files into a new map file.
    Compact(HashSet<u32>),
}

/// Collects picked files until they are worth a new map file.
#[derive(Debug)]
pub struct ReclaimJobBuilder {
    enable: bool,
    target_file_base: usize,
    compound_files: HashSet<u32>,
    compound_size: usize,
    compact_files: HashSet<u32>,
    compact_size: usize,
}

/// The files that wait for a map file, and the sizes picked with them.
#[verifier::ext_equal]
pub struct PendingFiles {
    /// Whether map files may be made at all.
    pub enable: bool,
    pub target_file_base: nat,
    pub compound_files: Set<u32>,
    pub compound_size: nat,
    pub compact_files: Set<u32>,
    pub compact_size: nat,
}

/// A unit of reclaiming work, over mathematical sets.
pub enum JobView {
    Rewrite(u32),
    Compound(Set<u32>),
    Compact(Set<u32>),
}

impl View for ReclaimJob {
    type V = JobView;

    open spec fn view(&self) -> JobView {
        match self {
            ReclaimJob::Rewrite(id) => JobView::Rewrite(*id),
            ReclaimJob::Compound(ids) => JobView::Compound(ids@),
            ReclaimJob::Compact(ids) => JobView::Compact(ids@),
        }
    }
}

impl View for ReclaimJobBuilder {
    type V = PendingFiles;

    closed spec fn view(&self) -> PendingFiles {
        PendingFiles {
            enable: self.enable,
            target_file_base: self.target_file_base as nat,
            compound_files: self.compound_files@,
            compound_size: self.compound_size as nat,
            compact_files: self.compact_files@,
            compact_size: self.compact_size as nat,
        }
    }
}

impl PendingFiles {
    /// Nothing is pending.
    pub open spec fn empty(enable: bool, target_file_base: nat) -> PendingFiles {
        PendingFiles {
            enable,
            target_file_base,
            compound_files: Set::empty(),
            compound_size: 0,
            compact_files: Set::empty(),
            compact_size: 0,
        }
    }

    /// What is pending is short of the size of a new map file.
    pub open spec fn wf(self) -> bool {
        &&& self.compound_size < self.target_file_base || self.compound_files =~= Set::empty()
        &&& self.compact_size < self.target_file_base || self.compact_files =~= Set::empty()
        &&& self.compound_files =~= Set::empty() ==> self.compound_size == 0
        &&& self.compact_files =~= Set::empty() ==> self.compact_size == 0
    }

    /// Whether a page file is rewritten directly.
    pub open spec fn rewrites(self, active_size: nat) -> bool {
        !self.enable || active_size <= SMALL_PAGE_FILE
    }

    /// The job that adding a file completes, if any.
    pub open spec fn job(self, file: FileId, active_size: nat) -> Option<JobView> {
        match file {
            FileId::Page(id) => if self.rewrites(active_size) {
                Some(JobView::Rewrite(id))
            } else if self.compound_size + active_size >= self.target_file_base {
                Some(JobView::Compound(self.compound_files.insert(id)))
            } else {
                None
            },
            FileId::MapFile(id) => if self.compact_size + active_size >= self.target_file_base {
                Some(JobView::Compact(self.compact_files.insert(id)))
            } else {
                None
            },
        }
    }

    /// What is pending after a file has been added.
    pub open spec fn after(self, file: FileId, active_size: nat) -> PendingFiles {
        match file {
            FileId::Page(id) => if self.rewrites(active_size) {
                self
            } else if self.compound_size + active_size >= self.target_file_base {
                PendingFiles { compound_files: Set::empty(), compound_size: 0, ..self }
            } else {
                PendingFiles {
                    compound_files: self.compound_files.insert(id),
                    compound_size: self.compound_size + active_size,
                    ..self
                }
            },
            FileId::MapFile(id) => if self.compact_size + active_size >= self.target_file_base {
                PendingFiles { compact_files: Set::empty(), compact_size: 0, ..self }
            } else {
                PendingFiles {
                    compact_files: self.compact_files.insert(id),
                    compact_size: self.compact_size + active_size,
                    ..self
                }
            },
        }
    }

    /// Whether a file can be added: map files need map files to be enabled, and
    /// the size waiting with it must fit in a machine integer.
    pub open spec fn accepts(self, file: FileId, active_size: nat) -> bool {
        match file {
            FileId::Page(_) => self.rewrites(active_size) || self.compound_size + active_size
                <= usize::MAX,
            FileId::MapFile(_) => self.enable && self.compact_size + active_size <= usize::MAX,
        }
    }
}

impl ReclaimJobBuilder {
    /// A builder with nothing pending. Map files are made only if `enable` is
    /// set, once `target_file_base` bytes of live data have been collected.
    pub fn new(enable: bool, target_file_base: usize) -> (res: ReclaimJobBuilder)
        ensures
            res@ == PendingFiles::empty(enable, target_file_base as nat),
    {
        ReclaimJobBuilder {
            enable,
            target_file_base,
            compound_files: HashSet::new(),
            compound_size: 0,
            compact_files: HashSet::new(),
            compact_size: 0,
        }
    }

    /// Whether a file can be added.
    pub fn accepts(&self, file: FileId, active_size: usize) -> (res: bool)
        ensures
            res == self@.accepts(file, active_size as nat),
    {
        match file {
            FileId::Page(_) => !self.enable || active_size <= SMALL_PAGE_FILE || active_size
                <= usize::MAX - self.compound_size,
            FileId::MapFile(_) => self.enable && active_size <= usize::MAX - self.compact_size,
        }
    }

    /// Adds a picked file with `active_size` bytes of live data. Small page
    /// files are rewritten directly; other files wait until there is enough
    /// live data for a new map file. Page files and map files are never mixed,
    /// because they have different update frequencies.
    pub fn add(&mut self, file: FileId, active_size: usize) -> (res: Option<ReclaimJob>)
        requires
            old(self)@.accepts(file, active_size as nat),
        ensures
            final(self)@ == old(self)@.after(file, active_size as nat),
            match res {
                Some(job) => old(self)@.job(file, active_size as nat) == Some(job@),
                None => old(self)@.job(file, active_size as nat) is None,
            },
    {
        broadcast use vstd::std_specs::hash::group_hash_axioms;

        match file {
            FileId::Page(file_id) => {
                if !self.enable || active_size <= SMALL_PAGE_FILE {
                    return Some(ReclaimJob::Rewrite(file_id));
                }
                self.compound_size = self.compound_size + active_size;
                self.compound_files.insert(file_id);
                if self.compound_size >= self.target_file_base {
                    self.compound_size = 0;
                    let mut files: HashSet<u32> = HashSet::new();
                    std::mem::swap(&mut files, &mut self.compound_files);
                    return Some(ReclaimJob::Compound(files));
                }
            },
            FileId::MapFile(file_id) => {
                self.compact_size = self.compact_size + active_size;
                self.compact_files.insert(file_id);
                if self.compact_size >= self.target_file_base {
                    self.compact_size = 0;
                    let mut files: HashSet<u32> = HashSet::new();
                    std::mem::swap(&mut files, &mut self.compact_files);
                    return Some(ReclaimJob::Compact(files));
                }
            },
        }
        None
    }
}

impl JobView {
    /// The files that the job reclaims.
    pub open spec fn files(self) -> Set<FileId> {
        match self {
            JobView::Rewrite(id) => set![FileId::Page(id)],
            JobView::Compound(ids) => Set::new(
                |file: FileId| file matches FileId::Page(id) && ids.contains(id),
            ),
            JobView::Compact(ids) => Set::new(
                |file: FileId| file matches FileId::MapFile(id) && ids.contains(id),
            ),
        }
    }
}

impl PendingFiles {
    /// The files that wait for a map file.
    pub open spec fn files(self) -> Set<FileId> {
        Set::new(
            |file: FileId|
                match file {
                    FileId::Page(id) => self.compound_files.contains(id),
                    FileId::MapFile(id) => self.compact_files.contains(id),
                },
        )
    }

    /// What is pending after a series of picks.
    pub open spec fn after_all(self, picks: Seq<(FileId, nat)>) -> PendingFiles
        decreases picks.len(),
    {
        if picks.len() == 0 {
            self
        } else {
            self.after_all(picks.drop_last()).after(picks.last().0, picks.last().1)
        }
    }

    /// The files of all jobs that a series of picks completes.
    pub open spec fn in_jobs(self, picks: Seq<(FileId, nat)>) -> Set<FileId>
        decreases picks.len(),
    {
        if picks.len() == 0 {
            Set::empty()
        } else {
            let before = self.in_jobs(picks.drop_last());
            match self.after_all(picks.drop_last()).job(picks.last().0, picks.last().1) {
                Some(job) => before.union(job.files()),
                None => before,
            }
        }
    }
}

/// What is pending is short of the size of a new map file at the start, and stays
/// so whatever is added.
pub proof fn law_pending_stays_short(pending: PendingFiles, file: FileId, active_size: nat)
    requires
        pending.wf(),
    ensures
        PendingFiles::empty(pending.enable, pending.target_file_base).wf(),
        pending.after(file, active_size).wf(),
        pending.after(file, active_size).enable == pending.enable,
        pending.after(file, active_size).target_file_base == pending.target_file_base,
{
    match file {
        FileId::Page(id) => {
            assert(pending.compound_files.insert(id).contains(id));
        },
        FileId::MapFile(id) => {
            assert(pending.compact_files.insert(id).contains(id));
        },
    }
}

/// Every picked file ends up in a job or stays pending, and nothing else does.
pub proof fn law_no_pick_is_lost(
    enable: bool,
    target_file_base: nat,
    picks: Seq<(FileId, nat)>,
    file: FileId,
)
    ensures
        ({
            let start = PendingFiles::empty(enable, target_file_base);
            (exists|i: int| 0 <= i < picks.len() && #[trigger] picks[i].0 == file) <==> {
                ||| start.in_jobs(picks).contains(file)
                ||| start.after_all(picks).files().contains(file)
            }
        }),
    decreases picks.len(),
{
    let start = PendingFiles::empty(enable, target_file_base);
    if picks.len() > 0 {
        let before = picks.drop_last();
        let last = picks.last();
        law_no_pick_is_lost(enable, target_file_base, before, file);
        let pending = start.after_all(before);
        if exists|i: int| 0 <= i < picks.len() && #[trigger] picks[i].0 == file {
            let i = choose|i: int| 0 <= i < picks.len() && #[trigger] picks[i].0 == file;
            if i < before.len() {
                assert(before[i].0 == file);
            }
        }
        if exists|i: int| 0 <= i < before.len() && #[trigger] before[i].0 == file {
            let i = choose|i: int| 0 <= i < before.len() && #[trigger] before[i].0 == file;
            assert(picks[i].0 == file);
        }
        assert(picks[picks.len() - 1].0 == last.0);
    }
}

/// A map file is made as soon as enough live data has been collected, and not
/// before: without the last file there was less than the target size.
pub proof fn law_map_file_reaches_target(pending: PendingFiles, file: FileId, active_size: nat)
    requires
        pending.wf(),
    ensures
        pending.job(file, active_size) matches Some(JobView::Compound(ids)) ==> {
            &&& file matches FileId::Page(id) && ids == pending.compound_files.insert(id)
            &&& pending.compound_size + active_size >= pending.target_file_base
            &&& active_size > SMALL_PAGE_FILE
            &&& pending.compound_size < pending.target_file_base || pending.compound_size == 0
        },
        pending.job(file, active_size) matches Some(JobView::Compact(ids)) ==> {
            &&& file matches FileId::MapFile(id) && ids == pending.compact_files.insert(id)
            &&& pending.compact_size + active_size >= pending.target_file_base
            &&& pending.compact_size < pending.target_file_base || pending.compact_size == 0
        },
{
}

/// The two kinds of batches that files wait for.
pub enum Batch {
    /// Page files, to be compounded.
    Compound,
    /// Map files, to be compacted.
    Compact,
}

impl PendingFiles {
    /// Whether a picked file waits for a batch.
    pub open spec fn joins(self, batch: Batch, pick: (FileId, nat)) -> bool {
        match batch {
            Batch::Compound => pick.0 is Page && !self.rewrites(pick.1),
            Batch::Compact => pick.0 is MapFile,
        }
    }

    /// The size that waits for a batch.
    pub open spec fn waiting_size(self, batch: Batch) -> nat {
        match batch {
            Batch::Compound => self.compound_size,
            Batch::Compact => self.compact_size,
        }
    }

    /// The files that wait for a batch.
    pub open spec fn waiting_files(self, batch: Batch) -> Set<u32> {
        match batch {
            Batch::Compound => self.compound_files,
            Batch::Compact => self.compact_files,
        }
    }

    /// The batch that a pick completes, if any.
    pub open spec fn completes(self, batch: Batch, pick: (FileId, nat)) -> Option<Set<u32>> {
        match (batch, self.job(pick.0, pick.1)) {
            (Batch::Compound, Some(JobView::Compound(ids))) => Some(ids),
            (Batch::Compact, Some(JobView::Compact(ids))) => Some(ids),
            _ => None,
        }
    }

    /// How many picks there were up to the last one that completed a batch.
    pub open spec fn last_batch(self, batch: Batch, picks: Seq<(FileId, nat)>) -> nat
        decreases picks.len(),
    {
        if picks.len() == 0 {
            0
        } else if self.after_all(picks.drop_last()).completes(batch, picks.last()) is Some {
            picks.len()
        } else {
            self.last_batch(batch, picks.drop_last())
        }
    }

    /// The picks that wait for a batch since the last one was completed.
    pub open spec fn since_last_batch(self, batch: Batch, picks: Seq<(FileId, nat)>) -> Seq<
        (FileId, nat),
    > {
        picks.skip(self.last_batch(batch, picks) as int).filter(
            |pick: (FileId, nat)| self.joins(batch, pick),
        )
    }

    /// The job that a pick out of a series completes, if any.
    pub open spec fn job_at(self, picks: Seq<(FileId, nat)>, i: int) -> Option<JobView> {
        self.after_all(picks.take(i)).job(picks[i].0, picks[i].1)
    }
}

/// The number of a file.
pub open spec fn number_of(file: FileId) -> u32 {
    match file {
        FileId::Page(id) => id,
        FileId::MapFile(id) => id,
    }
}

/// The numbers of picked files.
pub open spec fn numbers_of(picks: Seq<(FileId, nat)>) -> Set<u32> {
    picks.map_values(|pick: (FileId, nat)| number_of(pick.0)).to_set()
}

/// The size of picked files.
pub open spec fn size_of_picks(picks: Seq<(FileId, nat)>) -> nat {
    crate::collections::sum_seq(picks, |pick: (FileId, nat)| pick.1)
}

proof fn lemma_numbers_push(picks: Seq<(FileId, nat)>, pick: (FileId, nat))
    ensures
        numbers_of(picks.push(pick)) == numbers_of(picks).insert(number_of(pick.0)),
        size_of_picks(picks.push(pick)) == size_of_picks(picks) + pick.1,
{
    let f = |pick: (FileId, nat)| number_of(pick.0);
    assert(picks.push(pick).map_values(f) =~= picks.map_values(f).push(f(pick)));
    assert forall|id: u32|
        numbers_of(picks.push(pick)).contains(id) <==> numbers_of(picks).insert(
            number_of(pick.0),
        ).contains(id) by {
        vstd::seq_lib::lemma_seq_contains_after_push(picks.map_values(f), f(pick), id);
    }
    assert(picks.push(pick).drop_last() =~= picks);
}

proof fn lemma_last_batch(start: PendingFiles, batch: Batch, picks: Seq<(FileId, nat)>)
    ensures
        start.last_batch(batch, picks) <= picks.len(),
        start.after_all(picks).enable == start.enable,
        start.after_all(picks).target_file_base == start.target_file_base,
    decreases picks.len(),
{
    if picks.len() > 0 {
        lemma_last_batch(start, batch, picks.drop_last());
    }
}

/// What waits for a batch is what was picked for it since the last one: the size
/// is the sum over those picks, and the files are exactly theirs.
pub proof fn law_waiting_since_the_last_batch(
    enable: bool,
    target_file_base: nat,
    batch: Batch,
    picks: Seq<(FileId, nat)>,
)
    ensures
        ({
            let start = PendingFiles::empty(enable, target_file_base);
            let end = start.after_all(picks);
            let waiting = start.since_last_batch(batch, picks);
            &&& end.waiting_size(batch) == size_of_picks(waiting)
            &&& end.waiting_files(batch) == numbers_of(waiting)
        }),
    decreases picks.len(),
{
    let start = PendingFiles::empty(enable, target_file_base);
    let end = start.after_all(picks);
    let joins = |pick: (FileId, nat)| start.joins(batch, pick);
    reveal(Seq::filter);
    if picks.len() == 0 {
        assert(start.since_last_batch(batch, picks) =~= Seq::empty());
        assert(numbers_of(Seq::empty()) =~= Set::empty());
    } else {
        let rest = picks.drop_last();
        let last = picks.last();
        let before = start.after_all(rest);
        law_waiting_since_the_last_batch(enable, target_file_base, batch, rest);
        lemma_last_batch(start, batch, rest);
        if before.completes(batch, last) is Some {
            assert(picks.skip(picks.len() as int) =~= Seq::empty());
            assert(start.since_last_batch(batch, picks) =~= Seq::empty());
            assert(numbers_of(Seq::empty()) =~= Set::empty());
        } else {
            let k = start.last_batch(batch, rest) as int;
            assert(picks.skip(k).drop_last() =~= rest.skip(k));
            assert(picks.skip(k).last() == last);
            if start.joins(batch, last) {
                assert(start.since_last_batch(batch, picks) == start.since_last_batch(
                    batch,
                    rest,
                ).push(last));
                lemma_numbers_push(start.since_last_batch(batch, rest), last);
            } else {
                assert(start.since_last_batch(batch, picks) == start.since_last_batch(batch, rest));
            }
        }
    }
}

/// A batch holds exactly the files picked for it since the last one, up to the
/// pick that completed it. Together they reach the target size.
pub proof fn law_batch_holds_the_picks_since_the_last(
    enable: bool,
    target_file_base: nat,
    batch: Batch,
    picks: Seq<(FileId, nat)>,
    pick: (FileId, nat),
)
    requires
        PendingFiles::empty(enable, target_file_base).after_all(picks).completes(
            batch,
            pick,
        ) is Some,
    ensures
        ({
            let start = PendingFiles::empty(enable, target_file_base);
            let members = start.since_last_batch(batch, picks).push(pick);
            &&& start.after_all(picks).completes(batch, pick) == Some(numbers_of(members))
            &&& size_of_picks(members) >= target_file_base
            &&& start.joins(batch, pick)
        }),
{
    let start = PendingFiles::empty(enable, target_file_base);
    law_waiting_since_the_last_batch(enable, target_file_base, batch, picks);
    lemma_last_batch(start, batch, picks);
    lemma_numbers_push(start.since_last_batch(batch, picks), pick);
}

/// A waiting file was picked for its batch, after the last one was completed.
proof fn lemma_waiting_file_was_picked(
    start: PendingFiles,
    batch: Batch,
    picks: Seq<(FileId, nat)>,
    id: u32,
) -> (i: int)
    requires
        start == PendingFiles::empty(start.enable, start.target_file_base),
        start.after_all(picks).waiting_files(batch).contains(id),
    ensures
        start.last_batch(batch, picks) <= i < picks.len(),
        number_of(picks[i].0) == id,
        start.joins(batch, picks[i]),
    decreases picks.len(),
{
    let rest = picks.drop_last();
    let last = picks.last();
    lemma_last_batch(start, batch, rest);
    if picks.len() > 0 && start.after_all(rest).waiting_files(batch).contains(id) {
        lemma_waiting_file_was_picked(start, batch, rest, id)
    } else {
        picks.len() - 1
    }
}

/// A file of a job was picked by then, and a batch holds no pick from before the
/// last one.
proof fn lemma_job_file_was_picked(
    start: PendingFiles,
    picks: Seq<(FileId, nat)>,
    j: int,
    file: FileId,
) -> (i: int)
    requires
        start == PendingFiles::empty(start.enable, start.target_file_base),
        0 <= j < picks.len(),
        start.job_at(picks, j) is Some,
        start.job_at(picks, j)->0.files().contains(file),
    ensures
        0 <= i <= j,
        picks[i].0 == file,
        start.job_at(picks, j)->0 is Rewrite ==> i == j && start.rewrites(picks[i].1),
        start.job_at(picks, j)->0 is Compound ==> start.joins(Batch::Compound, picks[i])
            && start.last_batch(Batch::Compound, picks.take(j)) <= i,
        start.job_at(picks, j)->0 is Compact ==> start.joins(Batch::Compact, picks[i])
            && start.last_batch(Batch::Compact, picks.take(j)) <= i,
{
    let before = start.after_all(picks.take(j));
    lemma_last_batch(start, Batch::Compound, picks.take(j));
    lemma_last_batch(start, Batch::Compact, picks.take(j));
    match start.job_at(picks, j)->0 {
        JobView::Rewrite(_) => j,
        JobView::Compound(_) => if picks[j].0 == file {
            j
        } else {
            lemma_waiting_file_was_picked(
                start,
                Batch::Compound,
                picks.take(j),
                number_of(file),
            )
        },
        JobView::Compact(_) => if picks[j].0 == file {
            j
        } else {
            lemma_waiting_file_was_picked(start, Batch::Compact, picks.take(j), number_of(file))
        },
    }
}

/// The files of all jobs are those of the job at one of the picks.
pub proof fn lemma_in_jobs(start: PendingFiles, picks: Seq<(FileId, nat)>, file: FileId)
    ensures
        start.in_jobs(picks).contains(file) <==> exists|i: int|
            0 <= i < picks.len() && (#[trigger] start.job_at(picks, i)) is Some && start.job_at(
                picks,
                i,
            )->0.files().contains(file),
    decreases picks.len(),
{
    if picks.len() > 0 {
        let rest = picks.drop_last();
        let n = picks.len() - 1;
        lemma_in_jobs(start, rest, file);
        assert(picks.take(n) =~= rest);
        assert(start.job_at(picks, n) == start.after_all(rest).job(picks.last().0, picks.last().1));
        assert forall|i: int| 0 <= i < n implies #[trigger] start.job_at(picks, i) == start.job_at(
            rest,
            i,
        ) by {
            assert(picks.take(i) =~= rest.take(i));
        }
        if exists|i: int|
            0 <= i < rest.len() && (#[trigger] start.job_at(rest, i)) is Some && start.job_at(
                rest,
                i,
            )->0.files().contains(file) {
            let i = choose|i: int|
                0 <= i < rest.len() && (#[trigger] start.job_at(rest, i)) is Some
                    && start.job_at(rest, i)->0.files().contains(file);
            assert(start.job_at(picks, i) == start.job_at(rest, i));
        }
    }
}

/// The last batch is no earlier than any that was completed.
proof fn lemma_last_batch_is_last(
    start: PendingFiles,
    batch: Batch,
    picks: Seq<(FileId, nat)>,
    i: int,
    j: int,
)
    requires
        0 <= i < j <= picks.len(),
        start.after_all(picks.take(i)).completes(batch, picks[i]) is Some,
    ensures
        start.last_batch(batch, picks.take(j)) > i,
    decreases j,
{
    let now = picks.take(j);
    assert(now.drop_last() =~= picks.take(j - 1));
    assert(now.last() == picks[j - 1]);
    if i < j - 1 {
        lemma_last_batch_is_last(start, batch, picks, i, j - 1);
    }
}

/// As long as no file is picked twice, no file is part of two jobs, and no file of
/// a job still waits.
pub proof fn law_no_file_is_in_two_jobs(
    enable: bool,
    target_file_base: nat,
    picks: Seq<(FileId, nat)>,
    i: int,
    j: int,
)
    requires
        forall|p: int, q: int|
            0 <= p < q < picks.len() ==> (#[trigger] picks[p]).0 != (#[trigger] picks[q]).0,
        0 <= i < j <= picks.len(),
        PendingFiles::empty(enable, target_file_base).job_at(picks, i) is Some,
    ensures
        ({
            let start = PendingFiles::empty(enable, target_file_base);
            let job = start.job_at(picks, i)->0;
            &&& j < picks.len() && start.job_at(picks, j) is Some ==> job.files().disjoint(
                start.job_at(picks, j)->0.files(),
            )
            &&& job.files().disjoint(start.after_all(picks.take(j)).files())
        }),
{
    let start = PendingFiles::empty(enable, target_file_base);
    let job = start.job_at(picks, i)->0;
    let before = start.after_all(picks.take(i));
    lemma_last_batch(start, Batch::Compound, picks.take(i));
    if job is Compound {
        assert(before.completes(Batch::Compound, picks[i]) is Some);
        lemma_last_batch_is_last(start, Batch::Compound, picks, i, j);
    }
    if job is Compact {
        assert(before.completes(Batch::Compact, picks[i]) is Some);
        lemma_last_batch_is_last(start, Batch::Compact, picks, i, j);
    }
    assert forall|file: FileId| job.files().contains(file) implies !start.after_all(
        picks.take(j),
    ).files().contains(file) by {
        let p = lemma_job_file_was_picked(start, picks, i, file);
        if start.after_all(picks.take(j)).files().contains(file) {
            let batch = match file {
                FileId::Page(_) => Batch::Compound,
                FileId::MapFile(_) => Batch::Compact,
            };
            let q = lemma_waiting_file_was_picked(start, batch, picks.take(j), number_of(file));
            assert(picks.take(j)[q] == picks[q]);
            assert(picks[q].0 == file);
        }
    }
    if j < picks.len() && start.job_at(picks, j) is Some {
        assert forall|file: FileId| job.files().contains(file) implies !start.job_at(
            picks,
            j,
        )->0.files().contains(file) by {
            let p = lemma_job_file_was_picked(start, picks, i, file);
            if start.job_at(picks, j)->0.files().contains(file) {
                let q = lemma_job_file_was_picked(start, picks, j, file);
                assert(picks[p].0 == picks[q].0);
            }
        }
    }
}

/// A new builder has nothing pending, and keeps what it was made with.
pub proof fn law_new_builder_is_empty(enable: bool, target: usize, builder: ReclaimJobBuilder)
    requires
        call_ensures(ReclaimJobBuilder::new, (enable, target), builder),
    ensures
        builder@.enable == enable,
        builder@.target_file_base == target,
        builder@.compound_size == 0,
        builder@.compact_size == 0,
        forall|id: u32| !(#[trigger] builder@.compound_files.contains(id)),
        forall|id: u32| !(#[trigger] builder@.compact_files.contains(id)),
{
}

/// If map files are turned off, every page file is rewritten on its own, whatever
/// its size and whatever is pending, and nothing becomes pending.
pub proof fn law_page_files_are_rewritten_without_map_files(
    builder: &mut ReclaimJobBuilder,
    id: u32,
    active_size: usize,
    res: Option<ReclaimJob>,
)
    requires
        !old(builder)@.enable,
        call_ensures(ReclaimJobBuilder::add, (builder, FileId::Page(id), active_size), res),
    ensures
        res matches Some(ReclaimJob::Rewrite(file_id)) && file_id == id,
        final(builder)@ == old(builder)@,
{
}

/// A page file with 16 KB of live data or less is rewritten on its own, and nothing
/// else changes. A larger one never is, as long as map files are turned on.
pub proof fn law_small_page_files_are_rewritten(
    builder: &mut ReclaimJobBuilder,
    id: u32,
    active_size: usize,
    res: Option<ReclaimJob>,
)
    requires
        call_ensures(ReclaimJobBuilder::add, (builder, FileId::Page(id), active_size), res),
    ensures
        active_size <= 16 * 1024 ==> (res matches Some(ReclaimJob::Rewrite(file_id)) && file_id
            == id) && final(builder)@ == old(builder)@,
        old(builder)@.enable && active_size > 16 * 1024 ==> !(res matches Some(
            ReclaimJob::Rewrite(_),
        )),
{
}

/// A larger page file joins those that wait. They are compounded, all of them,
/// exactly if their live data reaches the target together; nothing waits then. Map
/// files that wait are not touched.
pub proof fn law_large_page_files_are_compounded(
    builder: &mut ReclaimJobBuilder,
    id: u32,
    active_size: usize,
    res: Option<ReclaimJob>,
)
    requires
        old(builder)@.enable,
        active_size > 16 * 1024,
        call_ensures(ReclaimJobBuilder::add, (builder, FileId::Page(id), active_size), res),
    ensures
        old(builder)@.compound_size + active_size >= old(builder)@.target_file_base ==> {
            &&& (res matches Some(ReclaimJob::Compound(victims)) && victims@ == old(
                builder)@.compound_files.insert(id))
            &&& final(builder)@.compound_files == Set::<u32>::empty()
            &&& final(builder)@.compound_size == 0
        },
        old(builder)@.compound_size + active_size < old(builder)@.target_file_base ==> {
            &&& res is None
            &&& final(builder)@.compound_files == old(builder)@.compound_files.insert(id)
            &&& final(builder)@.compound_size == old(builder)@.compound_size + active_size
        },
        final(builder)@.compact_files == old(builder)@.compact_files,
        final(builder)@.compact_size == old(builder)@.compact_size,
        final(builder)@.enable == old(builder)@.enable,
        final(builder)@.target_file_base == old(builder)@.target_file_base,
{
}

/// A map file joins those that wait, however small. They are compacted, all of them,
/// exactly if their live data reaches the target together; nothing waits then. Page
/// files that wait are not touched.
pub proof fn law_map_files_are_compacted(
    builder: &mut ReclaimJobBuilder,
    id: u32,
    active_size: usize,
    res: Option<ReclaimJob>,
)
    requires
        call_ensures(ReclaimJobBuilder::add, (builder, FileId::MapFile(id), active_size), res),
    ensures
        old(builder)@.compact_size + active_size >= old(builder)@.target_file_base ==> {
            &&& (res matches Some(ReclaimJob::Compact(victims)) && victims@ == old(
                builder)@.compact_files.insert(id))
            &&& final(builder)@.compact_files == Set::<u32>::empty()
            &&& final(builder)@.compact_size == 0
        },
        old(builder)@.compact_size + active_size < old(builder)@.target_file_base ==> {
            &&& res is None
            &&& final(builder)@.compact_files == old(builder)@.compact_files.insert(id)
            &&& final(builder)@.compact_size == old(builder)@.compact_size + active_size
        },
        final(builder)@.compound_files == old(builder)@.compound_files,
        final(builder)@.compound_size == old(builder)@.compound_size,
        final(builder)@.enable == old(builder)@.enable,
        final(builder)@.target_file_base == old(builder)@.target_file_base,
{
}

/// Every page file is accepted unless its size overflows, and every map file too if
/// map files are turned on.
pub proof fn law_files_are_accepted(
    builder: ReclaimJobBuilder,
    id: u32,
    active_size: usize,
    page_file: bool,
    map_file: bool,
)
    requires
        call_ensures(ReclaimJobBuilder::accepts, (&builder, FileId::Page(id), active_size), page_file),
        call_ensures(
            ReclaimJobBuilder::accepts,
            (&builder, FileId::MapFile(id), active_size),
            map_file,
        ),
    ensures
        page_file <==> {
            ||| !builder@.enable
            ||| active_size <= 16 * 1024
            ||| builder@.compound_size + active_size <= usize::MAX
        },
        map_file <==> builder@.enable && builder@.compact_size + active_size <= usize::MAX,
{
}

/// If map files are turned off, a series of page files leads to as many rewrites, in
/// order, and nothing ever waits.
pub proof fn law_no_batches_without_map_files(
    target_file_base: nat,
    picks: Seq<(FileId, nat)>,
    i: int,
)
    requires
        forall|k: int| 0 <= k < picks.len() ==> (#[trigger] picks[k]).0 is Page,
        0 <= i < picks.len(),
    ensures
        ({
            let start = PendingFiles::empty(false, target_file_base);
            &&& start.job_at(picks, i) matches Some(JobView::Rewrite(id))
            &&& picks[i].0 == FileId::Page(id)
            &&& start.after_all(picks) == start
        }),
{
    let start = PendingFiles::empty(false, target_file_base);
    lemma_nothing_waits(target_file_base, picks);
    assert forall|k: int| 0 <= k < picks.take(i).len() implies (#[trigger] picks.take(
        i,
    )[k]).0 is Page by {
        assert(picks.take(i)[k] == picks[k]);
    }
    lemma_nothing_waits(target_file_base, picks.take(i));
}

proof fn lemma_nothing_waits(target_file_base: nat, picks: Seq<(FileId, nat)>)
    requires
        forall|k: int| 0 <= k < picks.len() ==> (#[trigger] picks[k]).0 is Page,
    ensures
        PendingFiles::empty(false, target_file_base).after_all(picks) == PendingFiles::empty(
            false,
            target_file_base,
        ),
    decreases picks.len(),
{
    if picks.len() > 0 {
        let rest = picks.drop_last();
        assert forall|k: int| 0 <= k < rest.len() implies (#[trigger] rest[k]).0 is Page by {
            assert(rest[k] == picks[k]);
        }
        lemma_nothing_waits(target_file_base, rest);
        assert(picks[picks.len() - 1].0 is Page);
    }
}

} // verus!
