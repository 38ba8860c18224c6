//! Reclaiming page files that a crash left behind.
//!
//! A page file that has been compounded into a map file may still hold the only
//! records of some deallocated pages. If the store stops before those are
//! recorded again, the file is an orphan at the next start.

use std::collections::HashSet;

use vstd::prelude::*;

use crate::collections::elements_of;
use crate::edit::{make_orphan_page_file_edit, DeltaVersion, VersionEdit};

verus! {

/// Orphan page files whose deallocated pages are recorded again, one file after
/// the other.
#[derive(Debug)]
pub struct OrphanJob {
    files: HashSet<u32>,
    queue: Vec<u32>,
    next: usize,
}

/// The state of reclaiming orphan page files.
pub struct OrphanView {
    /// The orphans.
    pub files: Set<u32>,
    /// The orphans in the order in which they are dealt with.
    pub queue: Seq<u32>,
    /// How many of them have been dealt with.
    pub done: int,
}

impl View for OrphanJob {
    type V = OrphanView;

    closed spec fn view(&self) -> OrphanView {
        OrphanView { files: self.files@, queue: self.queue@, done: self.next as int }
    }
}

impl OrphanView {
    /// Every orphan is dealt with once.
    pub open spec fn wf(self) -> bool {
        &&& 0 <= self.done <= self.queue.len()
        &&& self.queue.no_duplicates()
        &&& self.queue.to_set() == self.files
    }
}

impl OrphanJob {
    #[verifier::type_invariant]
    spec fn inv(self) -> bool {
        self@.wf()
    }

    /// Starts with the first of the given files.
    pub fn new(files: HashSet<u32>) -> (res: OrphanJob)
        ensures
            res@.wf(),
            res@.files == files@,
            res@.done == 0,
    {
        let queue = elements_of(&files);
        OrphanJob { files, queue, next: 0 }
    }

    /// The orphans.
    pub fn files(&self) -> (res: &HashSet<u32>)
        ensures
            res@ == self@.files,
    {
        &self.files
    }

    /// The orphan to deal with next.
    pub fn next_file(&self) -> (res: Option<u32>)
        ensures
            self@.wf(),
            res == if self@.done < self@.queue.len() {
                Some(self@.queue[self@.done])
            } else {
                None
            },
    {
        proof {
            use_type_invariant(self);
        }
        if self.next < self.queue.len() {
            Some(self.queue[self.next])
        } else {
            None
        }
    }

    /// The deallocated pages of the orphan have been recorded again.
    pub fn file_done(&mut self)
        requires
            old(self)@.done < old(self)@.queue.len(),
        ensures
            final(self)@ == (OrphanView { done: old(self)@.done + 1, ..old(self)@ }),
    {
        proof {
            use_type_invariant(&*self);
        }
        assert(self.next < self.queue.len());
        self.next = self.next + 1;
    }

    /// The manifest entry that deletes the orphans, once all of them have been
    /// dealt with.
    pub fn edit(&self) -> (res: VersionEdit)
        requires
            self@.done == self@.queue.len(),
        ensures
            res.records_orphans(self@.files),
    {
        make_orphan_page_file_edit(&self.files)
    }

    /// The manifest has recorded that the orphans are deleted.
    pub fn recorded(self) -> (res: RecordedOrphans)
        requires
            self@.done == self@.queue.len(),
        ensures
            res@ == self@.files,
    {
        RecordedOrphans { files: self.files }
    }
}

/// Orphan page files that the manifest has deleted.
#[derive(Debug)]
pub struct RecordedOrphans {
    files: HashSet<u32>,
}

impl View for RecordedOrphans {
    type V = Set<u32>;

    closed spec fn view(&self) -> Set<u32> {
        self.files@
    }
}

impl RecordedOrphans {
    /// Drops the orphans from the next version.
    pub fn install(self, delta: &mut DeltaVersion)
        ensures
            final(delta).without_orphans(*old(delta), self@),
    {
        delta.drop_orphans(self.files);
    }
}

/// Every orphan is dealt with once, before the manifest deletes exactly the orphans.
pub proof fn law_every_orphan_is_dealt_with(
    orphans: HashSet<u32>,
    job: OrphanJob,
    ended: OrphanJob,
    next: Option<u32>,
    edit: VersionEdit,
    recorded: RecordedOrphans,
)
    requires
        call_ensures(OrphanJob::new, (orphans,), job),
        call_ensures(OrphanJob::next_file, (&ended,), next),
        call_ensures(OrphanJob::edit, (&ended,), edit),
        call_ensures(OrphanJob::recorded, (ended,), recorded),
    ensures
        job@.done == 0,
        job@.queue.no_duplicates(),
        forall|id: u32| #[trigger] job@.queue.contains(id) <==> orphans@.contains(id),
        job@.files == orphans@,
        next is None <==> ended@.done >= ended@.queue.len(),
        next matches Some(id) ==> id == ended@.queue[ended@.done],
        edit.map_stream is None,
        edit.page_stream is Some,
        edit.page_stream->0.new_files@.len() == 0,
        edit.page_stream->0.deleted_files@.no_duplicates(),
        forall|id: u32| #[trigger]
            edit.page_stream->0.deleted_files@.contains(id) <==> ended@.files.contains(id),
        recorded@ == ended@.files,
{
    assert forall|id: u32| #[trigger] job@.queue.contains(id) <==> orphans@.contains(id) by {
        assert(job@.queue.to_set().contains(id) <==> job@.queue.contains(id));
    }
    assert forall|id: u32| #[trigger]
        edit.page_stream->0.deleted_files@.contains(id) <==> ended@.files.contains(id) by {
        let deleted = edit.page_stream->0.deleted_files@;
        assert(deleted.to_set().contains(id) <==> deleted.contains(id));
    }
}

/// Installing the deletion of orphans takes exactly those out of the version that are
/// page files of their own.
pub proof fn law_installed_orphans_are_dropped(recorded: RecordedOrphans, delta: &mut DeltaVersion)
    requires
        call_ensures(RecordedOrphans::install, (recorded, delta), ()),
    ensures
        forall|id: u32| #[trigger]
            final(delta).page_files@.contains_key(id) <==> old(delta).page_files@.contains_key(id)
                && !(recorded@.contains(id) && old(delta).page_files@[id].map_file_id is None),
        forall|id: u32|
            (#[trigger] final(delta).page_files@.contains_key(id)) ==> final(delta).page_files@[id]
                == old(delta).page_files@[id],
        final(delta).map_files@ == old(delta).map_files@,
        final(delta).obsoleted_page_files@ == recorded@,
        final(delta).obsoleted_map_files@ == old(delta).obsoleted_map_files@,
        final(delta).reason == crate::edit::VersionUpdateReason::Compact,
{
}

} // verus!
