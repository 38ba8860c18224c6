//! Putting a new map file in place.
//!
//! The manifest records the change first; then the version is installed; then
//! the deallocated pages of compounded page files are recorded again. If the
//! store stops in between, the page files that are left are orphans at the next
//! start and are dealt with then.

use std::collections::{HashMap, HashSet};

use vstd::prelude::*;

use crate::collections::keys_of;
use crate::edit::{
    make_compact_version_edit, make_compound_version_edit, DeltaVersion, VersionEdit,
};
use crate::files::{FileInfo, MapFileInfo};

verus! {

/// A map file made out of page files, before the manifest knows of it.
#[derive(Debug)]
pub struct CompoundChange {
    pub file_id: u32,
    pub map_file: MapFileInfo,
    pub virtual_page_files: HashMap<u32, FileInfo>,
    pub obsoleted_files: Vec<u32>,
    pub dealloc_page_map: HashMap<u32, Vec<u64>>,
}

/// A map file made out of page files that the manifest has recorded.
#[derive(Debug)]
pub struct RecordedCompound {
    change: CompoundChange,
}

/// Page files whose deallocated pages have to be recorded again, one file after
/// the other.
#[derive(Debug)]
pub struct DeallocQueue {
    dealloc_page_map: HashMap<u32, Vec<u64>>,
    queue: Vec<u32>,
    next: usize,
}

/// A map file made out of other map files, before the manifest knows of it.
#[derive(Debug)]
pub struct CompactChange {
    pub file_id: u32,
    pub map_file: MapFileInfo,
    pub virtual_page_files: HashMap<u32, FileInfo>,
    pub victims: HashSet<u32>,
}

/// A map file made out of other map files that the manifest has recorded.
#[derive(Debug)]
pub struct RecordedCompact {
    change: CompactChange,
}

/// The state of recording the deallocated pages of several page files again.
pub struct DeallocQueueView {
    /// The deallocated pages of each page file.
    pub dealloc_page_map: Map<u32, Vec<u64>>,
    /// The page files in the order in which they are dealt with.
    pub queue: Seq<u32>,
    /// How many of them have been dealt with.
    pub done: int,
}

impl CompoundChange {
    /// The manifest entry for the change.
    pub fn edit(&self) -> (res: VersionEdit)
        ensures
            res.records_compound(self.map_file, self.obsoleted_files@),
    {
        make_compound_version_edit(&self.map_file, self.obsoleted_files.as_slice())
    }

    /// The manifest has recorded the change.
    pub fn recorded(self) -> (res: RecordedCompound)
        ensures
            res@ == self,
    {
        RecordedCompound { change: self }
    }
}

impl View for RecordedCompound {
    type V = CompoundChange;

    closed spec fn view(&self) -> CompoundChange {
        self.change
    }
}

impl RecordedCompound {
    /// Adds the change to the next version. What remains is to record the
    /// deallocated pages of the page files that could not be deleted yet.
    pub fn install(self, delta: &mut DeltaVersion) -> (res: DeallocQueue)
        ensures
            final(delta).with_compound(
                *old(delta),
                self@.file_id,
                self@.map_file,
                self@.virtual_page_files@,
                self@.obsoleted_files@.to_set(),
            ),
            res@.wf(),
            res@.dealloc_page_map == self@.dealloc_page_map@,
            res@.done == 0,
    {
        let change = self.change;
        delta.compound(
            change.file_id,
            change.map_file,
            change.virtual_page_files,
            change.obsoleted_files,
        );
        let queue = keys_of(&change.dealloc_page_map);
        DeallocQueue { dealloc_page_map: change.dealloc_page_map, queue, next: 0 }
    }
}

impl View for DeallocQueue {
    type V = DeallocQueueView;

    closed spec fn view(&self) -> DeallocQueueView {
        DeallocQueueView {
            dealloc_page_map: self.dealloc_page_map@,
            queue: self.queue@,
            done: self.next as int,
        }
    }
}

impl DeallocQueueView {
    /// Every page file is dealt with once.
    pub open spec fn wf(self) -> bool {
        &&& 0 <= self.done <= self.queue.len()
        &&& self.queue.no_duplicates()
        &&& self.queue.to_set() == self.dealloc_page_map.dom()
    }
}

impl DeallocQueue {
    #[verifier::type_invariant]
    spec fn inv(self) -> bool {
        self@.wf()
    }

    /// The page file to deal with next, and its deallocated pages.
    pub fn next_file(&self) -> (res: Option<(u32, &Vec<u64>)>)
        ensures
            self@.wf(),
            match res {
                Some((file_id, pages)) => {
                    &&& self@.done < self@.queue.len()
                    &&& file_id == self@.queue[self@.done]
                    &&& self@.dealloc_page_map.contains_pair(file_id, *pages)
                },
                None => self@.done == self@.queue.len(),
            },
    {
        broadcast use vstd::std_specs::hash::group_hash_axioms;

        proof {
            use_type_invariant(self);
        }
        if self.next < self.queue.len() {
            let file_id = self.queue[self.next];
            assert(self.queue@.to_set().contains(file_id));
            Some((file_id, self.dealloc_page_map.get(&file_id).unwrap()))
        } else {
            None
        }
    }

    /// The deallocated pages of the file have been recorded again.
    pub fn file_done(&mut self)
        requires
            old(self)@.done < old(self)@.queue.len(),
        ensures
            final(self)@ == (DeallocQueueView { done: old(self)@.done + 1, ..old(self)@ }),
    {
        proof {
            use_type_invariant(&*self);
        }
        assert(self.next < self.queue.len());
        self.next = self.next + 1;
    }
}

impl CompactChange {
    /// The manifest entry for the change. All map files that went into the new
    /// one are deleted, since no page moves to another address.
    pub fn edit(&self) -> (res: VersionEdit)
        ensures
            res.records_compact(self.map_file, self.victims@),
    {
        make_compact_version_edit(&self.map_file, &self.victims)
    }

    /// The manifest has recorded the change.
    pub fn recorded(self) -> (res: RecordedCompact)
        ensures
            res@ == self,
    {
        RecordedCompact { change: self }
    }
}

impl View for RecordedCompact {
    type V = CompactChange;

    closed spec fn view(&self) -> CompactChange {
        self.change
    }
}

impl RecordedCompact {
    /// Adds the change to the next version.
    pub fn install(self, delta: &mut DeltaVersion)
        ensures
            final(delta).with_compact(
                *old(delta),
                self@.file_id,
                self@.map_file,
                self@.virtual_page_files@,
                self@.victims@,
            ),
    {
        let change = self.change;
        delta.compact(change.file_id, change.map_file, change.virtual_page_files, change.victims);
    }
}

/// When page files have been compounded, the manifest deletes exactly those of
/// them without deallocated pages. The others stay until their deallocated pages
/// have been recorded again, and none of those records is lost if the store stops
/// before.
pub proof fn law_manifest_keeps_files_with_deallocated_pages(
    new_file_id: u32,
    victims: Seq<u32>,
    files: Seq<(FileInfo, Vec<u64>)>,
    map_file: MapFileInfo,
    edit: VersionEdit,
)
    requires
        crate::collections::ascending(victims),
        files.len() == victims.len(),
        edit.records_compound(
            map_file,
            crate::compound::CompoundView::start(new_file_id, victims).after_all(
                files,
            ).obsoleted_files,
        ),
    ensures
        forall|i: int|
            0 <= i < victims.len() ==> (edit.page_stream->0.deleted_files@.contains(
                #[trigger] victims[i],
            ) <==> files[i].1@.len() == 0),
{
    crate::compound::law_compound_splits_victims(new_file_id, victims, files);
    assert forall|i: int| 0 <= i < victims.len() implies (
    edit.page_stream->0.deleted_files@.contains(#[trigger] victims[i]) <==> files[i].1@.len()
        == 0) by {
        assert(files[i].1@.len() == 0 || files[i].1@.len() > 0);
    }
}

/// Installing a compound change puts its map file in place and keeps every page
/// file, virtual where the change says so. What is left to do is to record the
/// deallocated pages of the files that the change names, all of them.
pub proof fn law_installed_compound_keeps_every_file(
    recorded: RecordedCompound,
    delta: &mut DeltaVersion,
    queue: DeallocQueue,
)
    requires
        call_ensures(RecordedCompound::install, (recorded, delta), queue),
    ensures
        forall|id: u32| #[trigger]
            final(delta).page_files@.contains_key(id) <==> old(delta).page_files@.contains_key(id)
                || recorded@.virtual_page_files@.contains_key(id),
        forall|id: u32|
            recorded@.virtual_page_files@.contains_key(id) ==> #[trigger] final(delta).page_files@[id]
                == recorded@.virtual_page_files@[id],
        forall|id: u32|
            old(delta).page_files@.contains_key(id) && !recorded@.virtual_page_files@.contains_key(id)
                ==> #[trigger] final(delta).page_files@[id] == old(delta).page_files@[id],
        forall|id: u32| #[trigger]
            final(delta).map_files@.contains_key(id) <==> old(delta).map_files@.contains_key(id)
                || id == recorded@.file_id,
        final(delta).map_files@[recorded@.file_id] == recorded@.map_file,
        forall|id: u32|
            id != recorded@.file_id && old(delta).map_files@.contains_key(id) ==> #[trigger] final(delta).map_files@[id] == old(delta).map_files@[id],
        forall|id: u32| #[trigger]
            final(delta).obsoleted_page_files@.contains(id) <==> recorded@.obsoleted_files@.contains(id),
        final(delta).obsoleted_map_files@ == old(delta).obsoleted_map_files@,
        final(delta).reason == crate::edit::VersionUpdateReason::Compact,
        queue@.done == 0,
        queue@.queue.no_duplicates(),
        forall|id: u32| #[trigger]
            queue@.queue.contains(id) <==> recorded@.dealloc_page_map@.contains_key(id),
        queue@.dealloc_page_map == recorded@.dealloc_page_map@,
{
    assert forall|id: u32| #[trigger]
        final(delta).obsoleted_page_files@.contains(id) <==> recorded@.obsoleted_files@.contains(
            id,
        ) by {
        let files = recorded@.obsoleted_files@;
        assert(files.to_set().contains(id) <==> files.contains(id));
    }
    assert forall|id: u32| #[trigger]
        queue@.queue.contains(id) <==> recorded@.dealloc_page_map@.contains_key(id) by {
        assert(queue@.queue.to_set().contains(id) <==> queue@.queue.contains(id));
    }
}

/// Installing a compact change puts its map file in the place of the victims and
/// keeps every other file.
pub proof fn law_installed_compact_keeps_every_other_file(
    recorded: RecordedCompact,
    delta: &mut DeltaVersion,
)
    requires
        call_ensures(RecordedCompact::install, (recorded, delta), ()),
    ensures
        forall|id: u32| #[trigger]
            final(delta).page_files@.contains_key(id) <==> old(delta).page_files@.contains_key(id)
                || recorded@.virtual_page_files@.contains_key(id),
        forall|id: u32|
            recorded@.virtual_page_files@.contains_key(id) ==> #[trigger] final(delta).page_files@[id]
                == recorded@.virtual_page_files@[id],
        forall|id: u32|
            old(delta).page_files@.contains_key(id) && !recorded@.virtual_page_files@.contains_key(id)
                ==> #[trigger] final(delta).page_files@[id] == old(delta).page_files@[id],
        forall|id: u32| #[trigger]
            final(delta).map_files@.contains_key(id) <==> id == recorded@.file_id || (
            old(delta).map_files@.contains_key(id) && !recorded@.victims@.contains(id)),
        final(delta).map_files@[recorded@.file_id] == recorded@.map_file,
        forall|id: u32|
            id != recorded@.file_id && old(delta).map_files@.contains_key(id) && !recorded@.victims@.contains(id)
                ==> #[trigger] final(delta).map_files@[id] == old(delta).map_files@[id],
        final(delta).obsoleted_map_files@ == recorded@.victims@,
        final(delta).obsoleted_page_files@ == old(delta).obsoleted_page_files@,
        final(delta).reason == crate::edit::VersionUpdateReason::Compact,
{
}

/// A change is installed as it was recorded, and recorded as it was made.
pub proof fn law_change_is_recorded_as_made(
    compound: CompoundChange,
    recorded_compound: RecordedCompound,
    compact: CompactChange,
    recorded_compact: RecordedCompact,
)
    requires
        call_ensures(CompoundChange::recorded, (compound,), recorded_compound),
        call_ensures(CompactChange::recorded, (compact,), recorded_compact),
    ensures
        recorded_compound@ == compound,
        recorded_compact@ == compact,
{
}

/// The manifest is told of a change what the change holds.
pub proof fn law_manifest_is_told_of_the_change(
    compound: CompoundChange,
    compound_edit: VersionEdit,
    compact: CompactChange,
    compact_edit: VersionEdit,
)
    requires
        call_ensures(CompoundChange::edit, (&compound,), compound_edit),
        call_ensures(CompactChange::edit, (&compact,), compact_edit),
    ensures
        compound_edit.map_stream is Some,
        compound_edit.map_stream->0.new_files@.len() == 1,
        compound_edit.map_stream->0.new_files@[0].id == compound.map_file.file_id,
        compound_edit.map_stream->0.new_files@[0].up2 == compound.map_file.up2,
        compound_edit.map_stream->0.deleted_files@.len() == 0,
        compound_edit.page_stream is Some,
        compound_edit.page_stream->0.new_files@.len() == 0,
        compound_edit.page_stream->0.deleted_files@ == compound.obsoleted_files@,
        compact_edit.map_stream is Some,
        compact_edit.map_stream->0.new_files@.len() == 1,
        compact_edit.map_stream->0.new_files@[0].id == compact.map_file.file_id,
        compact_edit.map_stream->0.new_files@[0].up2 == compact.map_file.up2,
        compact_edit.map_stream->0.deleted_files@.no_duplicates(),
        forall|id: u32| #[trigger]
            compact_edit.map_stream->0.deleted_files@.contains(id) <==> compact.victims@.contains(
                id,
            ),
        compact_edit.page_stream is None,
{
    assert forall|id: u32| #[trigger]
        compact_edit.map_stream->0.deleted_files@.contains(id) <==> compact.victims@.contains(
            id,
        ) by {
        let deleted = compact_edit.map_stream->0.deleted_files@;
        assert(deleted.to_set().contains(id) <==> deleted.contains(id));
    }
}

/// The queue hands out every file with its own deallocated pages, one after the
/// other, and ends only after the last.
pub proof fn law_queue_hands_out_every_file(queue: DeallocQueue, res: Option<(u32, &Vec<u64>)>)
    requires
        call_ensures(DeallocQueue::next_file, (&queue,), res),
    ensures
        res is None <==> queue@.done == queue@.queue.len(),
        res matches Some((file_id, pages)) ==> file_id == queue@.queue[queue@.done] && *pages
            == queue@.dealloc_page_map[file_id],
{
}

} // verus!
