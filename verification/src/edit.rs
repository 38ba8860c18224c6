//! Changes to the set of files: what the manifest records, and what the next
//! version holds.

use std::collections::{HashMap, HashSet};

use vstd::prelude::*;

use crate::collections::{elements_of, keys_of, set_of};
use crate::files::{FileInfo, MapFileInfo};

verus! {

/// A file that joins a stream.
#[derive(Debug, Clone, Copy, PartialEq, Eq, Structural)]
pub struct NewFile {
    pub id: u32,
    pub up2: u32,
}

/// The changes to one stream of files.
#[derive(Debug)]
pub struct StreamEdit {
    pub new_files: Vec<NewFile>,
    pub deleted_files: Vec<u32>,
}

/// A change of version, as the manifest records it.
#[derive(Debug)]
pub struct VersionEdit {
    pub page_stream: Option<StreamEdit>,
    pub map_stream: Option<StreamEdit>,
}

/// Why a version came about.
#[derive(Debug, Clone, Copy, PartialEq, Eq, Structural)]
pub enum VersionUpdateReason {
    Flush,
    Compact,
}

/// The files of the next version, and those that it leaves behind.
#[derive(Debug)]
pub struct DeltaVersion {
    pub reason: VersionUpdateReason,
    pub page_files: HashMap<u32, FileInfo>,
    pub map_files: HashMap<u32, MapFileInfo>,
    pub obsoleted_page_files: HashSet<u32>,
    pub obsoleted_map_files: HashSet<u32>,
}

impl StreamEdit {
    /// The edit adds exactly `new_files` and deletes exactly the files of
    /// `deleted`, each named once.
    pub open spec fn describes(self, new_files: Seq<NewFile>, deleted: Set<u32>) -> bool {
        &&& self.new_files@ == new_files
        &&& self.deleted_files@.no_duplicates()
        &&& self.deleted_files@.to_set() == deleted
    }
}

impl NewFile {
    /// What the manifest records of a map file.
    pub open spec fn of(info: MapFileInfo) -> NewFile {
        NewFile { id: info.file_id, up2: info.up2 }
    }
}

impl VersionEdit {
    /// The edit adds a map file and deletes the listed page files.
    pub open spec fn records_compound(self, map_file: MapFileInfo, obsoleted: Seq<u32>) -> bool {
        &&& self.map_stream matches Some(stream) && stream.new_files@ == seq![
            NewFile::of(map_file),
        ] && stream.deleted_files@ == Seq::<u32>::empty()
        &&& self.page_stream matches Some(stream) && stream.new_files@ == Seq::<NewFile>::empty()
            && stream.deleted_files@ == obsoleted
    }

    /// The edit adds a map file and deletes those that went into it.
    pub open spec fn records_compact(self, map_file: MapFileInfo, victims: Set<u32>) -> bool {
        &&& self.map_stream matches Some(stream) && stream.describes(
            seq![NewFile::of(map_file)],
            victims,
        )
        &&& self.page_stream is None
    }

    /// The edit deletes page files and changes nothing else.
    pub open spec fn records_orphans(self, orphans: Set<u32>) -> bool {
        &&& self.page_stream matches Some(stream) && stream.describes(
            Seq::<NewFile>::empty(),
            orphans,
        )
        &&& self.map_stream is None
    }
}

impl DeltaVersion {
    /// The version with a map file made out of page files, which live on as
    /// virtual ones.
    pub open spec fn with_compound(
        self,
        before: DeltaVersion,
        file_id: u32,
        map_file: MapFileInfo,
        virtual_page_files: Map<u32, FileInfo>,
        obsoleted: Set<u32>,
    ) -> bool {
        &&& self.reason == VersionUpdateReason::Compact
        &&& self.map_files@ == before.map_files@.insert(file_id, map_file)
        &&& self.page_files@ == before.page_files@.union_prefer_right(virtual_page_files)
        &&& self.obsoleted_page_files@ == obsoleted
        &&& self.obsoleted_map_files == before.obsoleted_map_files
    }

    /// The version with a map file in the place of others.
    pub open spec fn with_compact(
        self,
        before: DeltaVersion,
        file_id: u32,
        map_file: MapFileInfo,
        virtual_page_files: Map<u32, FileInfo>,
        victims: Set<u32>,
    ) -> bool {
        &&& self.reason == VersionUpdateReason::Compact
        &&& self.map_files@ == before.map_files@.remove_keys(victims).insert(file_id, map_file)
        &&& self.page_files@ == before.page_files@.union_prefer_right(virtual_page_files)
        &&& self.obsoleted_map_files@ == victims
        &&& self.obsoleted_page_files == before.obsoleted_page_files
    }

    /// The version without the orphans. A virtual page file of the same id
    /// stays, since a map file stores its pages.
    pub open spec fn without_orphans(self, before: DeltaVersion, orphans: Set<u32>) -> bool {
        &&& self.reason == VersionUpdateReason::Compact
        &&& self.page_files@ == before.page_files@.remove_keys(
            orphans.filter(|id: u32| before.page_files@[id].map_file_id is None),
        )
        &&& self.obsoleted_page_files@ == orphans
        &&& self.map_files == before.map_files
        &&& self.obsoleted_map_files == before.obsoleted_map_files
    }
}

/// The manifest entry for a new map file made out of page files. The page files
/// in `obsoleted_files` are deleted with it.
pub fn make_compound_version_edit(file_info: &MapFileInfo, obsoleted_files: &[u32]) -> (res:
    VersionEdit)
    ensures
        res.records_compound(*file_info, obsoleted_files@),
{
    let mut new_files: Vec<NewFile> = Vec::new();
    new_files.push(NewFile { id: file_info.file_id, up2: file_info.up2 });
    VersionEdit {
        map_stream: Some(StreamEdit { new_files, deleted_files: Vec::new() }),
        page_stream: Some(
            StreamEdit {
                new_files: Vec::new(),
                deleted_files: vstd::slice::slice_to_vec(obsoleted_files),
            },
        ),
    }
}

/// The manifest entry for a new map file made out of other map files, which are
/// deleted with it.
pub fn make_compact_version_edit(file_info: &MapFileInfo, obsoleted_files: &HashSet<u32>) -> (res:
    VersionEdit)
    ensures
        res.records_compact(*file_info, obsoleted_files@),
{
    let deleted_files = elements_of(obsoleted_files);
    let mut new_files: Vec<NewFile> = Vec::new();
    new_files.push(NewFile { id: file_info.file_id, up2: file_info.up2 });
    VersionEdit { map_stream: Some(StreamEdit { new_files, deleted_files }), page_stream: None }
}

/// The manifest entry for page files that are deleted without a successor.
pub fn make_orphan_page_file_edit(obsoleted_files: &HashSet<u32>) -> (res: VersionEdit)
    ensures
        res.records_orphans(obsoleted_files@),
{
    let deleted_files = elements_of(obsoleted_files);
    VersionEdit {
        map_stream: None,
        page_stream: Some(StreamEdit { new_files: Vec::new(), deleted_files }),
    }
}

/// Moves all entries of `from` into `into`, over entries of the same id.
fn extend_files(into: &mut HashMap<u32, FileInfo>, from: HashMap<u32, FileInfo>)
    ensures
        final(into)@ == old(into)@.union_prefer_right(from@),
{
    broadcast use vstd::std_specs::hash::group_hash_axioms;

    let ids = keys_of(&from);
    let mut from = from;
    let ghost all = from@;
    for i in 0..ids.len()
        invariant
            ids@.no_duplicates(),
            ids@.to_set() == all.dom(),
            from@ == all.remove_keys(ids@.take(i as int).to_set()),
            into@ == old(into)@.union_prefer_right(all.restrict(ids@.take(i as int).to_set())),
    {
        let id = ids[i];
        let ghost done = ids@.take(i as int).to_set();
        let ghost next = ids@.take(i + 1).to_set();
        proof {
            assert(ids@.to_set().contains(id));
            assert(!done.contains(id));
            assert forall|k: u32| next.contains(k) <==> done.contains(k) || k == id by {
                crate::collections::lemma_take_contains(ids@, i as int, k);
            }
        }
        let info = from.remove(&id).unwrap();
        into.insert(id, info);
        assert(from@ =~= all.remove_keys(next));
        assert(into@ =~= old(into)@.union_prefer_right(all.restrict(next)));
    }
    proof {
        assert(ids@.take(ids@.len() as int) =~= ids@);
        assert(all.restrict(ids@.to_set()) =~= all);
    }
}

impl DeltaVersion {
    /// Installs a map file that was made out of page files. The page files live
    /// on as virtual ones; those in `obsoleted_files` are left behind.
    pub fn compound(
        &mut self,
        file_id: u32,
        map_file: MapFileInfo,
        virtual_page_files: HashMap<u32, FileInfo>,
        obsoleted_files: Vec<u32>,
    )
        ensures
            final(self).with_compound(
                *old(self),
                file_id,
                map_file,
                virtual_page_files@,
                obsoleted_files@.to_set(),
            ),
    {
        broadcast use vstd::std_specs::hash::group_hash_axioms;

        self.reason = VersionUpdateReason::Compact;
        self.map_files.insert(file_id, map_file);
        extend_files(&mut self.page_files, virtual_page_files);
        self.obsoleted_page_files = set_of(&obsoleted_files);
    }

    /// Installs a map file that was made out of the map files in `victims`,
    /// which are left behind.
    pub fn compact(
        &mut self,
        file_id: u32,
        map_file: MapFileInfo,
        virtual_page_files: HashMap<u32, FileInfo>,
        victims: HashSet<u32>,
    )
        ensures
            final(self).with_compact(
                *old(self),
                file_id,
                map_file,
                virtual_page_files@,
                victims@,
            ),
    {
        broadcast use vstd::std_specs::hash::group_hash_axioms;

        self.reason = VersionUpdateReason::Compact;
        let ids = elements_of(&victims);
        let ghost before = self.map_files@;
        for i in 0..ids.len()
            invariant
                self.map_files@ == before.remove_keys(ids@.take(i as int).to_set()),
                self.page_files@ == old(self).page_files@,
                self.obsoleted_page_files == old(self).obsoleted_page_files,
                self.reason == VersionUpdateReason::Compact,
        {
            self.map_files.remove(&ids[i]);
            proof {
                let next = ids@.take(i + 1).to_set();
                assert forall|k: u32|
                    next.contains(k) <==> ids@.take(i as int).to_set().contains(k) || k
                        == ids@[i as int] by {
                    crate::collections::lemma_take_contains(ids@, i as int, k);
                }
                assert(self.map_files@ =~= before.remove_keys(next));
            }
        }
        assert(ids@.take(ids@.len() as int) =~= ids@);
        self.map_files.insert(file_id, map_file);
        extend_files(&mut self.page_files, virtual_page_files);
        self.obsoleted_map_files = victims;
    }

    /// Drops the orphan page files. A virtual page file of the same id stays,
    /// since a map file stores its pages.
    pub fn drop_orphans(&mut self, orphan_page_files: HashSet<u32>)
        ensures
            final(self).without_orphans(*old(self), orphan_page_files@),
    {
        broadcast use vstd::std_specs::hash::group_hash_axioms;

        self.reason = VersionUpdateReason::Compact;
        let ids = elements_of(&orphan_page_files);
        let ghost before = self.page_files@;
        let ghost unmapped = |id: u32| before[id].map_file_id is None;
        for i in 0..ids.len()
            invariant
                self.page_files@ == before.remove_keys(ids@.take(i as int).to_set().filter(unmapped)),
                unmapped == (|id: u32| before[id].map_file_id is None),
                ids@.no_duplicates(),
                self.map_files == old(self).map_files,
                self.obsoleted_map_files == old(self).obsoleted_map_files,
                self.reason == VersionUpdateReason::Compact,
        {
            let id = ids[i];
            let ghost done = ids@.take(i as int).to_set();
            let ghost next = ids@.take(i + 1).to_set();
            proof {
                assert(!done.contains(id));
                assert forall|k: u32| next.contains(k) <==> done.contains(k) || k == id by {
                    crate::collections::lemma_take_contains(ids@, i as int, k);
                }
            }
            let drop = match self.page_files.get(&id) {
                Some(info) => info.map_file_id.is_none(),
                None => false,
            };
            if drop {
                self.page_files.remove(&id);
            }
            assert(self.page_files@ =~= before.remove_keys(next.filter(unmapped)));
        }
        assert(ids@.take(ids@.len() as int) =~= ids@);
        self.obsoleted_page_files = orphan_page_files;
    }
}

impl StreamEdit {
    /// The files of a stream once the edit has been applied.
    pub open spec fn apply(self, files: Set<u32>) -> Set<u32> {
        files.difference(self.deleted_files@.to_set()).union(
            self.new_files@.map_values(|file: NewFile| file.id).to_set(),
        )
    }
}

/// A store that recovers from the manifest after a compaction finds the map
/// files of the installed version.
pub proof fn law_manifest_agrees_on_compact(
    edit: VersionEdit,
    before: DeltaVersion,
    after: DeltaVersion,
    map_file: MapFileInfo,
    virtual_page_files: Map<u32, FileInfo>,
    victims: Set<u32>,
)
    requires
        edit.records_compact(map_file, victims),
        after.with_compact(before, map_file.file_id, map_file, virtual_page_files, victims),
    ensures
        edit.map_stream->0.apply(before.map_files@.dom()) == after.map_files@.dom(),
        edit.map_stream->0.deleted_files@.to_set() == after.obsoleted_map_files@,
{
    lemma_new_file_ids(edit.map_stream->0, map_file);
    assert(edit.map_stream->0.apply(before.map_files@.dom()) =~= after.map_files@.dom());
}

/// A store that recovers from the manifest after page files have been
/// compounded finds the map files of the installed version, and the page files
/// that it deletes are those that the version leaves behind.
pub proof fn law_manifest_agrees_on_compound(
    edit: VersionEdit,
    before: DeltaVersion,
    after: DeltaVersion,
    map_file: MapFileInfo,
    virtual_page_files: Map<u32, FileInfo>,
    obsoleted: Seq<u32>,
)
    requires
        edit.records_compound(map_file, obsoleted),
        after.with_compound(
            before,
            map_file.file_id,
            map_file,
            virtual_page_files,
            obsoleted.to_set(),
        ),
    ensures
        edit.map_stream->0.apply(before.map_files@.dom()) == after.map_files@.dom(),
        edit.page_stream->0.deleted_files@.to_set() == after.obsoleted_page_files@,
{
    lemma_new_file_ids(edit.map_stream->0, map_file);
    assert(edit.map_stream->0.deleted_files@.to_set() =~= Set::empty());
    assert(edit.map_stream->0.apply(before.map_files@.dom()) =~= after.map_files@.dom());
}

proof fn lemma_new_file_ids(stream: StreamEdit, map_file: MapFileInfo)
    requires
        stream.new_files@ == seq![NewFile::of(map_file)],
    ensures
        stream.new_files@.map_values(|file: NewFile| file.id).to_set() == set![map_file.file_id],
{
    let ids = stream.new_files@.map_values(|file: NewFile| file.id);
    assert(ids =~= seq![map_file.file_id]);
    assert(ids[0] == map_file.file_id);
    assert(ids.to_set() =~= set![map_file.file_id]);
}

/// After a compaction the compacted map files are gone, the new one is there,
/// and every other map file is untouched.
pub proof fn law_compact_replaces_victims(
    before: DeltaVersion,
    after: DeltaVersion,
    file_id: u32,
    map_file: MapFileInfo,
    virtual_page_files: Map<u32, FileInfo>,
    victims: Set<u32>,
    id: u32,
)
    requires
        after.with_compact(before, file_id, map_file, virtual_page_files, victims),
    ensures
        after.map_files@.contains_pair(file_id, map_file),
        id != file_id && victims.contains(id) ==> !after.map_files@.contains_key(id),
        id != file_id && !victims.contains(id) ==> after.map_files@.get(id)
            == before.map_files@.get(id),
{
}

/// Whatever is compounded or compacted, no page file gets lost: each one is
/// replaced by its virtual successor or stays as it was.
pub proof fn law_page_files_survive(
    before: DeltaVersion,
    after: DeltaVersion,
    virtual_page_files: Map<u32, FileInfo>,
    id: u32,
)
    requires
        after.page_files@ == before.page_files@.union_prefer_right(virtual_page_files),
    ensures
        virtual_page_files.contains_key(id) ==> after.page_files@.contains_pair(
            id,
            virtual_page_files[id],
        ),
        before.page_files@.contains_key(id) && !virtual_page_files.contains_key(id)
            ==> after.page_files@.contains_pair(id, before.page_files@[id]),
        after.page_files@.contains_key(id) <==> before.page_files@.contains_key(id)
            || virtual_page_files.contains_key(id),
{
}

/// Dropping orphans removes the page files that stand on their own, and keeps
/// virtual page files and all others.
pub proof fn law_orphans_are_dropped(
    before: DeltaVersion,
    after: DeltaVersion,
    orphans: Set<u32>,
    id: u32,
)
    requires
        after.without_orphans(before, orphans),
    ensures
        after.page_files@.contains_key(id) <==> {
            &&& before.page_files@.contains_key(id)
            &&& orphans.contains(id) ==> before.page_files@[id].map_file_id is Some
        },
        after.page_files@.contains_key(id) ==> after.page_files@[id] == before.page_files@[id],
{
}

/// When page files have been compounded, every page file of the version is still
/// there: its virtual successor where there is one, the page file as it was
/// elsewhere. The same numbers of map files and page files have nothing to do with
/// each other. The new map file joins the others, and exactly the given page files
/// are left behind.
pub proof fn law_compound_keeps_every_file(
    delta: &mut DeltaVersion,
    file_id: u32,
    map_file: MapFileInfo,
    virtual_page_files: HashMap<u32, FileInfo>,
    obsoleted_files: Vec<u32>,
)
    requires
        call_ensures(
            DeltaVersion::compound,
            (delta, file_id, map_file, virtual_page_files, obsoleted_files),
            (),
        ),
    ensures
        forall|id: u32| #[trigger]
            final(delta).page_files@.contains_key(id) <==> old(delta).page_files@.contains_key(id)
                || virtual_page_files@.contains_key(id),
        forall|id: u32|
            virtual_page_files@.contains_key(id) ==> #[trigger] final(delta).page_files@[id]
                == virtual_page_files@[id],
        forall|id: u32|
            old(delta).page_files@.contains_key(id) && !virtual_page_files@.contains_key(id)
                ==> #[trigger] final(delta).page_files@[id] == old(delta).page_files@[id],
        forall|id: u32| #[trigger]
            final(delta).map_files@.contains_key(id) <==> old(delta).map_files@.contains_key(id)
                || id == file_id,
        final(delta).map_files@[file_id] == map_file,
        forall|id: u32|
            id != file_id && old(delta).map_files@.contains_key(id) ==> #[trigger] final(delta).map_files@[id] == old(delta).map_files@[id],
        forall|id: u32| #[trigger]
            final(delta).obsoleted_page_files@.contains(id) <==> obsoleted_files@.contains(id),
        final(delta).obsoleted_map_files@ == old(delta).obsoleted_map_files@,
        final(delta).reason == VersionUpdateReason::Compact,
{
    assert forall|id: u32| #[trigger]
        final(delta).obsoleted_page_files@.contains(id) <==> obsoleted_files@.contains(id) by {
        assert(obsoleted_files@.to_set().contains(id) <==> obsoleted_files@.contains(id));
    }
}

/// When map files have been compacted, the new one stands in the place of the
/// victims, and every other map file and every page file is still there: page files
/// with a virtual successor as that, the others as they were.
pub proof fn law_compact_keeps_every_other_file(
    delta: &mut DeltaVersion,
    file_id: u32,
    map_file: MapFileInfo,
    virtual_page_files: HashMap<u32, FileInfo>,
    victims: HashSet<u32>,
)
    requires
        call_ensures(
            DeltaVersion::compact,
            (delta, file_id, map_file, virtual_page_files, victims),
            (),
        ),
    ensures
        forall|id: u32| #[trigger]
            final(delta).page_files@.contains_key(id) <==> old(delta).page_files@.contains_key(id)
                || virtual_page_files@.contains_key(id),
        forall|id: u32|
            virtual_page_files@.contains_key(id) ==> #[trigger] final(delta).page_files@[id]
                == virtual_page_files@[id],
        forall|id: u32|
            old(delta).page_files@.contains_key(id) && !virtual_page_files@.contains_key(id)
                ==> #[trigger] final(delta).page_files@[id] == old(delta).page_files@[id],
        forall|id: u32| #[trigger]
            final(delta).map_files@.contains_key(id) <==> id == file_id || (
            old(delta).map_files@.contains_key(id) && !victims@.contains(id)),
        final(delta).map_files@[file_id] == map_file,
        forall|id: u32|
            id != file_id && old(delta).map_files@.contains_key(id) && !victims@.contains(id)
                ==> #[trigger] final(delta).map_files@[id] == old(delta).map_files@[id],
        final(delta).obsoleted_map_files@ == victims@,
        final(delta).obsoleted_page_files@ == old(delta).obsoleted_page_files@,
        final(delta).reason == VersionUpdateReason::Compact,
{
}

/// Dropping orphans takes exactly those out of the version that are page files of
/// their own. Virtual page files of the same number, all others and all map files
/// stay as they were.
pub proof fn law_only_orphans_are_dropped(delta: &mut DeltaVersion, orphans: HashSet<u32>)
    requires
        call_ensures(DeltaVersion::drop_orphans, (delta, orphans), ()),
    ensures
        forall|id: u32| #[trigger]
            final(delta).page_files@.contains_key(id) <==> old(delta).page_files@.contains_key(id)
                && !(orphans@.contains(id) && old(delta).page_files@[id].map_file_id is None),
        forall|id: u32|
            (#[trigger] final(delta).page_files@.contains_key(id)) ==> final(delta).page_files@[id]
                == old(delta).page_files@[id],
        final(delta).map_files@ == old(delta).map_files@,
        final(delta).obsoleted_page_files@ == orphans@,
        final(delta).obsoleted_map_files@ == old(delta).obsoleted_map_files@,
        final(delta).reason == VersionUpdateReason::Compact,
{
}

/// The manifest entry for compounded page files adds one map file, deletes exactly
/// the given page files in their order, and does nothing else.
pub proof fn law_compound_edit_adds_and_deletes(
    map_file: MapFileInfo,
    obsoleted_files: &[u32],
    edit: VersionEdit,
)
    requires
        call_ensures(make_compound_version_edit, (&map_file, obsoleted_files), edit),
    ensures
        edit.map_stream is Some,
        edit.map_stream->0.new_files@.len() == 1,
        edit.map_stream->0.new_files@[0].id == map_file.file_id,
        edit.map_stream->0.new_files@[0].up2 == map_file.up2,
        edit.map_stream->0.deleted_files@.len() == 0,
        edit.page_stream is Some,
        edit.page_stream->0.new_files@.len() == 0,
        edit.page_stream->0.deleted_files@ == obsoleted_files@,
{
}

/// The manifest entry for compacted map files adds one map file, deletes exactly the
/// given ones, each once, and does not touch page files.
pub proof fn law_compact_edit_adds_and_deletes(
    map_file: MapFileInfo,
    obsoleted_files: HashSet<u32>,
    edit: VersionEdit,
)
    requires
        call_ensures(make_compact_version_edit, (&map_file, &obsoleted_files), edit),
    ensures
        edit.map_stream is Some,
        edit.map_stream->0.new_files@.len() == 1,
        edit.map_stream->0.new_files@[0].id == map_file.file_id,
        edit.map_stream->0.new_files@[0].up2 == map_file.up2,
        edit.map_stream->0.deleted_files@.no_duplicates(),
        forall|id: u32| #[trigger]
            edit.map_stream->0.deleted_files@.contains(id) <==> obsoleted_files@.contains(id),
        edit.page_stream is None,
{
    assert forall|id: u32| #[trigger]
        edit.map_stream->0.deleted_files@.contains(id) <==> obsoleted_files@.contains(id) by {
        let deleted = edit.map_stream->0.deleted_files@;
        assert(deleted.to_set().contains(id) <==> deleted.contains(id));
    }
}

/// The manifest entry for orphans deletes exactly those page files, each once, and
/// does nothing else.
pub proof fn law_orphan_edit_deletes(obsoleted_files: HashSet<u32>, edit: VersionEdit)
    requires
        call_ensures(make_orphan_page_file_edit, (&obsoleted_files,), edit),
    ensures
        edit.map_stream is None,
        edit.page_stream is Some,
        edit.page_stream->0.new_files@.len() == 0,
        edit.page_stream->0.deleted_files@.no_duplicates(),
        forall|id: u32| #[trigger]
            edit.page_stream->0.deleted_files@.contains(id) <==> obsoleted_files@.contains(id),
{
    assert forall|id: u32| #[trigger]
        edit.page_stream->0.deleted_files@.contains(id) <==> obsoleted_files@.contains(id) by {
        let deleted = edit.page_stream->0.deleted_files@;
        assert(deleted.to_set().contains(id) <==> deleted.contains(id));
    }
}

} // verus!
