use std::collections::{BTreeMap, HashMap, HashSet};

use photondb_reclaim::collections::{elements_of, keys_of, set_of, sort_ids, sorted_elements_of};
use photondb_reclaim::compact::{compact_map_files, CompactStats, MapFileMeta};
use photondb_reclaim::compound::compound_page_files;
use photondb_reclaim::edit::{
    make_compact_version_edit, make_compound_version_edit, make_orphan_page_file_edit,
    DeltaVersion, NewFile, VersionUpdateReason,
};
use photondb_reclaim::files::{ActivePage, FileId, FileInfo, FileSet, MapFileInfo, PageHandle};
use photondb_reclaim::orphan::OrphanJob;
use photondb_reclaim::progress::ReclaimProgress;
use photondb_reclaim::stats::JobStats;

fn page_file(id: u32, map_file_id: Option<u32>, up2: u32) -> FileInfo {
    FileInfo {
        file_id: id,
        map_file_id,
        up2,
        file_size: 100,
        total_page_size: 80,
        effective_size: 30,
        active_pages: vec![ActivePage {
            page_addr: ((id as u64) << 32) | 16,
            handle: PageHandle {
                offset: 0,
                size: 30,
            },
        }],
    }
}

fn map_file(id: u32, up2: u32, page_files: &[u32]) -> MapFileInfo {
    MapFileInfo {
        file_id: id,
        up2,
        file_size: 70,
        page_files: set(page_files),
    }
}

fn set(ids: &[u32]) -> HashSet<u32> {
    ids.iter().cloned().collect()
}

fn progress() -> ReclaimProgress {
    ReclaimProgress {
        target_space_amp: 100,
        space_used_high: 1000,
        file_base_size: 10,
        used_space: 1000,
        base_size: 500,
        additional_size: 500,
    }
}

fn delta() -> DeltaVersion {
    DeltaVersion {
        reason: VersionUpdateReason::Flush,
        page_files: HashMap::from([
            (1, page_file(1, None, 1)),
            (2, page_file(2, None, 2)),
            (3, page_file(3, Some(8), 3)),
        ]),
        map_files: HashMap::from([(7, map_file(7, 1, &[])), (8, map_file(8, 2, &[3]))]),
        obsoleted_page_files: set(&[40]),
        obsoleted_map_files: set(&[41]),
    }
}

#[test]
fn victims_are_sorted() {
    assert_eq!(sort_ids(&vec![5, 1, 9, 3]), vec![1, 3, 5, 9]);
    assert_eq!(sort_ids(&vec![]), Vec::<u32>::new());
    assert_eq!(
        sorted_elements_of(&set(&[u32::MAX, 0, 7])),
        vec![0, 7, u32::MAX]
    );
    assert_eq!(set_of(&vec![3, 3, 4]), set(&[3, 4]));
    assert_eq!(set_of(&elements_of(&set(&[6, 2]))), set(&[2, 6]));
    assert_eq!(
        set_of(&keys_of(&HashMap::from([(1, 'a'), (2, 'b')]))),
        set(&[1, 2])
    );
}

#[test]
fn compounding_splits_the_victims() {
    let mut progress = progress();
    let mut cleaned = FileSet::new();
    let mut job = compound_page_files(50, &set(&[9, 4, 6]));
    assert_eq!(job.new_file_id(), 50);
    let dealloc_pages: HashMap<u32, Vec<u64>> =
        HashMap::from([(4, vec![]), (6, vec![301, 302]), (9, vec![])]);
    let infos: HashMap<u32, FileInfo> = dealloc_pages
        .keys()
        .map(|id| (*id, page_file(*id, None, *id)))
        .collect();
    let mut order = vec![];
    while let Some(id) = job.next_victim() {
        order.push(id);
        let pages = dealloc_pages.get(&id).unwrap().clone();
        assert!(job.fits(infos.get(&id).unwrap(), &pages));
        let copies = job.compound_partial_page_file(&infos, &page_table(id));
        assert_eq!(copies.len(), 1);
        assert_eq!(copies[0].page_id, id as u64 + 1000);
        job = job.page_file_compounded(&infos, pages, &mut progress, &mut cleaned);
        assert!(cleaned.contains(&FileId::Page(id)));
    }
    assert_eq!(order, vec![4, 6, 9]);
    // The average of 4, 6 and 9, rounded down.
    assert_eq!(job.up2(), 6);
    let output = job.finish();
    assert_eq!(output.new_file_id, 50);
    assert_eq!(output.victims, vec![4, 6, 9]);
    assert_eq!(output.num_active_pages, 3);
    assert_eq!(output.num_dealloc_pages, 2);
    assert_eq!(output.input_size, 300);
    assert_eq!(output.output_size, 90);
    assert_eq!(output.free_size, 210);
    assert_eq!(output.obsoleted_files, vec![4, 9]);
    assert_eq!(output.dealloc_page_map, HashMap::from([(6, vec![301, 302])]));
    assert_eq!(
        output.stats,
        JobStats {
            read_file_bytes: 0,
            rewrite_input_bytes: 0,
            rewrite_bytes: 0,
            compact_input_bytes: 300,
            compact_write_bytes: 90,
        }
    );
    assert_eq!(progress.used_space, 700);
    assert_eq!(progress.base_size, 410);
    assert_eq!(progress.additional_size, 290);

    // The manifest deletes the files without deallocated pages only.
    let change = output.into_change(map_file(50, 6, &[4, 6, 9]), HashMap::new());
    let edit = change.edit();
    assert_eq!(edit.page_stream.unwrap().deleted_files, vec![4, 9]);
}

#[test]
fn freed_size_stops_at_zero() {
    let mut progress = progress();
    let mut cleaned = FileSet::new();
    let mut info = page_file(4, None, 1);
    info.effective_size = 150;
    let mut job = compound_page_files(50, &set(&[4]));
    let infos = HashMap::from([(4, info)]);
    job.compound_partial_page_file(&infos, &page_table(4));
    let job = job.page_file_compounded(&infos, vec![], &mut progress, &mut cleaned);
    assert_eq!(job.finish().free_size, 0);
}

#[test]
fn compound_totals_that_overflow_do_not_fit() {
    let mut job = compound_page_files(50, &set(&[4, 5]));
    let info = page_file(4, None, u32::MAX);
    assert!(job.fits(&info, &vec![]));
    let infos = HashMap::from([(4, info)]);
    job.compound_partial_page_file(&infos, &page_table(4));
    let job = job.page_file_compounded(&infos, vec![], &mut progress(), &mut FileSet::new());
    assert!(!job.fits(&page_file(5, None, 1), &vec![]));
    assert!(job.fits(&page_file(5, None, 0), &vec![]));
    let mut large = page_file(5, None, 0);
    large.file_size = usize::MAX;
    assert!(!job.fits(&large, &vec![]));
    let mut large = page_file(5, None, 0);
    large.effective_size = usize::MAX;
    assert!(!job.fits(&large, &vec![]));
}

fn page_table(id: u32) -> BTreeMap<u64, u64> {
    BTreeMap::from([(((id as u64) << 32) | 16, id as u64 + 1000)])
}

fn meta(ids: &[u32]) -> MapFileMeta {
    MapFileMeta {
        file_ids: set(ids),
        page_tables: ids.iter().map(|id| (*id, page_table(*id))).collect(),
    }
}

#[test]
fn compacting_copies_the_live_pages_of_every_page_file() {
    let page_files = HashMap::from([
        (1, page_file(1, Some(8), 0)),
        (2, page_file(2, Some(7), 0)),
        (3, page_file(3, Some(8), 0)),
    ]);
    let metas = HashMap::from([(7, meta(&[2])), (8, meta(&[3, 1]))]);
    let infos = HashMap::from([(7, map_file(7, 10, &[2])), (8, map_file(8, 13, &[1, 3]))]);
    let mut progress = progress();
    let mut cleaned = FileSet::new();
    let mut job = compact_map_files(50, &set(&[8, 7]));
    assert_eq!(job.new_file_id(), 50);
    let mut copied = vec![];
    while let Some(id) = job.next_victim() {
        let meta = metas.get(&id).unwrap();
        let info = infos.get(&id).unwrap();
        assert!(meta.is_covered(&page_files));
        assert!(job.fits(meta, &page_files));
        for file_copy in job.compact_map_file(meta, &page_files) {
            let pages: Vec<u64> = file_copy.pages.iter().map(|page| page.page_id).collect();
            copied.push((file_copy.file_id, pages));
        }
        assert!(job.fits_up2(info));
        job.map_file_compacted(&infos, &page_files, &mut progress, &mut cleaned);
        assert!(cleaned.contains(&FileId::MapFile(id)));
    }
    assert_eq!(
        copied,
        vec![(2, vec![1002]), (1, vec![1001]), (3, vec![1003])]
    );
    assert_eq!(job.up2(), 11);
    let output = job.finish();
    assert_eq!(output.new_file_id, 50);
    assert_eq!(output.victims, vec![7, 8]);
    assert_eq!(output.num_active_pages, 3);
    assert_eq!(output.input_size, 240);
    assert_eq!(output.output_size, 90);
    assert_eq!(output.free_size, 150);
    assert_eq!(
        output.stats,
        JobStats {
            read_file_bytes: 0,
            rewrite_input_bytes: 0,
            rewrite_bytes: 0,
            compact_input_bytes: 240,
            compact_write_bytes: 90,
        }
    );
    assert_eq!(progress.used_space, 1000 - 140);
    assert_eq!(progress.base_size, 500 - 90);
}

#[test]
fn map_files_must_be_covered_by_the_version() {
    let page_files = HashMap::from([(1, page_file(1, Some(8), 0))]);
    assert!(meta(&[1]).is_covered(&page_files));
    assert!(meta(&[]).is_covered(&page_files));
    // The version does not know page file 2.
    assert!(!meta(&[1, 2]).is_covered(&page_files));
    // There is no page table for page file 1.
    let mut without_table = meta(&[1]);
    without_table.page_tables.clear();
    assert!(!without_table.is_covered(&page_files));
    // The page table does not know the live page.
    let mut without_page = meta(&[1]);
    without_page.page_tables.insert(1, BTreeMap::new());
    assert!(!without_page.is_covered(&page_files));
}

#[test]
fn compact_totals_that_overflow_do_not_fit() {
    let mut page_files = HashMap::from([
        (1, page_file(1, Some(8), 0)),
        (2, page_file(2, Some(8), 0)),
    ]);
    let mut job = compact_map_files(50, &set(&[7, 8]));
    assert!(job.fits(&meta(&[1, 2]), &page_files));
    page_files.get_mut(&2).unwrap().total_page_size = usize::MAX;
    assert!(!job.fits(&meta(&[1, 2]), &page_files));
    assert!(job.fits(&meta(&[2]), &page_files));

    job.compact_map_file(&meta(&[2]), &page_files);
    job.map_file_compacted(
        &HashMap::from([(7, map_file(7, u32::MAX, &[2]))]),
        &page_files,
        &mut progress(),
        &mut FileSet::new(),
    );
    assert!(!job.fits(&meta(&[1]), &page_files));
    assert!(!job.fits_up2(&map_file(8, 1, &[1])));
    assert!(job.fits_up2(&map_file(8, 0, &[1])));
}

#[test]
fn compact_stats_add_up() {
    let mut stats = CompactStats::default();
    stats.collect(&page_file(1, None, 0));
    stats.collect(&page_file(2, None, 0));
    assert_eq!(
        stats,
        CompactStats {
            num_active_pages: 2,
            input_size: 160,
            output_size: 60,
        }
    );
    let mut large = page_file(3, None, 0);
    large.effective_size = usize::MAX;
    assert!(!stats.can_collect(&large));
    assert!(stats.can_collect(&page_file(3, None, 0)));
}

#[test]
fn compound_edit_adds_the_map_file_and_deletes_page_files() {
    let edit = make_compound_version_edit(&map_file(9, 5, &[1]), &[1, 2]);
    let map_stream = edit.map_stream.unwrap();
    assert_eq!(map_stream.new_files, vec![NewFile { id: 9, up2: 5 }]);
    assert!(map_stream.deleted_files.is_empty());
    let page_stream = edit.page_stream.unwrap();
    assert!(page_stream.new_files.is_empty());
    assert_eq!(page_stream.deleted_files, vec![1, 2]);
}

#[test]
fn compact_edit_adds_the_map_file_and_deletes_map_files() {
    let edit = make_compact_version_edit(&map_file(9, 5, &[1]), &set(&[7, 8]));
    let map_stream = edit.map_stream.unwrap();
    assert_eq!(map_stream.new_files, vec![NewFile { id: 9, up2: 5 }]);
    assert_eq!(map_stream.deleted_files.len(), 2);
    assert_eq!(set(&map_stream.deleted_files), set(&[7, 8]));
    assert!(edit.page_stream.is_none());
}

#[test]
fn orphan_edit_deletes_page_files() {
    let edit = make_orphan_page_file_edit(&set(&[3, 4]));
    assert!(edit.map_stream.is_none());
    let page_stream = edit.page_stream.unwrap();
    assert!(page_stream.new_files.is_empty());
    assert_eq!(page_stream.deleted_files.len(), 2);
    assert_eq!(set(&page_stream.deleted_files), set(&[3, 4]));
}

#[test]
fn compound_installs_the_map_file_and_keeps_page_files() {
    let mut job = compound_page_files(9, &set(&[1, 2]));
    let (mut progress, mut cleaned) = (progress(), FileSet::new());
    let infos = HashMap::from([(1, page_file(1, None, 1)), (2, page_file(2, None, 2))]);
    job.compound_partial_page_file(&infos, &page_table(1));
    let mut job = job.page_file_compounded(&infos, vec![], &mut progress, &mut cleaned);
    job.compound_partial_page_file(&infos, &page_table(2));
    let job = job.page_file_compounded(&infos, vec![301, 302], &mut progress, &mut cleaned);
    let virtual_files = HashMap::from([
        (1, page_file(1, Some(9), 1)),
        (2, page_file(2, Some(9), 2)),
    ]);
    let change = job
        .finish()
        .into_change(map_file(9, 1, &[1, 2]), virtual_files);
    let mut delta = delta();
    let mut queue = change.recorded().install(&mut delta);
    assert_eq!(delta.reason, VersionUpdateReason::Compact);
    assert_eq!(set_of(&keys_of(&delta.map_files)), set(&[7, 8, 9]));
    assert_eq!(set_of(&keys_of(&delta.page_files)), set(&[1, 2, 3]));
    assert_eq!(delta.page_files[&1].map_file_id, Some(9));
    assert_eq!(delta.page_files[&2].map_file_id, Some(9));
    assert_eq!(delta.page_files[&3].map_file_id, Some(8));
    assert_eq!(delta.obsoleted_page_files, set(&[1]));
    assert_eq!(delta.obsoleted_map_files, set(&[41]));

    // The deallocated pages of page file 2 remain to be recorded.
    {
        let (file_id, pages) = queue.next_file().unwrap();
        assert_eq!(file_id, 2);
        assert_eq!(pages, &vec![301, 302]);
    }
    queue.file_done();
    assert!(queue.next_file().is_none());
}

#[test]
fn compact_replaces_the_victims() {
    let mut delta = delta();
    delta.compact(
        9,
        map_file(9, 1, &[3]),
        HashMap::from([(3, page_file(3, Some(9), 3))]),
        set(&[8, 99]),
    );
    assert_eq!(delta.reason, VersionUpdateReason::Compact);
    assert_eq!(set_of(&keys_of(&delta.map_files)), set(&[7, 9]));
    assert_eq!(delta.map_files[&9].page_files, set(&[3]));
    assert_eq!(delta.page_files[&3].map_file_id, Some(9));
    assert_eq!(delta.page_files[&1].map_file_id, None);
    assert_eq!(delta.obsoleted_map_files, set(&[8, 99]));
    assert_eq!(delta.obsoleted_page_files, set(&[40]));
}

#[test]
fn manifest_agrees_with_the_installed_map_files() {
    let mut delta = delta();
    let edit = make_compact_version_edit(&map_file(9, 1, &[3]), &set(&[8]));
    let stream = edit.map_stream.unwrap();
    let mut recovered = set_of(&keys_of(&delta.map_files));
    for id in &stream.deleted_files {
        recovered.remove(id);
    }
    for file in &stream.new_files {
        recovered.insert(file.id);
    }
    delta.compact(9, map_file(9, 1, &[3]), HashMap::new(), set(&[8]));
    assert_eq!(recovered, set_of(&keys_of(&delta.map_files)));
}

#[test]
fn manifest_agrees_with_a_compounded_version() {
    let mut delta = delta();
    let edit = make_compound_version_edit(&map_file(9, 1, &[1, 2]), &[1]);
    let stream = edit.map_stream.unwrap();
    let mut recovered = set_of(&keys_of(&delta.map_files));
    for file in &stream.new_files {
        recovered.insert(file.id);
    }
    delta.compound(9, map_file(9, 1, &[1, 2]), HashMap::new(), vec![1]);
    assert_eq!(recovered, set_of(&keys_of(&delta.map_files)));
    assert_eq!(
        set(&edit.page_stream.unwrap().deleted_files),
        delta.obsoleted_page_files
    );
}

#[test]
fn orphans_are_reclaimed_one_by_one_and_dropped() {
    let mut job = OrphanJob::new(set(&[1, 3, 77]));
    assert_eq!(job.files(), &set(&[1, 3, 77]));
    let mut seen = HashSet::new();
    while let Some(file_id) = job.next_file() {
        assert!(seen.insert(file_id));
        job.file_done();
    }
    assert_eq!(seen, set(&[1, 3, 77]));
    let edit = job.edit();
    assert_eq!(
        set(&edit.page_stream.unwrap().deleted_files),
        set(&[1, 3, 77])
    );

    let mut delta = delta();
    job.recorded().install(&mut delta);
    assert_eq!(delta.reason, VersionUpdateReason::Compact);
    // Page file 3 is virtual, and stays.
    assert_eq!(set_of(&keys_of(&delta.page_files)), set(&[2, 3]));
    assert_eq!(delta.obsoleted_page_files, set(&[1, 3, 77]));
    assert_eq!(set_of(&keys_of(&delta.map_files)), set(&[7, 8]));
    assert_eq!(delta.obsoleted_map_files, set(&[41]));
}
