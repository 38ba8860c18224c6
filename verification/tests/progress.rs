use std::collections::{HashMap, HashSet};

use photondb_reclaim::files::{ActivePage, FileId, FileInfo, FileSet, MapFileInfo, PageHandle, Version};
use photondb_reclaim::options::Options;
use photondb_reclaim::progress::{
    compute_base_size, compute_used_space, is_mapped_size_computable, is_measurable,
    ReclaimProgress, ReclaimReason, ReclaimTrace,
};

fn page_file(id: u32, map_file_id: Option<u32>, file_size: usize, effective_size: usize) -> FileInfo {
    let active_pages = if effective_size == 0 {
        vec![]
    } else {
        vec![ActivePage {
            page_addr: ((id as u64) << 32) | 16,
            handle: PageHandle {
                offset: 0,
                size: effective_size as u32,
            },
        }]
    };
    FileInfo {
        file_id: id,
        map_file_id,
        up2: 1,
        file_size,
        total_page_size: file_size,
        effective_size,
        active_pages,
    }
}

fn map_file(id: u32, file_size: usize, page_files: &[u32]) -> MapFileInfo {
    MapFileInfo {
        file_id: id,
        up2: 1,
        file_size,
        page_files: page_files.iter().cloned().collect(),
    }
}

/// Page files 1 and 2, an empty page file 3, and map file 9 with 4 and 5.
fn version() -> Version {
    Version {
        page_files: HashMap::from([
            (1, page_file(1, None, 100, 40)),
            (2, page_file(2, None, 200, 50)),
            (3, page_file(3, None, 1000, 0)),
            (4, page_file(4, Some(9), 0, 7)),
            (5, page_file(5, Some(9), 0, 8)),
        ]),
        map_files: HashMap::from([(9, map_file(9, 60, &[4, 5, 6]))]),
    }
}

fn options() -> Options {
    Options {
        disable_space_reclaiming: false,
        file_base_size: 1000,
        max_space_amplification_percent: 100,
        separate_hot_cold_files: true,
        space_used_high: 5000,
    }
}

fn progress(used_space: u64, base_size: u64) -> ReclaimProgress {
    ReclaimProgress {
        target_space_amp: 100,
        space_used_high: 5000,
        file_base_size: 1000,
        used_space,
        base_size,
        additional_size: used_space.saturating_sub(base_size),
    }
}

#[test]
fn sizes_leave_out_empty_and_cleaned_files() {
    let version = version();
    let mut cleaned = FileSet::new();
    assert_eq!(compute_base_size(&version.page_files, &cleaned), 40 + 50 + 7 + 8);
    assert_eq!(
        compute_used_space(&version.page_files, &version.map_files, &cleaned),
        100 + 200 + 60
    );

    cleaned.insert(FileId::Page(2));
    assert_eq!(compute_base_size(&version.page_files, &cleaned), 40 + 7 + 8);
    assert_eq!(
        compute_used_space(&version.page_files, &version.map_files, &cleaned),
        100 + 60
    );

    // A virtual page file counts by its map file, not by its own id.
    cleaned.insert(FileId::Page(4));
    assert_eq!(compute_base_size(&version.page_files, &cleaned), 40 + 7 + 8);
    cleaned.insert(FileId::MapFile(9));
    assert_eq!(compute_base_size(&version.page_files, &cleaned), 40);
    assert_eq!(
        compute_used_space(&version.page_files, &version.map_files, &cleaned),
        100
    );
}

#[test]
fn progress_measures_a_version() {
    let progress = ReclaimProgress::new(&options(), &version(), &FileSet::new());
    assert_eq!(
        progress,
        ReclaimProgress {
            target_space_amp: 100,
            space_used_high: 5000,
            file_base_size: 1000,
            used_space: 360,
            base_size: 105,
            additional_size: 255,
        }
    );
}

#[test]
fn tracking_a_page_file_is_a_new_measure() {
    let version = version();
    let mut cleaned = FileSet::new();
    let mut progress = ReclaimProgress::new(&options(), &version, &cleaned);
    progress.track_page_file(version.page_files.get(&2).unwrap());
    cleaned.insert(FileId::Page(2));
    assert_eq!(progress, ReclaimProgress::new(&options(), &version, &cleaned));
    assert_eq!(progress.used_space, 160);
    assert_eq!(progress.base_size, 55);
    assert_eq!(progress.additional_size, 105);
}

#[test]
fn tracking_a_map_file_is_a_new_measure() {
    let version = version();
    let mut cleaned = FileSet::new();
    let mut progress = ReclaimProgress::new(&options(), &version, &cleaned);
    let info = version.map_files.get(&9).unwrap();
    assert!(is_mapped_size_computable(info, &version.page_files));
    // Page file 6 is unknown and counts for nothing.
    progress.track_map_file(info, &version.page_files);
    cleaned.insert(FileId::MapFile(9));
    assert_eq!(progress, ReclaimProgress::new(&options(), &version, &cleaned));
    assert_eq!(progress.used_space, 300);
    assert_eq!(progress.base_size, 90);
}

#[test]
fn tracking_keeps_up_with_cleaning() {
    let version = version();
    let mut cleaned = FileSet::new();
    let mut progress = ReclaimProgress::new(&options(), &version, &cleaned);
    progress.track_page_file(version.page_files.get(&1).unwrap());
    cleaned.insert(FileId::Page(1));
    progress.track_map_file(version.map_files.get(&9).unwrap(), &version.page_files);
    cleaned.insert(FileId::MapFile(9));
    assert_eq!(progress, ReclaimProgress::new(&options(), &version, &cleaned));
    assert_eq!(progress.used_space, 200);
    assert_eq!(progress.base_size, 50);
    progress.track_page_file(version.page_files.get(&2).unwrap());
    cleaned.insert(FileId::Page(2));
    assert_eq!(progress, ReclaimProgress::new(&options(), &version, &cleaned));
    assert_eq!(progress.used_space, 0);
    assert_eq!(progress.base_size, 0);
}

#[test]
fn cleaning_frees_space() {
    let version = version();
    let mut cleaned = FileSet::new();
    let mut last = ReclaimProgress::new(&options(), &version, &cleaned);
    for file in [FileId::Page(3), FileId::MapFile(9), FileId::Page(1), FileId::Page(77)] {
        cleaned.insert(file);
        let next = ReclaimProgress::new(&options(), &version, &cleaned);
        assert!(next.used_space <= last.used_space);
        assert!(next.base_size <= last.base_size);
        last = next;
    }
}

#[test]
fn tracking_stops_at_zero() {
    let mut progress = progress(50, 10);
    progress.track_page_file(&page_file(1, None, 100, 40));
    assert_eq!(progress.used_space, 0);
    assert_eq!(progress.base_size, 0);
    assert_eq!(progress.additional_size, 0);
    assert_eq!(progress.reclaim_reason(), ReclaimReason::NoReason);
}

#[test]
fn tracking_only_lowers() {
    let before = progress(5000, 3000);
    let mut after = before;
    after.track_page_file(&page_file(1, None, 100, 40));
    assert_eq!(after.used_space, 4900);
    assert_eq!(after.base_size, 2960);
    assert_eq!(after.additional_size, 1940);
    assert!(after.additional_size <= before.additional_size);
    assert_eq!(after.target_space_amp, before.target_space_amp);
    assert_eq!(after.space_used_high, before.space_used_high);
    assert_eq!(after.file_base_size, before.file_base_size);
}

#[test]
fn high_space_usage_comes_first() {
    // Above the watermark, with more than two files worth to free.
    let progress = progress(5001, 3000);
    assert_eq!(progress.additional_size, 2001);
    assert!(progress.is_decidable());
    assert_eq!(progress.reclaim_reason(), ReclaimReason::HighSpaceUsage);
    assert!(progress.is_reclaimable());
    assert_eq!(
        progress.trace_log(),
        ReclaimTrace::HighSpaceUsage {
            used_space: 5001,
            space_used_high: 5000,
            base_size: 3000,
            additional_size: 2001,
        }
    );
}

#[test]
fn high_space_usage_needs_both_conditions() {
    // At the watermark.
    assert_eq!(progress(5000, 2900).reclaim_reason(), ReclaimReason::NoReason);
    // Exactly two files worth to free.
    assert_eq!(progress(5001, 3001).reclaim_reason(), ReclaimReason::NoReason);
}

#[test]
fn large_space_amp_starts_at_the_target() {
    let at_target = progress(200, 100);
    assert_eq!(at_target.reclaim_reason(), ReclaimReason::LargeSpaceAmp);
    assert!(at_target.is_reclaimable());
    assert_eq!(
        at_target.trace_log(),
        ReclaimTrace::LargeSpaceAmp {
            additional_size: 100,
            target_space_amp: 100,
            base_size: 100,
            used_space: 200,
        }
    );

    let below_target = progress(199, 100);
    assert_eq!(below_target.reclaim_reason(), ReclaimReason::NoReason);
    assert!(!below_target.is_reclaimable());
    assert_eq!(
        below_target.trace_log(),
        ReclaimTrace::NotReclaimable {
            base_size: 100,
            additional_size: 99,
            used_space: 199,
            space_used_high: 5000,
        }
    );
}

#[test]
fn space_without_live_data_is_reclaimable() {
    assert_eq!(progress(1, 0).reclaim_reason(), ReclaimReason::LargeSpaceAmp);
    assert_eq!(progress(0, 0).reclaim_reason(), ReclaimReason::NoReason);
}

#[test]
fn nothing_to_reclaim_without_additional_space() {
    let progress = progress(6000, 6000);
    assert!(progress.is_decidable());
    assert_eq!(progress.reclaim_reason(), ReclaimReason::NoReason);
}

#[test]
fn verdicts_that_overflow_are_not_decidable() {
    let mut large = progress(u64::MAX, 0);
    large.file_base_size = 1 << 63;
    assert!(!large.is_decidable());

    let mut large = progress(u64::MAX, 0);
    large.space_used_high = u64::MAX;
    assert!(!large.is_decidable());

    // The products are not needed when there is nothing to free.
    let mut large = progress(0, u64::MAX);
    large.target_space_amp = u64::MAX;
    assert!(large.is_decidable());

    // Nor when the used space alone decides.
    let mut large = progress(u64::MAX, 0);
    large.target_space_amp = u64::MAX;
    assert!(large.is_decidable());
    assert_eq!(large.reclaim_reason(), ReclaimReason::HighSpaceUsage);
}

#[test]
fn sums_that_overflow_are_not_measurable() {
    assert!(is_measurable(&version(), &FileSet::new()));

    let mut large = version();
    large.page_files.insert(1, page_file(1, None, usize::MAX, 40));
    assert!(!is_measurable(&large, &FileSet::new()));
    let mut cleaned = FileSet::new();
    cleaned.insert(FileId::Page(1));
    assert!(is_measurable(&large, &cleaned));

    let mut large = version();
    large.map_files.insert(9, map_file(9, usize::MAX, &[4]));
    assert!(!is_measurable(&large, &FileSet::new()));
}

#[test]
fn mapped_sizes_that_overflow_are_not_computable() {
    let mut page_files = HashMap::new();
    page_files.insert(4, page_file(4, Some(9), 0, 7));
    let mut large = page_file(5, Some(9), 0, 8);
    large.effective_size = usize::MAX;
    page_files.insert(5, large);
    assert!(!is_mapped_size_computable(&map_file(9, 60, &[4, 5]), &page_files));
    assert!(is_mapped_size_computable(&map_file(9, 60, &[5, 6]), &page_files));
    assert!(is_mapped_size_computable(&map_file(9, 60, &[]), &page_files));
}

#[test]
fn file_sets_tell_page_files_and_map_files_apart() {
    let mut files = FileSet::new();
    assert!(!files.contains(&FileId::Page(1)));
    files.insert(FileId::Page(1));
    assert!(files.contains(&FileId::Page(1)));
    assert!(!files.contains(&FileId::MapFile(1)));
    files.insert(FileId::MapFile(2));
    assert!(files.contains(&FileId::MapFile(2)));
    assert!(!files.contains(&FileId::Page(2)));
}

#[test]
fn clones_hold_the_same_files() {
    let info = page_file(4, Some(9), 12, 7);
    let copy = info.clone();
    assert_eq!(copy.file_id, 4);
    assert_eq!(copy.map_file_id, Some(9));
    assert_eq!(copy.up2, 1);
    assert_eq!(copy.file_size, 12);
    assert_eq!(copy.total_page_size, 12);
    assert_eq!(copy.effective_size, 7);
    assert_eq!(copy.active_pages, info.active_pages);

    let copy = map_file(9, 60, &[4, 5]).clone();
    assert_eq!((copy.file_id, copy.up2, copy.file_size), (9, 1, 60));
    assert_eq!(copy.page_files, HashSet::from([4, 5]));
}
