use std::collections::HashSet;

use photondb_reclaim::files::FileId;
use photondb_reclaim::job_builder::{ReclaimJob, ReclaimJobBuilder, SMALL_PAGE_FILE};
use photondb_reclaim::options::Options;
use photondb_reclaim::progress::ReclaimProgress;
use photondb_reclaim::strategy::{reclaim_files_by_strategy, StrategyAction};

const KB: usize = 1 << 10;

fn files(ids: &[u32]) -> HashSet<u32> {
    ids.iter().cloned().collect()
}

fn options(separate_hot_cold_files: bool) -> Options {
    Options {
        disable_space_reclaiming: false,
        file_base_size: 100 * KB,
        max_space_amplification_percent: 100,
        separate_hot_cold_files,
        space_used_high: u64::MAX,
    }
}

#[test]
fn small_page_files_are_rewritten() {
    assert_eq!(SMALL_PAGE_FILE, 16 << 10);
    let mut builder = ReclaimJobBuilder::new(true, 100 * KB);
    let job = builder.add(FileId::Page(1), 16 * KB - 1);
    assert!(matches!(job, Some(ReclaimJob::Rewrite(1))));
    // A file at the bound is small.
    let job = builder.add(FileId::Page(7), 16 << 10);
    assert!(matches!(job, Some(ReclaimJob::Rewrite(7))));
    // A larger one waits for others.
    let job = builder.add(FileId::Page(2), 16 * KB + 1);
    assert!(job.is_none());
}

#[test]
fn page_files_are_compounded_at_the_target_size() {
    let mut builder = ReclaimJobBuilder::new(true, 100 * KB);
    assert!(builder.add(FileId::Page(1), 40 * KB).is_none());
    assert!(builder.add(FileId::Page(2), 59 * KB).is_none());
    // A small file does not join the others.
    assert!(matches!(
        builder.add(FileId::Page(3), KB),
        Some(ReclaimJob::Rewrite(3))
    ));
    match builder.add(FileId::Page(4), 17 * KB) {
        Some(ReclaimJob::Compound(victims)) => assert_eq!(victims, files(&[1, 2, 4])),
        job => panic!("unexpected {job:?}"),
    }
    // Nothing is left of the compounded files.
    assert!(builder.add(FileId::Page(5), 99 * KB).is_none());
    match builder.add(FileId::Page(6), 17 * KB) {
        Some(ReclaimJob::Compound(victims)) => assert_eq!(victims, files(&[5, 6])),
        job => panic!("unexpected {job:?}"),
    }
}

#[test]
fn map_files_are_compacted_apart_from_page_files() {
    let mut builder = ReclaimJobBuilder::new(true, 100 * KB);
    assert!(builder.add(FileId::MapFile(1), 99 * KB).is_none());
    assert!(builder.add(FileId::Page(1), 99 * KB).is_none());
    // Map files wait however small they are.
    assert!(builder.add(FileId::MapFile(2), 0).is_none());
    match builder.add(FileId::MapFile(3), KB) {
        Some(ReclaimJob::Compact(victims)) => assert_eq!(victims, files(&[1, 2, 3])),
        job => panic!("unexpected {job:?}"),
    }
    match builder.add(FileId::Page(2), 17 * KB) {
        Some(ReclaimJob::Compound(victims)) => assert_eq!(victims, files(&[1, 2])),
        job => panic!("unexpected {job:?}"),
    }
}

#[test]
fn all_page_files_are_rewritten_without_map_files() {
    let mut builder = ReclaimJobBuilder::new(false, 100 * KB);
    assert!(builder.accepts(FileId::Page(1), 1 << 30));
    assert!(matches!(
        builder.add(FileId::Page(1), 1 << 30),
        Some(ReclaimJob::Rewrite(1))
    ));
    assert!(!builder.accepts(FileId::MapFile(1), 1));
}

#[test]
fn sizes_that_overflow_are_not_accepted() {
    let mut builder = ReclaimJobBuilder::new(true, usize::MAX);
    assert!(builder.accepts(FileId::Page(1), usize::MAX - 1));
    assert!(builder.add(FileId::Page(1), usize::MAX - 1).is_none());
    assert!(!builder.accepts(FileId::Page(2), 16 * KB + 1));
    assert!(builder.accepts(FileId::Page(2), 16 * KB));
    assert!(builder.add(FileId::MapFile(1), usize::MAX - 1).is_none());
    assert!(!builder.accepts(FileId::MapFile(2), 2));
    assert!(builder.accepts(FileId::MapFile(2), 1));
}

#[test]
fn no_pick_is_lost() {
    let mut builder = ReclaimJobBuilder::new(true, 50 * KB);
    let mut in_jobs: HashSet<FileId> = HashSet::new();
    let mut picked: HashSet<FileId> = HashSet::new();
    for id in 0..20u32 {
        let (file, size) = if id % 3 == 0 {
            (FileId::MapFile(id), 10 * KB)
        } else {
            (FileId::Page(id), (id as usize) * 2 * KB)
        };
        picked.insert(file);
        match builder.add(file, size) {
            Some(ReclaimJob::Rewrite(id)) => {
                in_jobs.insert(FileId::Page(id));
            }
            Some(ReclaimJob::Compound(ids)) => {
                in_jobs.extend(ids.into_iter().map(FileId::Page));
            }
            Some(ReclaimJob::Compact(ids)) => {
                in_jobs.extend(ids.into_iter().map(FileId::MapFile));
            }
            None => {}
        }
    }
    // A pick large enough for a map file flushes what is still pending.
    if let Some(ReclaimJob::Compound(ids)) = builder.add(FileId::Page(100), 50 * KB) {
        in_jobs.extend(ids.into_iter().map(FileId::Page));
    }
    if let Some(ReclaimJob::Compact(ids)) = builder.add(FileId::MapFile(100), 50 * KB) {
        in_jobs.extend(ids.into_iter().map(FileId::MapFile));
    }
    picked.insert(FileId::Page(100));
    picked.insert(FileId::MapFile(100));
    assert_eq!(in_jobs, picked);
}

#[test]
fn batches_hold_the_picks_since_the_last_one() {
    let mut builder = ReclaimJobBuilder::new(true, 50 * KB);
    let mut batches: Vec<HashSet<u32>> = vec![];
    // Every third page file of 20KB completes a batch, whatever comes between.
    for id in 1..=9u32 {
        assert!(builder.add(FileId::MapFile(id), KB).is_none());
        let small = builder.add(FileId::Page(100 + id), KB);
        assert!(matches!(small, Some(ReclaimJob::Rewrite(_))));
        if let Some(ReclaimJob::Compound(ids)) = builder.add(FileId::Page(id), 20 * KB) {
            batches.push(ids);
        }
    }
    assert_eq!(
        batches,
        vec![files(&[1, 2, 3]), files(&[4, 5, 6]), files(&[7, 8, 9])]
    );
}

fn reclaimable() -> ReclaimProgress {
    ReclaimProgress {
        target_space_amp: 100,
        space_used_high: u64::MAX,
        file_base_size: 100,
        used_space: 200,
        base_size: 100,
        additional_size: 100,
    }
}

#[test]
fn picks_become_actions() {
    let mut strategy = reclaim_files_by_strategy(&options(true));
    assert!(strategy.accepts(FileId::Page(1), KB));
    assert!(matches!(
        strategy.picked(Some((FileId::Page(1), KB))),
        StrategyAction::Rewrite(1)
    ));
    assert!(strategy.goes_on(false, false, &reclaimable()));
    assert!(matches!(
        strategy.picked(Some((FileId::Page(2), 60 * KB))),
        StrategyAction::Defer
    ));
    assert!(strategy.goes_on(false, false, &reclaimable()));
    match strategy.picked(Some((FileId::Page(3), 40 * KB))) {
        StrategyAction::Compound(victims) => assert_eq!(victims, files(&[2, 3])),
        action => panic!("unexpected {action:?}"),
    }
    assert!(strategy.goes_on(false, false, &reclaimable()));
    match strategy.picked(Some((FileId::MapFile(4), 100 * KB))) {
        StrategyAction::Compact(victims) => assert_eq!(victims, files(&[4])),
        action => panic!("unexpected {action:?}"),
    }
    assert!(strategy.goes_on(false, false, &reclaimable()));
    assert!(matches!(strategy.picked(None), StrategyAction::Stop));

    let strategy = reclaim_files_by_strategy(&options(false));
    assert!(!strategy.accepts(FileId::MapFile(1), KB));
}

/// Whether the loop goes on after its first pick.
fn goes_on(terminated: bool, has_next_version: bool, progress: &ReclaimProgress) -> bool {
    let mut strategy = reclaim_files_by_strategy(&options(true));
    strategy.picked(Some((FileId::Page(1), KB)));
    strategy.goes_on(terminated, has_next_version, progress)
}

#[test]
fn picking_goes_on_while_there_is_a_reason() {
    assert!(goes_on(false, false, &reclaimable()));
    assert!(!goes_on(true, false, &reclaimable()));
    assert!(!goes_on(false, true, &reclaimable()));
    let progress = ReclaimProgress {
        used_space: 199,
        additional_size: 99,
        ..reclaimable()
    };
    assert!(!goes_on(false, false, &progress));
}

#[test]
fn waiting_files_get_no_job() {
    let mut strategy = reclaim_files_by_strategy(&options(true));
    let picks = [(1, 60), (2, 40), (3, 70), (4, 1), (5, 20), (6, 30)];
    let mut in_jobs = HashSet::new();
    let mut rounds = 0;
    for (id, size) in picks {
        rounds += 1;
        match strategy.picked(Some((FileId::Page(id), size * KB))) {
            StrategyAction::Rewrite(id) => {
                in_jobs.insert(id);
            }
            StrategyAction::Compound(ids) => in_jobs.extend(ids),
            StrategyAction::Defer => {}
            action => panic!("unexpected {action:?}"),
        }
        // The store shuts down while the fifth pick is dealt with.
        if !strategy.goes_on(rounds == 5, false, &reclaimable()) {
            break;
        }
    }
    assert_eq!(rounds, 5);
    // Page files 3 and 5 still wait, and page file 6 has not been picked.
    assert_eq!(in_jobs, files(&[1, 2, 4]));
}
