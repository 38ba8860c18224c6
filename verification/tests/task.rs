use std::collections::{BTreeMap, HashMap, HashSet};
use std::sync::Arc;

use photondb_reclaim::collections::set_of;
use photondb_reclaim::compact::MapFileMeta;
use photondb_reclaim::ctx::{rewrite_files, ReclaimCtx};
use photondb_reclaim::files::{ActivePage, FileId, FileInfo, FileSet, MapFileInfo, PageHandle, Version};
use photondb_reclaim::options::Options;
use photondb_reclaim::progress::{ReclaimProgress, ReclaimTrace};
use photondb_reclaim::schedule::{
    after_wait, run, wait_for_reclaiming, AfterWait, RunAction, RunEvent, WaitAction,
};
use photondb_reclaim::store::{Guard, PageStore};

fn options(disable_space_reclaiming: bool) -> Options {
    Options {
        disable_space_reclaiming,
        file_base_size: 1000,
        max_space_amplification_percent: 100,
        separate_hot_cold_files: true,
        space_used_high: 5000,
    }
}

fn page_file(id: u32, map_file_id: Option<u32>, effective_size: usize) -> FileInfo {
    let active_pages = if effective_size == 0 {
        vec![]
    } else {
        vec![ActivePage {
            page_addr: ((id as u64) << 32) | 16,
            handle: PageHandle {
                offset: 0,
                size: effective_size as u32,
            },
        }]
    };
    FileInfo {
        file_id: id,
        map_file_id,
        up2: 1,
        file_size: 100,
        total_page_size: 90,
        effective_size,
        active_pages,
    }
}

fn set(ids: &[u32]) -> HashSet<u32> {
    ids.iter().cloned().collect()
}

/// Page files 1 and 2, the empty page files 3 and 4, the virtual page files 5
/// and 6 (the latter empty), and the map files 8 and 9.
fn version() -> Version {
    let map_file = |id: u32, page_files: &[u32]| MapFileInfo {
        file_id: id,
        up2: 1,
        file_size: 50,
        page_files: set(page_files),
    };
    Version {
        page_files: HashMap::from([
            (1, page_file(1, None, 40)),
            (2, page_file(2, None, 50)),
            (3, page_file(3, None, 0)),
            (4, page_file(4, None, 0)),
            (5, page_file(5, Some(8), 10)),
            (6, page_file(6, Some(8), 0)),
        ]),
        map_files: HashMap::from([(8, map_file(8, &[5, 6])), (9, map_file(9, &[]))]),
    }
}

/// Reclaims a file, whatever the current version is.
fn clean(ctx: &mut ReclaimCtx, file: FileId) {
    match file {
        FileId::Page(id) => {
            let page_files = HashMap::from([(id, page_file(id, None, 0))]);
            ctx.rewrite_file(id, &page_files);
        }
        FileId::MapFile(id) => {
            let info = MapFileInfo {
                file_id: id,
                up2: 1,
                file_size: 50,
                page_files: HashSet::new(),
            };
            let map_files = HashMap::from([(id, info)]);
            let meta = MapFileMeta {
                file_ids: HashSet::new(),
                page_tables: HashMap::new(),
            };
            let mut job = ctx.reclaim_map_files(&set(&[id]));
            job.compact_map_file(&meta, &HashMap::new());
            let mut progress = ReclaimProgress::default();
            ctx.map_file_compacted(&mut job, &map_files, &HashMap::new(), &mut progress);
        }
    }
}

#[test]
fn job_accounts_for_its_victims() {
    let mut ctx = ReclaimCtx::new(options(false), 1, HashSet::new());
    let version = version();
    let mut progress = ReclaimProgress::new(ctx.options(), &version, &FileSet::new());
    clean(&mut ctx, FileId::Page(77));
    let mut job = ctx.reclaim_page_files(&set(&[2, 1]));
    while let Some(id) = job.next_victim() {
        let page_addr = ((id as u64) << 32) | 16;
        let copies =
            job.compound_partial_page_file(&version.page_files, &BTreeMap::from([(page_addr, 7)]));
        assert_eq!(copies.len(), 1);
        job = ctx.page_file_compounded(job, &version.page_files, vec![], &mut progress);
    }
    // The progress is that of measuring anew, with the victims cleaned.
    assert_eq!(
        progress,
        ReclaimProgress::new(ctx.options(), &version, ctx.cleaned_files())
    );
    for id in 0..100 {
        let cleaned = ctx.cleaned_files().contains(&FileId::Page(id));
        assert_eq!(cleaned, id == 1 || id == 2 || id == 77);
        assert!(!ctx.cleaned_files().contains(&FileId::MapFile(id)));
    }
}

#[test]
fn pass_starts_with_the_empty_page_files() {
    let mut ctx = ReclaimCtx::new(options(false), 1, HashSet::new());
    let version = version();
    let pass = ctx.reclaim(&version);
    assert_eq!(pass.empty_files.len(), 2);
    assert_eq!(set_of(&pass.empty_files), set(&[3, 4]));
    assert!(!pass.cleaned_files.contains(&FileId::Page(3)));
}

#[test]
fn cleaned_files_stay_cleaned_while_the_version_has_them() {
    let mut ctx = ReclaimCtx::new(options(false), 1, HashSet::new());
    let mut version = version();
    ctx.rewrite_file(1, &version.page_files);
    ctx.rewrite_file(3, &version.page_files);
    clean(&mut ctx, FileId::Page(77));
    clean(&mut ctx, FileId::MapFile(8));
    clean(&mut ctx, FileId::MapFile(78));

    let pass = ctx.reclaim(&version);
    assert_eq!(pass.empty_files, vec![4]);
    assert!(pass.cleaned_files.contains(&FileId::Page(77)));
    assert!(!ctx.needs_rewrite(1));
    assert!(!ctx.needs_rewrite(3));
    // Gone files are forgotten.
    assert!(ctx.needs_rewrite(77));

    let files = ctx.build_strategy(&version, &pass.cleaned_files);
    assert_eq!(files.page_files, vec![2]);
    assert_eq!(files.map_files, vec![9]);
    assert!(ctx.cleaned_files().contains(&FileId::MapFile(8)));
    assert!(!ctx.cleaned_files().contains(&FileId::MapFile(78)));

    version.page_files.remove(&1);
    ctx.reclaim(&version);
    assert!(ctx.needs_rewrite(1));
    assert!(!ctx.needs_rewrite(3));
}

#[test]
fn strategy_picks_among_page_files_with_live_pages_and_map_files() {
    let mut ctx = ReclaimCtx::new(options(false), 1, HashSet::new());
    let files = ctx.build_strategy(&version(), &FileSet::new());
    assert_eq!(files.page_files.len(), 2);
    assert_eq!(set_of(&files.page_files), set(&[1, 2]));
    assert_eq!(set_of(&files.map_files), set(&[8, 9]));
}

#[test]
fn verdict_tells_why_space_is_reclaimed() {
    let mut ctx = ReclaimCtx::new(options(false), 1, HashSet::new());
    let version = version();
    let pass = ctx.reclaim(&version);
    let verdict = ctx.judge(&version, &pass.cleaned_files);
    assert_eq!(
        verdict.progress,
        ReclaimProgress::new(ctx.options(), &version, &pass.cleaned_files)
    );
    assert!(verdict.reclaimable);
    assert_eq!(
        verdict.trace,
        ReclaimTrace::LargeSpaceAmp {
            additional_size: 200,
            target_space_amp: 100,
            base_size: 100,
            used_space: 300,
        }
    );
}

#[test]
fn rewritten_file_is_tracked_and_cleaned() {
    let mut ctx = ReclaimCtx::new(options(false), 1, HashSet::new());
    let version = version();
    let mut progress = ReclaimProgress::new(ctx.options(), &version, &FileSet::new());
    assert!(ctx.needs_rewrite(1));
    ctx.rewrite_file_with_progress(&mut progress, 1, &version.page_files);
    assert!(!ctx.needs_rewrite(1));
    assert_eq!(progress.used_space, 200);
    assert_eq!(progress.base_size, 60);

    // A cleaned file is not accounted for again, even if the version lacks it.
    let before = progress;
    ctx.rewrite_file_with_progress(&mut progress, 1, &version.page_files);
    ctx.rewrite_file_with_progress(&mut progress, 1, &HashMap::new());
    assert_eq!(progress, before);
    assert!(!ctx.needs_rewrite(1));
}

#[test]
fn failed_rewrite_leaves_the_file_alone() {
    let mut ctx = ReclaimCtx::new(options(false), 1, HashSet::new());
    let version = version();
    let files = &version.page_files;
    let mut progress = ReclaimProgress::new(ctx.options(), &version, &FileSet::new());
    let before = progress;

    let failed: Result<(), &str> = Err("failed");
    assert_eq!(ctx.rewrite_ended(Some(&mut progress), 1, files, failed), failed);
    assert_eq!(progress, before);
    assert!(ctx.needs_rewrite(1));

    let done: Result<(), &str> = Ok(());
    assert_eq!(ctx.rewrite_ended(Some(&mut progress), 1, files, done), done);
    assert!(!ctx.needs_rewrite(1));
    assert_eq!(progress.used_space, 200);
    assert_eq!(progress.base_size, 60);

    // The file is cleaned by now, so there is nothing left to fail.
    let before = progress;
    assert_eq!(ctx.rewrite_ended(Some(&mut progress), 1, files, failed), Ok(()));
    assert_eq!(progress, before);

    // Without a progress the file is cleaned all the same.
    assert_eq!(ctx.rewrite_ended(None, 3, files, done), done);
    assert!(!ctx.needs_rewrite(3));
    assert_eq!(ctx.rewrite_ended(None, 4, files, failed), failed);
    assert!(ctx.needs_rewrite(4));
}

#[test]
fn pass_keeps_the_cleaned_files_of_the_version() {
    let mut ctx = ReclaimCtx::new(options(false), 1, HashSet::new());
    let version = version();
    for file in [FileId::Page(2), FileId::Page(77), FileId::MapFile(9), FileId::MapFile(78)] {
        clean(&mut ctx, file);
    }
    let pass = ctx.reclaim(&version);
    // Map files are forgotten until the strategy is asked.
    assert!(!ctx.cleaned_files().contains(&FileId::MapFile(9)));
    ctx.rewrite_file(3, &version.page_files);
    ctx.build_strategy(&version, &pass.cleaned_files);
    clean(&mut ctx, FileId::MapFile(8));
    for id in 0..100 {
        let page_cleaned = ctx.cleaned_files().contains(&FileId::Page(id));
        assert_eq!(page_cleaned, id == 2 || id == 3);
        let map_cleaned = ctx.cleaned_files().contains(&FileId::MapFile(id));
        assert_eq!(map_cleaned, id == 8 || id == 9);
    }
}

#[test]
fn map_file_ids_are_handed_out_in_order() {
    let mut ctx = ReclaimCtx::new(options(false), u32::MAX - 2, HashSet::new());
    assert!(ctx.has_map_file_id());
    assert_eq!(
        ctx.reclaim_page_files(&set(&[1])).new_file_id(),
        u32::MAX - 2
    );
    assert_eq!(
        ctx.reclaim_map_files(&set(&[1])).new_file_id(),
        u32::MAX - 1
    );
    assert!(!ctx.has_map_file_id());
}

#[test]
fn orphans_are_reclaimed_once() {
    let mut ctx = ReclaimCtx::new(options(false), 1, set(&[4, 5]));
    let mut job = ctx.reclaim_orphan_page_files().unwrap();
    let mut files = vec![];
    while let Some(file_id) = job.next_file() {
        files.push(file_id);
        job.file_done();
    }
    assert_eq!(set_of(&files), set(&[4, 5]));
    assert!(ctx.reclaim_orphan_page_files().is_none());
}

#[test]
fn rewriting_stops_for_a_new_version_or_the_shutdown() {
    let mut queue = rewrite_files(vec![5, 6, 7]);
    assert_eq!(queue.next_file(false, false), Some(5));
    assert_eq!(queue.next_file(true, false), None);
    assert_eq!(queue.next_file(false, true), None);
    assert_eq!(queue.next_file(false, false), Some(6));
    assert_eq!(queue.next_file(false, false), Some(7));
    assert_eq!(queue.next_file(false, false), None);
}

/// The actions of a task that sees some more versions before the shutdown.
fn actions(options: &Options, mut versions: usize) -> Vec<RunAction> {
    let mut actions = vec![];
    let mut event = RunEvent::Started;
    loop {
        let action = run(options, event);
        actions.push(action);
        event = match action {
            RunAction::ReclaimOrphans => RunEvent::OrphansReclaimed,
            RunAction::Reclaim => RunEvent::Reclaimed,
            RunAction::MarkReclaimed => RunEvent::Marked,
            RunAction::WaitNextVersion if versions > 0 => {
                versions -= 1;
                RunEvent::NextVersion
            }
            RunAction::WaitNextVersion => RunEvent::Terminated,
            RunAction::Stop => return actions,
        };
    }
}

#[test]
fn every_version_is_gone_through() {
    assert_eq!(
        actions(&options(false), 1),
        vec![
            RunAction::ReclaimOrphans,
            RunAction::Reclaim,
            RunAction::MarkReclaimed,
            RunAction::WaitNextVersion,
            RunAction::Reclaim,
            RunAction::MarkReclaimed,
            RunAction::WaitNextVersion,
            RunAction::Stop,
        ]
    );
}

#[test]
fn disabled_reclaiming_still_reclaims_orphans() {
    assert_eq!(
        actions(&options(true), 1),
        vec![
            RunAction::ReclaimOrphans,
            RunAction::WaitNextVersion,
            RunAction::WaitNextVersion,
            RunAction::Stop,
        ]
    );
}

#[test]
fn writers_wait_while_there_is_space_to_reclaim() {
    let version = version();
    assert_eq!(
        wait_for_reclaiming(&options(false), &version),
        WaitAction::Wait(ReclaimTrace::LargeSpaceAmp {
            additional_size: 200,
            target_space_amp: 100,
            base_size: 100,
            used_space: 300,
        })
    );
    assert_eq!(
        wait_for_reclaiming(&options(true), &version),
        WaitAction::Skip
    );
    let tolerant = Options {
        max_space_amplification_percent: 201,
        ..options(false)
    };
    assert_eq!(
        wait_for_reclaiming(&tolerant, &version),
        WaitAction::Proceed(ReclaimTrace::NotReclaimable {
            base_size: 100,
            additional_size: 200,
            used_space: 300,
            space_used_high: 5000,
        })
    );
}

/// The number of waits of a writer that finds the versions one after the other.
fn waits(options: &Options, versions: &[Version]) -> usize {
    let mut at = 0;
    let mut waits = 0;
    while let WaitAction::Wait(_) = wait_for_reclaiming(options, &versions[at]) {
        waits += 1;
        match after_wait(at + 1 < versions.len()) {
            AfterWait::LookAgain => at += 1,
            AfterWait::Return => break,
        }
    }
    waits
}

#[test]
fn writers_follow_the_versions() {
    assert_eq!(after_wait(true), AfterWait::LookAgain);
    assert_eq!(after_wait(false), AfterWait::Return);

    let clean = || Version {
        page_files: HashMap::new(),
        map_files: HashMap::new(),
    };
    let options = options(false);
    assert_eq!(waits(&options, &[version(), version(), clean(), version()]), 2);
    assert_eq!(waits(&options, &[version(), version()]), 2);
    assert_eq!(waits(&options, &[clean(), version()]), 0);
    let disabled = Options {
        disable_space_reclaiming: true,
        ..options
    };
    assert_eq!(waits(&disabled, &[version(), version()]), 0);
}

#[test]
fn guards_share_the_page_table() {
    let store = PageStore {
        env: (),
        table: Arc::new(vec![1, 2, 3]),
    };
    let version = Arc::new("version");
    let guard: Guard<&str, Vec<i32>> = store.guard(version.clone());
    assert!(Arc::ptr_eq(&guard.version, &version));
    assert!(Arc::ptr_eq(&guard.page_table, &store.table));
}
