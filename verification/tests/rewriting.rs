use std::collections::{BTreeMap, HashMap};

use photondb_reclaim::copy::{fit_page, page_copies, PageCopy};
use photondb_reclaim::files::{ActivePage, FileInfo, PageHandle};
use photondb_reclaim::rewrite::{
    has_page_ids, rewrite_active_pages, rewrite_dealloc_pages, rewrite_file_impl, DeallocAction,
    DeallocReply, FileRewriteAction, RewriteReport, DEALLOC_CHUNK,
};
use photondb_reclaim::stats::JobStats;

fn pa(file_id: u32, offset: u32) -> u64 {
    ((file_id as u64) << 32) | (offset as u64)
}

fn handle(offset: u32, size: u32) -> PageHandle {
    PageHandle { offset, size }
}

/// A page file with a live page of size 10 at each offset.
fn page_file(id: u32, offsets: &[u32]) -> FileInfo {
    FileInfo {
        file_id: id,
        map_file_id: None,
        up2: 0,
        file_size: 1000,
        total_page_size: 500,
        effective_size: 10 * offsets.len(),
        active_pages: offsets
            .iter()
            .map(|offset| ActivePage {
                page_addr: pa(id, *offset),
                handle: handle(*offset, 10),
            })
            .collect(),
    }
}

fn files(ids: &[u32]) -> HashMap<u32, FileInfo> {
    ids.iter().map(|id| (*id, page_file(*id, &[16]))).collect()
}

#[test]
fn page_at_several_addresses_is_rewritten_once() {
    let file = page_file(2, &[16, 32, 48, 64]);
    let page_table = BTreeMap::from([(pa(2, 16), 7), (pa(2, 32), 5), (pa(2, 48), 7), (pa(2, 64), 9)]);
    let mut rewrite = rewrite_active_pages(&file, &page_table);
    let mut pages = vec![];
    while let Some(page_id) = rewrite.next_page() {
        pages.push(page_id);
        rewrite.page_rewritten(1);
    }
    assert_eq!(pages, vec![7, 5, 9]);
    assert!(rewrite.next_page().is_none());
}

#[test]
fn page_table_must_have_every_live_page() {
    let file = page_file(2, &[16, 32]);
    assert!(!has_page_ids(&file, &BTreeMap::from([(pa(2, 16), 7)])));
    assert!(has_page_ids(
        &file,
        &BTreeMap::from([(pa(2, 16), 7), (pa(2, 32), 8), (pa(2, 48), 9)])
    ));
    assert!(has_page_ids(&page_file(2, &[]), &BTreeMap::new()));
}

#[test]
fn deallocated_pages_of_gone_files_are_left_out() {
    let files = files(&[1, 3]);
    let pages = [pa(1, 16), pa(2, 16), pa(3, 16), pa(1, 32), pa(4, 1)];
    let mut rewrite = rewrite_dealloc_pages(9, &files, &pages);
    assert_eq!(rewrite.total_rewrite_pages(), 3);
    let chunk = rewrite.next_chunk().unwrap();
    assert_eq!(chunk.file_id, Some(9));
    assert_eq!(chunk.pages, vec![pa(1, 16), pa(3, 16), pa(1, 32)]);
    assert_eq!(
        rewrite.rewrite_dealloc_pages_chunk(DeallocReply::<&str>::Done),
        DeallocAction::Continue
    );
    assert!(rewrite.next_chunk().is_none());
}

#[test]
fn no_group_without_deallocated_pages() {
    let rewrite = rewrite_dealloc_pages(9, &files(&[1]), &[pa(2, 16), 301, 302]);
    assert_eq!(rewrite.total_rewrite_pages(), 0);
    assert!(rewrite.next_chunk().is_none());
    let rewrite = rewrite_dealloc_pages(9, &files(&[1]), &[]);
    assert!(rewrite.next_chunk().is_none());
}

/// Records all pages, and returns the size and the file of each group.
fn groups(num_pages: usize) -> Vec<(usize, Option<u32>)> {
    let pages: Vec<u64> = (0..num_pages).map(|i| pa(1, i as u32)).collect();
    let mut rewrite = rewrite_dealloc_pages(9, &files(&[1]), &pages);
    assert_eq!(rewrite.total_rewrite_pages(), num_pages);
    let mut groups = vec![];
    let mut recorded = vec![];
    while let Some(chunk) = rewrite.next_chunk() {
        groups.push((chunk.pages.len(), chunk.file_id));
        recorded.extend(chunk.pages.iter().cloned());
        rewrite.rewrite_dealloc_pages_chunk(DeallocReply::<&str>::Done);
    }
    assert_eq!(recorded, pages);
    groups
}

#[test]
fn groups_hold_all_pages_and_the_last_names_the_file() {
    assert_eq!(DEALLOC_CHUNK, 128);
    assert_eq!(groups(0), vec![]);
    assert_eq!(groups(1), vec![(1, Some(9))]);
    assert_eq!(groups(128), vec![(128, Some(9))]);
    assert_eq!(groups(129), vec![(128, None), (1, Some(9))]);
    assert_eq!(groups(256), vec![(128, None), (128, Some(9))]);
    assert_eq!(groups(300), vec![(128, None), (128, None), (44, Some(9))]);
}

#[test]
fn group_is_tried_again_until_it_is_recorded() {
    let pages: Vec<u64> = (0..129).map(|i| pa(1, i)).collect();
    let mut rewrite = rewrite_dealloc_pages(9, &files(&[1]), &pages);
    for _ in 0..3 {
        assert_eq!(rewrite.next_chunk().unwrap().pages.len(), 128);
        assert_eq!(
            rewrite.rewrite_dealloc_pages_chunk(DeallocReply::<&str>::Again),
            DeallocAction::Continue
        );
    }
    assert_eq!(
        rewrite.rewrite_dealloc_pages_chunk(DeallocReply::<&str>::Done),
        DeallocAction::Continue
    );
    assert_eq!(rewrite.next_chunk().unwrap().pages, vec![pa(1, 128)]);
    assert_eq!(
        rewrite.rewrite_dealloc_pages_chunk(DeallocReply::Failed("failed")),
        DeallocAction::Abort("failed")
    );
}

#[test]
fn live_pages_come_before_deallocated_pages() {
    let file = page_file(2, &[16, 32]);
    let page_table = BTreeMap::from([(pa(2, 16), 7), (pa(2, 32), 8)]);
    let active_files = files(&[1]);
    let mut job = rewrite_file_impl(&file, &active_files, &page_table, &[pa(1, 5)], 77);

    assert_eq!(job.next_action(), FileRewriteAction::RewritePage(7));
    assert_eq!(
        job.stats(),
        JobStats {
            read_file_bytes: 77,
            rewrite_input_bytes: 0,
            rewrite_bytes: 0,
            compact_input_bytes: 0,
            compact_write_bytes: 0,
        }
    );
    assert!(job.fits(3));
    job.page_rewritten(3);
    assert_eq!(job.next_action(), FileRewriteAction::RewritePage(8));
    assert!(job.fits(usize::MAX - 3));
    assert!(!job.fits(usize::MAX - 2));
    job.page_rewritten(4);
    assert_eq!(job.next_action(), FileRewriteAction::DeallocPages);
    assert_eq!(job.next_chunk().unwrap().pages, vec![pa(1, 5)]);
    assert_eq!(job.dealloc_replied(DeallocReply::<&str>::Again), DeallocAction::Continue);
    assert_eq!(job.next_action(), FileRewriteAction::DeallocPages);
    assert_eq!(job.dealloc_replied(DeallocReply::<&str>::Done), DeallocAction::Continue);
    assert_eq!(job.next_action(), FileRewriteAction::Finish);
    assert_eq!(
        job.stats(),
        JobStats {
            read_file_bytes: 77,
            rewrite_input_bytes: 500,
            rewrite_bytes: 7,
            compact_input_bytes: 0,
            compact_write_bytes: 0,
        }
    );
    assert_eq!(
        job.finish(),
        RewriteReport {
            file_id: 2,
            total_rewrite_pages: 2,
            total_dealloc_pages: 1,
            effective_size: 20,
            free_size: 980,
            file_size: 1000,
        }
    );
}

#[test]
fn failed_record_keeps_the_statistics_of_rewritten_pages() {
    let file = page_file(2, &[]);
    let mut job = rewrite_file_impl(&file, &files(&[1]), &BTreeMap::new(), &[pa(1, 5)], 0);
    assert_eq!(job.dealloc_replied(DeallocReply::Failed("failed")), DeallocAction::Abort("failed"));
    assert_eq!(job.stats().rewrite_input_bytes, 500);
    assert_eq!(job.stats().rewrite_bytes, 0);
}

#[test]
fn all_live_pages_are_copied() {
    let file = page_file(2, &[16, 32]);
    let page_table = BTreeMap::from([(pa(2, 16), 7), (pa(2, 32), 7), (pa(2, 48), 9)]);
    let copies = page_copies(&file, &page_table);
    assert_eq!(
        copies,
        vec![
            PageCopy {
                page_id: 7,
                page_addr: pa(2, 16),
                handle: handle(16, 10),
            },
            PageCopy {
                page_id: 7,
                page_addr: pa(2, 32),
                handle: handle(32, 10),
            },
        ]
    );
    for copy in copies {
        assert_eq!(file.get_page_handle(copy.page_addr), Some(copy.handle));
    }
}

#[test]
fn handles_exist_for_live_pages_only() {
    let file = page_file(2, &[16, 32]);
    assert_eq!(file.num_active_pages(), 2);
    assert!(!file.is_empty());
    assert!(file.is_page_active(pa(2, 16)));
    assert_eq!(file.get_page_handle(pa(2, 32)), Some(handle(32, 10)));
    assert!(!file.is_page_active(pa(2, 17)));
    assert_eq!(file.get_page_handle(pa(3, 16)), None);
    assert!(page_file(2, &[]).is_empty());
}

#[test]
fn page_buffer_takes_the_size_of_the_page() {
    let mut page: Vec<u8> = vec![];
    fit_page(&mut page, &handle(0, 3));
    assert_eq!(page, vec![0, 0, 0]);
    page[0] = 1;
    page[1] = 2;
    page[2] = 3;
    fit_page(&mut page, &handle(0, 2));
    assert_eq!(page, vec![1, 2]);
    fit_page(&mut page, &handle(0, 4));
    assert_eq!(page, vec![1, 2, 0, 0]);
    fit_page(&mut page, &handle(0, 0));
    assert!(page.is_empty());
}
