use std::collections::{BTreeMap, HashMap, HashSet};

use photondb_reclaim::compact::{compact_map_files, MapFileMeta};
use photondb_reclaim::compound::CompoundOutput;
use photondb_reclaim::copy::fit_page;
use photondb_reclaim::ctx::ReclaimCtx;
use photondb_reclaim::edit::{DeltaVersion, VersionUpdateReason};
use photondb_reclaim::files::{
    ActivePage, FileId, FileInfo, FileSet, MapFileInfo, PageHandle, Version,
};
use photondb_reclaim::options::Options;
use photondb_reclaim::progress::{is_mapped_size_computable, ReclaimProgress};
use photondb_reclaim::rewrite::{
    has_page_ids, rewrite_dealloc_pages, rewrite_file_impl, DeallocAction, DeallocReply,
    FileRewriteAction,
};

/// The size of what a file holds besides its pages.
const FILE_META_SIZE: usize = 64;

/// What a page file holds on disk.
struct PageFile {
    pages: HashMap<u64, Vec<u8>>,
    page_table: BTreeMap<u64, u64>,
    dealloc_pages: Vec<u64>,
}

/// What a map file holds on disk.
struct MapFile {
    pages: HashMap<u64, Vec<u8>>,
    page_tables: HashMap<u32, BTreeMap<u64, u64>>,
}

/// Writes map files, page by page.
struct MapFileBuilder {
    file_id: u32,
    offset: u32,
    infos: HashMap<u32, FileInfo>,
    file: MapFile,
}

impl MapFileBuilder {
    fn new(file_id: u32) -> MapFileBuilder {
        MapFileBuilder {
            file_id,
            offset: 0,
            infos: HashMap::new(),
            file: MapFile {
                pages: HashMap::new(),
                page_tables: HashMap::new(),
            },
        }
    }

    fn add_file(&mut self, id: u32) {
        self.infos.insert(
            id,
            FileInfo {
                file_id: id,
                map_file_id: Some(self.file_id),
                up2: 0,
                file_size: 0,
                total_page_size: 0,
                effective_size: 0,
                active_pages: vec![],
            },
        );
        self.file.page_tables.insert(id, BTreeMap::new());
    }

    fn add_page(&mut self, id: u32, page_id: u64, page_addr: u64, page: &[u8]) {
        let size = page.len() as u32;
        let info = self.infos.get_mut(&id).unwrap();
        info.active_pages.push(ActivePage {
            page_addr,
            handle: PageHandle {
                offset: self.offset,
                size,
            },
        });
        info.total_page_size += page.len();
        info.effective_size += page.len();
        self.offset += size;
        self.file.pages.insert(page_addr, page.to_vec());
        self.file
            .page_tables
            .get_mut(&id)
            .unwrap()
            .insert(page_addr, page_id);
    }

    fn finish(self, up2: u32) -> (HashMap<u32, FileInfo>, MapFileInfo, MapFile) {
        let map_file = MapFileInfo {
            file_id: self.file_id,
            up2,
            file_size: FILE_META_SIZE + self.offset as usize,
            page_files: self.infos.keys().cloned().collect(),
        };
        (self.infos, map_file, self.file)
    }
}

fn pa(file_id: u32, offset: u32) -> u64 {
    ((file_id as u64) << 32) | (offset as u64)
}

fn options() -> Options {
    Options {
        disable_space_reclaiming: false,
        file_base_size: 64 << 20,
        max_space_amplification_percent: 100,
        separate_hot_cold_files: true,
        space_used_high: u64::MAX,
    }
}

fn empty_version() -> Version {
    Version {
        page_files: HashMap::new(),
        map_files: HashMap::new(),
    }
}

fn build_page_file(
    file_id: u32,
    pages: &[(u64, u64)],
    dealloc_pages: &[u64],
) -> (FileInfo, PageFile) {
    let mut info = FileInfo {
        file_id,
        map_file_id: None,
        up2: file_id,
        file_size: FILE_META_SIZE,
        total_page_size: 0,
        effective_size: 0,
        active_pages: vec![],
    };
    let mut file = PageFile {
        pages: HashMap::new(),
        page_table: BTreeMap::new(),
        dealloc_pages: dealloc_pages.to_vec(),
    };
    for (i, (page_id, page_addr)) in pages.iter().enumerate() {
        info.active_pages.push(ActivePage {
            page_addr: *page_addr,
            handle: PageHandle {
                offset: i as u32,
                size: 1,
            },
        });
        info.file_size += 1;
        info.total_page_size += 1;
        info.effective_size += 1;
        file.pages.insert(*page_addr, vec![0]);
        file.page_table.insert(*page_addr, *page_id);
    }
    (info, file)
}

fn deactivate_page(info: &mut FileInfo, page_addr: u64) -> bool {
    match info.get_page_handle(page_addr) {
        Some(handle) => {
            info.active_pages.retain(|page| page.page_addr != page_addr);
            info.effective_size -= handle.size as usize;
            true
        }
        None => false,
    }
}

fn build_map_file(
    file_id: u32,
    pages: HashMap<u32, Vec<(u64, u64)>>,
) -> (HashMap<u32, FileInfo>, MapFileInfo, MapFile) {
    let mut builder = MapFileBuilder::new(file_id);
    for (id, pages) in pages {
        builder.add_file(id);
        for (page_id, page_addr) in pages {
            builder.add_page(id, page_id, page_addr, &[0]);
        }
    }
    builder.finish(file_id)
}

/// Records deallocated pages, and returns each record with the file it names.
fn record_dealloc_pages(
    file_id: u32,
    version: &Version,
    pages: &[u64],
) -> Vec<(Option<u32>, Vec<u64>)> {
    let mut records = vec![];
    let mut rewrite = rewrite_dealloc_pages(file_id, &version.page_files, pages);
    while let Some(chunk) = rewrite.next_chunk() {
        records.push((chunk.file_id, chunk.pages.clone()));
        let action = rewrite.rewrite_dealloc_pages_chunk(DeallocReply::<()>::Done);
        assert_eq!(action, DeallocAction::Continue);
    }
    records
}

#[test]
fn reclaim_rewrite_page() {
    let (mut file_info, file) = build_page_file(
        2,
        &[
            (1, pa(2, 16)),
            (2, pa(2, 32)),
            (3, pa(2, 64)),
            (4, pa(2, 128)),
        ],
        &[301, 302, 303],
    );
    assert!(deactivate_page(&mut file_info, pa(2, 32)));

    let mut version = empty_version();
    version.page_files.insert(2, file_info.clone());

    assert!(has_page_ids(&file_info, &file.page_table));
    let mut job = rewrite_file_impl(
        &file_info,
        &version.page_files,
        &file.page_table,
        &file.dealloc_pages,
        0,
    );
    let mut pages = vec![];
    let mut records = vec![];
    loop {
        match job.next_action() {
            FileRewriteAction::RewritePage(page_id) => {
                pages.push(page_id);
                job.page_rewritten(0);
            }
            FileRewriteAction::DeallocPages => {
                let chunk = job.next_chunk().unwrap();
                records.push((chunk.file_id, chunk.pages.clone()));
                assert_eq!(
                    job.dealloc_replied(DeallocReply::<()>::Done),
                    DeallocAction::Continue
                );
            }
            FileRewriteAction::Finish => break,
        }
    }
    job.finish();
    assert_eq!(pages, vec![1, 3, 4]); // page_id 2 is deallocated.

    let dealloc_pages: HashSet<u64> = HashSet::from([301, 302, 303]);
    for (former_file_id, pages) in records {
        assert_eq!(former_file_id, Some(2));
        for page in pages {
            assert!(dealloc_pages.contains(&page));
        }
    }
}

/// Compounds page files into the map file that the context names.
fn compound(
    ctx: &mut ReclaimCtx,
    progress: &mut ReclaimProgress,
    infos: &HashMap<u32, FileInfo>,
    files: &HashMap<u32, PageFile>,
    victims: &HashSet<u32>,
) -> (HashMap<u32, FileInfo>, MapFileInfo, CompoundOutput) {
    let mut job = ctx.reclaim_page_files(victims);
    let mut builder = MapFileBuilder::new(job.new_file_id());
    let mut page: Vec<u8> = vec![];
    while let Some(id) = job.next_victim() {
        let info = infos.get(&id).unwrap();
        let file = files.get(&id).unwrap();
        assert!(has_page_ids(info, &file.page_table));
        builder.add_file(id);
        for copy in job.compound_partial_page_file(infos, &file.page_table) {
            fit_page(&mut page, &copy.handle);
            page.copy_from_slice(file.pages.get(&copy.page_addr).unwrap());
            builder.add_page(id, copy.page_id, copy.page_addr, &page);
        }
        let dealloc_pages = file.dealloc_pages.clone();
        assert!(job.fits(info, &dealloc_pages));
        job = ctx.page_file_compounded(job, infos, dealloc_pages, progress);
    }
    let (virtual_infos, map_file, _) = builder.finish(job.up2());
    (virtual_infos, map_file, job.finish())
}

#[test]
fn compound_page_files() {
    let mut ctx = ReclaimCtx::new(options(), 1, HashSet::new());
    let file_id_1 = 2;
    let file_id_2 = 3;
    let (mut file_info_1, file_1) = build_page_file(
        file_id_1,
        &[
            (1, pa(file_id_1, 16)),
            (2, pa(file_id_1, 32)),
            (3, pa(file_id_1, 64)),
            (4, pa(file_id_1, 128)),
        ],
        &[301, 302, 303],
    );
    assert!(deactivate_page(&mut file_info_1, pa(file_id_1, 32)));

    let (file_info_2, file_2) = build_page_file(
        file_id_2,
        &[
            (11, pa(file_id_2, 16)),
            (12, pa(file_id_2, 32)),
            (13, pa(file_id_2, 64)),
            (14, pa(file_id_2, 128)),
        ],
        &[301, 302, 303],
    );

    let mut infos = HashMap::new();
    infos.insert(file_id_1, file_info_1.clone());
    infos.insert(file_id_2, file_info_2.clone());
    let mut files = HashMap::new();
    files.insert(file_id_1, file_1);
    files.insert(file_id_2, file_2);

    let version = empty_version();
    let victims = infos.keys().cloned().collect::<HashSet<_>>();
    let mut progress = ReclaimProgress::new(ctx.options(), &version, &FileSet::new());
    let (new_files, map_file, output) =
        compound(&mut ctx, &mut progress, &infos, &files, &victims);
    for (id, pages) in &output.dealloc_page_map {
        assert!(record_dealloc_pages(*id, &version, pages).is_empty());
    }
    assert_eq!(map_file.page_files.len(), 2);
    assert!(new_files.contains_key(&file_id_1));
    assert!(new_files.contains_key(&file_id_2));
    assert!(new_files
        .get(&file_id_1)
        .unwrap()
        .is_page_active(pa(file_id_1, 16)));
    assert!(!new_files
        .get(&file_id_1)
        .unwrap()
        .is_page_active(pa(file_id_1, 32)));
    assert!(new_files
        .get(&file_id_1)
        .unwrap()
        .get_page_handle(pa(file_id_1, 32))
        .is_none());
    assert!(new_files
        .get(&file_id_2)
        .unwrap()
        .is_page_active(pa(file_id_2, 32)));

    // Both page files are cleaned, and both wait for their deallocated pages.
    assert!(!ctx.needs_rewrite(file_id_1));
    assert!(!ctx.needs_rewrite(file_id_2));
    assert_eq!(output.new_file_id, 1);
    assert_eq!(output.victims, vec![2, 3]);
    assert_eq!(output.num_active_pages, 7);
    assert_eq!(output.num_dealloc_pages, 6);
    assert_eq!(output.input_size, 2 * FILE_META_SIZE + 8);
    assert_eq!(output.output_size, 7);
    assert_eq!(output.free_size, 2 * FILE_META_SIZE + 1);
    assert!(output.obsoleted_files.is_empty());
    assert_eq!(output.dealloc_page_map.len(), 2);
    assert_eq!(map_file.up2, 2);
}

/// Compacts map files into the map file of the job that the context starts.
fn compact(
    ctx: &mut ReclaimCtx,
    progress: &mut ReclaimProgress,
    map_infos: &HashMap<u32, MapFileInfo>,
    map_files: &HashMap<u32, MapFile>,
    page_files: &HashMap<u32, FileInfo>,
    victims: &HashSet<u32>,
    new_file_id: Option<u32>,
) -> (
    HashMap<u32, FileInfo>,
    MapFileInfo,
    photondb_reclaim::compact::CompactOutput,
) {
    let mut job = match new_file_id {
        Some(id) => compact_map_files(id, victims),
        None => ctx.reclaim_map_files(victims),
    };
    let mut builder = MapFileBuilder::new(job.new_file_id());
    let mut page: Vec<u8> = vec![];
    while let Some(id) = job.next_victim() {
        let info = map_infos.get(&id).unwrap();
        let file = map_files.get(&id).unwrap();
        let meta = MapFileMeta {
            file_ids: info.page_files.clone(),
            page_tables: file.page_tables.clone(),
        };
        assert!(meta.is_covered(page_files));
        assert!(job.fits(&meta, page_files));
        for file_copy in job.compact_map_file(&meta, page_files) {
            builder.add_file(file_copy.file_id);
            for copy in file_copy.pages {
                fit_page(&mut page, &copy.handle);
                page.copy_from_slice(file.pages.get(&copy.page_addr).unwrap());
                builder.add_page(file_copy.file_id, copy.page_id, copy.page_addr, &page);
            }
        }
        assert!(job.fits_up2(info));
        assert!(is_mapped_size_computable(info, page_files));
        ctx.map_file_compacted(&mut job, map_infos, page_files, progress);
    }
    let (virtual_infos, map_file, _) = builder.finish(job.up2());
    (virtual_infos, map_file, job.finish())
}

#[test]
fn map_files_compacting() {
    let mut ctx = ReclaimCtx::new(options(), 1, HashSet::new());

    let (f1, f2, f3, f4) = (1, 2, 3, 4);
    let (m1, m2, m3) = (1, 2, 3);
    let mut pages = HashMap::new();
    pages.insert(f1, vec![(1, pa(f1, 16)), (2, pa(f1, 32)), (3, pa(f1, 64))]);
    pages.insert(f2, vec![(4, pa(f2, 16)), (5, pa(f2, 32)), (6, pa(f2, 64))]);
    let (virtual_infos, m1_info, m1_file) = build_map_file(m1, pages);
    let mut page_files = virtual_infos;

    let mut pages = HashMap::new();
    pages.insert(f3, vec![(7, pa(f3, 16)), (8, pa(f3, 32)), (9, pa(f3, 64))]);
    pages.insert(f4, vec![(1, pa(f4, 16)), (2, pa(f4, 32)), (3, pa(f4, 64))]);
    let (virtual_infos, m2_info, m2_file) = build_map_file(m2, pages);
    page_files.extend(virtual_infos);

    let map_infos = HashMap::from([(m1, m1_info), (m2, m2_info)]);
    let map_files = HashMap::from([(m1, m1_file), (m2, m2_file)]);
    let victims: HashSet<u32> = HashSet::from_iter(vec![m1, m2]);
    let version = empty_version();
    let mut progress = ReclaimProgress::new(ctx.options(), &version, &FileSet::new());
    let (virtual_infos, m3_info, output) = compact(
        &mut ctx,
        &mut progress,
        &map_infos,
        &map_files,
        &page_files,
        &victims,
        Some(m3),
    );

    assert!(virtual_infos.contains_key(&f1));
    assert!(virtual_infos.contains_key(&f2));
    assert!(virtual_infos.contains_key(&f3));
    assert!(virtual_infos.contains_key(&f4));

    let f1_info = virtual_infos.get(&f1).unwrap();
    assert!(f1_info.get_page_handle(pa(f1, 32)).is_some());
    assert!(f1_info.get_page_handle(pa(f1, 64)).is_some());
    assert!(f1_info.get_page_handle(pa(f1, 128)).is_none());

    let f4_info = virtual_infos.get(&f4).unwrap();
    assert!(f4_info.get_page_handle(pa(f4, 0)).is_none());
    assert!(f4_info.get_page_handle(pa(f2, 32)).is_none());
    assert!(f4_info.get_page_handle(pa(f4, 64)).is_some());

    let base_size = virtual_infos
        .values()
        .map(|info| info.effective_size)
        .sum::<usize>();
    let used_size = m3_info.file_size;
    println!("base size {base_size}");
    println!("used size {used_size}");
    assert!(base_size < used_size);

    // Both map files are marked as cleaned.
    assert!(ctx.cleaned_files().contains(&FileId::MapFile(m1)));
    assert!(ctx.cleaned_files().contains(&FileId::MapFile(m2)));
    assert!(!ctx.cleaned_files().contains(&FileId::MapFile(m3)));
    assert_eq!(output.victims, vec![m1, m2]);
    assert_eq!(output.num_active_pages, 12);
    assert_eq!(output.input_size, 12);
    assert_eq!(output.output_size, 12);
    assert_eq!(output.free_size, 0);
    assert_eq!(m3_info.up2, 1);
}

#[test]
fn map_files_reclaiming() {
    let (f1, f2, f3, f4) = (1, 2, 3, 4);
    let (m1, m2, m3) = (1, 2, 3);
    let mut ctx = ReclaimCtx::new(options(), m3, HashSet::new());
    let mut pages = HashMap::new();
    pages.insert(f1, vec![(1, pa(f1, 16)), (2, pa(f1, 32)), (3, pa(f1, 64))]);
    pages.insert(f2, vec![(4, pa(f2, 16)), (5, pa(f2, 32)), (6, pa(f2, 64))]);
    let (virtual_infos, m1_info, m1_file) = build_map_file(m1, pages);
    let mut page_files = virtual_infos;

    let mut pages = HashMap::new();
    pages.insert(f3, vec![(7, pa(f3, 16)), (8, pa(f3, 32)), (9, pa(f3, 64))]);
    pages.insert(f4, vec![(1, pa(f4, 16)), (2, pa(f4, 32)), (3, pa(f4, 64))]);
    let (virtual_infos, m2_info, m2_file) = build_map_file(m2, pages);
    page_files.extend(virtual_infos);

    let map_files = HashMap::from([(m1, m1_file), (m2, m2_file)]);
    let victims: HashSet<u32> = HashSet::from_iter(vec![m1, m2]);

    let version = Version {
        page_files,
        map_files: HashMap::from([(m1, m1_info), (m2, m2_info)]),
    };
    let mut progress = ReclaimProgress::new(ctx.options(), &version, &FileSet::new());
    assert!(ctx.has_map_file_id());
    let (virtual_infos, m3_info, output) = compact(
        &mut ctx,
        &mut progress,
        &version.map_files,
        &map_files,
        &version.page_files,
        &victims,
        None,
    );
    let change = output.into_change(m3_info, virtual_infos);
    let edit = change.edit();
    let mut deleted = edit.map_stream.unwrap().deleted_files;
    deleted.sort_unstable();
    assert_eq!(deleted, vec![m1, m2]);
    assert!(edit.page_stream.is_none());

    let mut delta = DeltaVersion {
        reason: VersionUpdateReason::Flush,
        page_files: version.page_files.clone(),
        map_files: version.map_files.clone(),
        obsoleted_page_files: HashSet::new(),
        obsoleted_map_files: HashSet::new(),
    };
    change.recorded().install(&mut delta);

    let page_files = &delta.page_files;
    assert!(page_files.contains_key(&f1));
    assert!(page_files.contains_key(&f2));
    assert!(page_files.contains_key(&f3));
    assert!(page_files.contains_key(&f4));

    let f1_info = page_files.get(&f1).unwrap();
    assert!(f1_info.get_page_handle(pa(f1, 32)).is_some());
    assert!(f1_info.get_page_handle(pa(f1, 64)).is_some());
    assert!(f1_info.get_page_handle(pa(f1, 128)).is_none());
    assert_eq!(f1_info.map_file_id, Some(m3));

    let f4_info = page_files.get(&f4).unwrap();
    assert!(f4_info.get_page_handle(pa(f4, 0)).is_none());
    assert!(f4_info.get_page_handle(pa(f2, 32)).is_none());
    assert!(f4_info.get_page_handle(pa(f4, 64)).is_some());

    let map_files = &delta.map_files;
    // The compacted map files are not contained in version.
    assert!(!map_files.contains_key(&m1));
    assert!(!map_files.contains_key(&m2));
    assert!(map_files.contains_key(&m3));
    assert_eq!(delta.reason, VersionUpdateReason::Compact);
    assert_eq!(delta.obsoleted_map_files, victims);
    assert!(delta.obsoleted_page_files.is_empty());

    // All files are accounted for.
    assert_eq!(progress.used_space, 0);
    assert_eq!(progress.base_size, 0);
}
