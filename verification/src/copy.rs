//! Copying the live pages of page files into a map file.

use std::collections::BTreeMap;

use vstd::prelude::*;

use crate::files::{FileInfo, PageHandle};

verus! {

/// A page to copy.
#[derive(Debug, Clone, Copy, PartialEq, Eq, Structural)]
pub struct PageCopy {
    pub page_id: u64,
    pub page_addr: u64,
    /// Where the page lies now.
    pub handle: PageHandle,
}

/// The copies of all live pages of a file, in the order of their addresses.
pub open spec fn copies_of(file: FileInfo, page_table: Map<u64, u64>) -> Seq<PageCopy> {
    Seq::new(
        file.active_pages@.len(),
        |i: int|
            PageCopy {
                page_id: page_table[file.active_pages@[i].page_addr],
                page_addr: file.active_pages@[i].page_addr,
                handle: file.active_pages@[i].handle,
            },
    )
}

/// The pages of a file to copy into a map file: all live pages, and none of the
/// deallocated ones.
pub fn page_copies(file: &FileInfo, page_table: &BTreeMap<u64, u64>) -> (res: Vec<PageCopy>)
    requires
        crate::rewrite::maps_active_pages(*file, page_table@),
    ensures
        res@ == copies_of(*file, page_table@),
{
    let mut copies: Vec<PageCopy> = Vec::new();
    for i in 0..file.active_pages.len()
        invariant
            crate::rewrite::maps_active_pages(*file, page_table@),
            copies@ == copies_of(*file, page_table@).take(i as int),
    {
        let page = file.active_pages[i];
        let page_id = *page_table.get(&page.page_addr).unwrap();
        copies.push(PageCopy { page_id, page_addr: page.page_addr, handle: page.handle });
        assert(copies@ =~= copies_of(*file, page_table@).take(i + 1));
    }
    assert(copies@ =~= copies_of(*file, page_table@));
    copies
}

/// Fits a page buffer to the size of a page, whatever page it held before.
pub fn fit_page(page: &mut Vec<u8>, handle: &PageHandle)
    ensures
        final(page)@.len() == handle.size,
        forall|i: int|
            0 <= i < handle.size ==> #[trigger] final(page)@[i] == if i < old(page)@.len() {
                old(page)@[i]
            } else {
                0u8
            },
{
    let page_size = handle.size as usize;
    let ghost before = page@;
    if page.len() < page_size {
        page.resize(page_size, 0u8);
        assert forall|i: int| 0 <= i < before.len() implies page@[i] == before[i] by {
            assert(page@.subrange(0, before.len() as int)[i] == before[i]);
        }
    }
    page.truncate(page_size);
}

/// Every copied page is the one that its file has under that address.
pub proof fn law_copies_have_handles(file: FileInfo, page_table: Map<u64, u64>, i: int)
    requires
        file.wf(),
        0 <= i < file.active_pages@.len(),
    ensures
        crate::files::handle_in(file.active_pages@, copies_of(file, page_table)[i].page_addr)
            == Some(copies_of(file, page_table)[i].handle),
{
    crate::files::law_active_page_has_handle(file, i);
}

/// The copies of a page file are its live pages, one each and in their order, with
/// the ids that the page table gives their addresses.
pub proof fn law_copies_are_the_live_pages(
    file: FileInfo,
    page_table: BTreeMap<u64, u64>,
    copies: Vec<PageCopy>,
)
    requires
        call_ensures(page_copies, (&file, &page_table), copies),
    ensures
        copies@.len() == file.active_pages@.len(),
        forall|i: int|
            0 <= i < file.active_pages@.len() ==> {
                &&& (#[trigger] copies@[i]).page_addr == file.active_pages@[i].page_addr
                &&& copies@[i].handle == file.active_pages@[i].handle
                &&& copies@[i].page_id == page_table@[file.active_pages@[i].page_addr]
            },
{
}

/// A page buffer takes the size of the page, keeps what it held as far as that fits,
/// and is zero beyond.
pub proof fn law_buffer_takes_the_size_of_the_page(page: &mut Vec<u8>, handle: PageHandle)
    requires
        call_ensures(fit_page, (page, &handle), ()),
    ensures
        final(page)@.len() == handle.size,
        forall|i: int|
            0 <= i < handle.size && i < old(page)@.len() ==> #[trigger] final(page)@[i]
                == old(page)@[i],
        forall|i: int| old(page)@.len() <= i < handle.size ==> #[trigger] final(page)@[i] == 0,
{
}

} // verus!
