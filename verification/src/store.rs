//! The page store and the guards through which its pages are read.

use std::sync::Arc;

use vstd::prelude::*;

verus! {

/// A page store in the environment `E`, with a page table `T` that all of its
/// guards share.
#[derive(Debug)]
pub struct PageStore<E, T> {
    pub env: E,
    pub table: Arc<T>,
}

/// Keeps a version `V` alive while pages are looked up in the page table.
#[derive(Debug)]
pub struct Guard<V, T> {
    pub version: Arc<V>,
    pub page_table: Arc<T>,
}

impl<V, T> Guard<V, T> {
    /// A guard of a version.
    pub fn new(version: Arc<V>, page_table: Arc<T>) -> (res: Guard<V, T>)
        ensures
            res.version == version,
            res.page_table == page_table,
    {
        Guard { version, page_table }
    }
}

impl<E, T> PageStore<E, T> {
    /// A guard of the version that the calling thread currently works on.
    pub fn guard<V>(&self, local_version: Arc<V>) -> (res: Guard<V, T>)
        ensures
            res.version == local_version,
            res.page_table == self.table,
    {
        Guard::new(local_version, self.table.clone())
    }
}

/// A guard holds the version that it was asked for and the table of its store.
pub proof fn law_guard_holds_version_and_table<E, T, V>(
    store: PageStore<E, T>,
    version: Arc<V>,
    guard: Guard<V, T>,
)
    requires
        call_ensures(PageStore::<E, T>::guard::<V>, (&store, version), guard),
    ensures
        guard.version == version,
        guard.page_table == store.table,
{
}

} // verus!
