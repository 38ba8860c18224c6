//! Space reclaiming for a log-structured page store.
//!
//! The store writes pages to page files and never changes them in place, so dead
//! pages pile up. Reclaiming moves the live pages of a file elsewhere and drops
//! the file. Small page files are *rewritten*: their live pages go back through
//! the write buffer. Larger page files are *compounded* into a map file, which
//! keeps the page addresses; map files are *compacted* into new ones.
//!
//! The crate holds the decisions and the bookkeeping, and does no input or
//! output. A job hands out what to do next and is told what came of it; the
//! caller reads and writes the files in between.
//!
//! - [`progress`] measures the space in use and decides whether to reclaim;
//! - [`job_builder`] and [`strategy`] turn picked files into jobs;
//! - [`rewrite`], [`compound`], [`compact`] and [`orphan`] are the jobs;
//! - [`copy`] lists the pages to copy into a map file;
//! - [`edit`] and [`install`] put the outcome of a job in place;
//! - [`ctx`] is what is kept from one version to the next;
//! - [`schedule`] decides when to reclaim and when writers wait;
//! - [`store`] holds the guards through which pages are read.

pub mod collections;
pub mod compact;
pub mod compound;
pub mod copy;
pub mod ctx;
pub mod edit;
pub mod files;
pub mod install;
pub mod job_builder;
pub mod options;
pub mod orphan;
pub mod progress;
pub mod rewrite;
pub mod schedule;
pub mod stats;
pub mod store;
pub mod strategy;
