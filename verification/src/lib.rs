//! Accounting for repository compaction: reading the size report of a
//! repository, keeping the list of discovered repositories free of
//! duplicates, planning the compaction commands, driving a run and rendering
//! the change in size.
pub mod compact;
pub mod format;
pub mod measure;
pub mod run;
pub mod scan;
