//! Disk-usage analysis: ranking of scanned entries by size, staleness
//! classification, and the decisions that guard deletion.

pub mod command;
pub mod confirm;
pub mod entry;
pub mod rank;
pub mod remover;
pub mod report;
pub mod roots;
pub mod selection;
pub mod selector;
pub mod sizes;
pub mod stale;
