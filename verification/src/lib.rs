//! Disk-space bookkeeping for a game drive: the registry of install roots,
//! the decision logic for removing one orphaned installation directory, and
//! the text of the usage report.

pub mod args;
pub mod entry;
pub mod messages;
pub mod model;
pub mod registry;
pub mod scan;
pub mod text;
pub mod usage;
