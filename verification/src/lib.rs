//! Volume identity reconciliation for removable storage: joins the volumes that
//! a bus topology reports with the mounted filesystems, and gives every mounted
//! volume a stable identifier that is never the nil UUID.

pub mod index;
pub mod mounts;
pub mod reconcile;
pub mod report;
pub mod resolver;
pub mod store;
pub mod text;
pub mod topology;
pub mod uuid_text;
