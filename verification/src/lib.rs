//! Catalog of storages and backups kept across several devices.
//!
//! * [`devices::Device`] is one participating machine.
//! * [`storages::Storage`] is a catalogued location of data: a partition of a
//!   physical drive, an online storage, or a sub-directory of another storage.
//! * [`storages::local_info::LocalInfo`] makes a storage reachable on one device.
//! * [`backups::Backup`] is a named backup job with its history.
//! * [`util::min_parent_storage`] finds the storage that most closely encloses a path.
pub mod text;
pub mod name_map;
pub mod error;
pub mod paths;
pub mod devices;
pub mod storages;
pub mod util;
pub mod backups;
pub mod cmd_storage;
pub mod cmd_backup;
pub mod cmd_check;
pub mod cmd_status;
pub mod display;
