//! The FAT32 volume: clusters, the allocation table, directories and files.

pub mod cache;
pub mod cluster;
pub mod dir;
pub mod ebpb;
pub mod entry;
pub mod error;
pub mod fat;
pub mod file;
pub mod metadata;
pub mod model;
pub mod names;
pub mod path;
pub mod vfat;

pub use cache::{CachedDevice, Partition};
pub use cluster::Cluster;
pub use dir::{
    Dir, EntryIter, VFatDirEntry, VFatLfnDirEntry, VFatRegularDirEntry, VFatUnknownDirEntry,
};
pub use ebpb::BiosParameterBlock;
pub use entry::Entry;
pub use error::Error;
pub use fat::{FatEntry, Status};
pub use file::File;
pub use metadata::{Attributes, Date, Metadata, Time, Timestamp};
pub use path::Component;
pub use vfat::VFat;
