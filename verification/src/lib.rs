//! A read-only FAT32 driver: on-disk structure decoding, cluster-chain
//! traversal through the file allocation table, and a sector cache between
//! the block device and the traversal engine.

pub mod error;
pub mod mbr;
pub mod traits;
pub mod util;
pub mod vfat;

pub use error::{ErrorKind, IoError};
pub use mbr::{Error, MasterBootRecord, PartitionEntry, CHS};
pub use traits::BlockDevice;
