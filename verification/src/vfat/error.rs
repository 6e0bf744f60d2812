//! Why a volume could not be mounted.

use crate::error::IoError;
use vstd::prelude::*;

verus! {

/// Why a volume could not be mounted.
#[derive(Debug, Clone, Copy, PartialEq, Eq)]
pub enum Error {
    /// The device failed, or the volume cannot be read on this machine.
    Io(IoError),
    /// The master boot record is not sound.
    Mbr(crate::mbr::Error),
    /// The boot sector of the partition does not end in 0x55, 0xAA.
    BadSignature,
    /// What was looked for is not there.
    NotFound,
}

} // verus!
