//! What the driver asks of the storage below it.

use crate::error::IoError;
use vstd::prelude::*;

verus! {

/// A device that is read in sectors of one fixed size, each named by its
/// index from the start of the device.
pub trait BlockDevice {
    /// Reads sector `n` into the front of `buf` and says how many bytes were
    /// written there, or why none could be read. No contract is laid on an
    /// implementation: the driver checks the count that it is given, and
    /// takes the bytes as what the sector holds.
    fn read_sector(&mut self, n: u64, buf: &mut [u8]) -> (r: Result<usize, IoError>);
}

} // verus!
