//! The sector cache between the device and the driver.

use crate::error::{ErrorKind, IoError};
use crate::traits::BlockDevice;
use std::collections::HashMap;
use vstd::prelude::*;

verus! {

broadcast use vstd::std_specs::hash::group_hash_axioms;

/// Where the volume lies on the device and how large its sectors are.
#[derive(Debug, Clone, Copy, PartialEq, Eq, Structural)]
pub struct Partition {
    /// The index of the first sector of the volume.
    pub start: u64,
    /// The number of bytes in a sector.
    pub sector_size: u64,
}

/// A device together with the sectors that were read from it so far. A
/// sector is read from the device once and kept for as long as the cache
/// lives; a read that failed leaves nothing behind.
pub struct CachedDevice<D: BlockDevice> {
    pub device: D,
    pub cache: HashMap<u64, Vec<u8>>,
    pub partition: Partition,
}

/// The error for a sector of which the device gave too few or too many bytes.
pub open spec fn short_read_error() -> IoError {
    IoError { kind: ErrorKind::UnexpectedEof, message: "sector read came short" }
}

/// The error for a sector size that this machine cannot address.
pub open spec fn sector_size_error() -> IoError {
    IoError { kind: ErrorKind::InvalidInput, message: "sector size out of range" }
}

/// What becomes of the answer `r` that the device gave when it was asked for
/// one sector of `size` bytes: its error goes through unchanged, a count
/// other than `size` is a short read, and the right count is accepted.
pub open spec fn sector_answer(r: Result<usize, IoError>, size: usize) -> Result<(), IoError> {
    match r {
        Err(e) => Err(e),
        Ok(n) => if n == size {
            Ok(())
        } else {
            Err(short_read_error())
        },
    }
}

/// Judges the answer that the device gave to a request for one sector.
pub fn check_sector_answer(r: Result<usize, IoError>, size: usize) -> (out: Result<(), IoError>)
    ensures
        out == sector_answer(r, size),
{
    match r {
        Err(e) => Err(e),
        Ok(n) => if n == size {
            Ok(())
        } else {
            Err(IoError::new(ErrorKind::UnexpectedEof, "sector read came short"))
        },
    }
}

impl<D: BlockDevice> View for CachedDevice<D> {
    type V = Map<u64, Seq<u8>>;

    /// The sectors that the cache holds, each by its index.
    open spec fn view(&self) -> Map<u64, Seq<u8>> {
        Map::new(|n: u64| self.cache@.contains_key(n), |n: u64| self.cache@[n]@)
    }
}

impl<D: BlockDevice> CachedDevice<D> {
    /// Every sector that the cache holds is a whole sector.
    pub open spec fn wf(&self) -> bool {
        forall|n: u64| #[trigger]
            self.cache@.contains_key(n) ==> self.cache@[n]@.len() == self.partition.sector_size
    }

    /// A cache over `device` that holds no sector yet.
    pub fn new(device: D, partition: Partition) -> (c: CachedDevice<D>)
        ensures
            c.wf(),
            c@ == Map::<u64, Seq<u8>>::empty(),
            c.partition == partition,
            c.device == device,
    {
        let c = CachedDevice { device, cache: HashMap::new(), partition };
        assert(c@ =~= Map::<u64, Seq<u8>>::empty());
        c
    }

    /// The bytes of sector `sector`, read from the device if the cache does
    /// not hold them yet. A failure of the device is handed on unchanged, a
    /// sector of which the device gave too few bytes is an unexpected end,
    /// and neither leaves anything in the cache.
    pub fn get(&mut self, sector: u64) -> (r: Result<&[u8], IoError>)
        requires
            old(self).wf(),
        ensures
            final(self).wf(),
            final(self).partition == old(self).partition,
            old(self)@.submap_of(final(self)@),
            final(self)@.dom().subset_of(old(self)@.dom().insert(sector)),
            old(self)@.contains_key(sector) ==> r is Ok && final(self)@ == old(self)@,
            match r {
                Ok(bytes) => final(self)@.contains_key(sector) && bytes@ == final(self)@[sector],
                Err(e) => {
                    &&& final(self)@ == old(self)@
                    &&& old(self).partition.sector_size > usize::MAX ==> e == sector_size_error()
                },
            },
    {
        if !self.cache.contains_key(&sector) {
            if self.partition.sector_size > usize::MAX as u64 {
                assert(self@ =~= old(self)@);
                return Err(IoError::new(ErrorKind::InvalidInput, "sector size out of range"));
            }
            let size: usize = self.partition.sector_size as usize;
            let mut buf: Vec<u8> = vec![0u8; size];
            let answer = self.device.read_sector(sector, buf.as_mut_slice());
            match check_sector_answer(answer, size) {
                Err(e) => {
                    assert(self@ =~= old(self)@);
                    return Err(e);
                },
                Ok(()) => {
                    if buf.len() != size {
                        assert(self@ =~= old(self)@);
                        return Err(IoError::new(ErrorKind::UnexpectedEof, "sector read came short"));
                    }
                    self.cache.insert(sector, buf);
                },
            }
        }
        assert(self@.dom() =~= old(self)@.dom().insert(sector));
        assert(old(self)@.contains_key(sector) ==> self@ =~= old(self)@);
        Ok(self.cache.get(&sector).unwrap().as_slice())
    }

    /// The bytes of sector `sector` for changing in place, read from the
    /// device if the cache does not hold them yet. What is written through
    /// the view stays in the cache; no other sector changes.
    pub fn get_mut(&mut self, sector: u64) -> (r: Result<&mut [u8], IoError>)
        requires
            old(self).wf(),
        ensures
            final(self).partition == old(self).partition,
            final(self)@.remove(sector) =~= old(self)@.remove(sector),
            match r {
                Ok(bytes) => {
                    &&& bytes@.len() == old(self).partition.sector_size
                    &&& old(self)@.contains_key(sector) ==> bytes@ == old(self)@[sector]
                    &&& final(self)@.contains_key(sector)
                    &&& final(self)@[sector] == final(bytes)@
                    &&& final(bytes)@.len() == bytes@.len() ==> final(self).wf()
                },
                Err(_) => !old(self)@.contains_key(sector) && final(self)@ == old(self)@
                    && final(self).wf(),
            },
    {
        match self.get(sector) {
            Ok(_) => {},
            Err(e) => {
                return Err(e);
            },
        }
        let ghost loaded = self@;
        let ghost loaded_cache = self.cache@;
        let v: &mut Vec<u8> = self.cache.entry(sector).or_insert(Vec::new());
        proof {
            let after = after_borrow(self.cache)@;
            assert(after == loaded_cache.insert(sector, *final(v)));
            assert(forall|n: u64| n != sector ==> (after.contains_key(n) <==> loaded.contains_key(n)));
        }
        Ok(v.as_mut_slice())
    }
}

} // verus!
