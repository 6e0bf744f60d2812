//! The mounted volume: its geometry, its allocation table and its cluster
//! chains, read through the sector cache.

use crate::error::{ErrorKind, IoError};
use crate::mbr::{
    first_fat32_from, mbr_fault, mbr_read, no_fat32_error, partition_table_of,
    short_mbr_error, MasterBootRecord,
};
use crate::traits::BlockDevice;
use crate::util::{le_u16, le_u32, read_u32, write_bytes};
use crate::vfat::cache::{CachedDevice, Partition};
use crate::vfat::cluster::{mask_cluster, Cluster};
use crate::vfat::dir::Dir;
use crate::vfat::ebpb::{ebpb_read, BiosParameterBlock};
use crate::vfat::entry::Entry;
use crate::vfat::error::Error;
use crate::vfat::fat::{FatEntry, Status};
use crate::vfat::model::{
    chain_read, chain_resumes, cluster_append, cluster_read, fat_slot, lemma_chain_step,
    lemma_cluster_append_len, lemma_sectors_bytes_grow, lemma_sectors_bytes_missing, prepend,
    sectors_bytes, Geometry, Outcome,
};
use crate::vfat::names::name_matches;
use crate::vfat::path::{lemma_open_step, open_path, open_resumes, Component};
use vstd::prelude::*;

verus! {

/// The error for a volume whose sectors are smaller than 128 bytes or
/// larger than 4096.
pub open spec fn sector_size_unsupported_error() -> IoError {
    IoError { kind: ErrorKind::Other, message: "unsupported sector size" }
}

/// The geometry of the volume whose partition starts at sector `start` and
/// whose parameter block is `ebpb`: the allocation tables follow the
/// reserved sectors, and the data region follows the tables.
pub open spec fn geometry_of(start: u32, ebpb: BiosParameterBlock) -> Geometry {
    Geometry {
        bytes_per_sector: ebpb.bytes_per_sector,
        sectors_per_cluster: ebpb.sectors_per_cluster,
        sectors_per_fat: ebpb.sectors_per_fat,
        fat_start_sector: (start + ebpb.sectors_reserved) as u64,
        data_start_sector: (start + ebpb.sectors_reserved + ebpb.fats_number
            * ebpb.sectors_per_fat) as u64,
    }
}

/// The parameter block that the 512 bytes `s` store, as far as the geometry
/// of the volume rests on it: the geometry of the volume whose partition
/// starts at sector `start`.
pub open spec fn geometry_at(start: u32, s: Seq<u8>) -> Geometry {
    Geometry {
        bytes_per_sector: le_u16(s, 11),
        sectors_per_cluster: s[13],
        sectors_per_fat: le_u32(s, 36),
        fat_start_sector: (start + le_u16(s, 14)) as u64,
        data_start_sector: (start + le_u16(s, 14) + s[16] * le_u32(s, 36)) as u64,
    }
}

/// The error that mounting ends in, if it ends in one, where the device
/// answered `mbr_answer` and left `sector0` in the buffer when it was asked
/// for the master boot record, and answered `ebpb_answer` and left `boot`
/// when it was asked for the first sector of the partition. The steps fail
/// in this order: the master boot record cannot be read or is not sound; it
/// names no FAT32 partition; the parameter block cannot be read or does not
/// end in its signature; the sector size is out of range.
pub open spec fn mount_error(
    mbr_answer: Result<usize, IoError>,
    sector0: Seq<u8>,
    ebpb_answer: Result<usize, IoError>,
    boot: Seq<u8>,
) -> Option<Error> {
    match mbr_answer {
        Err(x) => Some(Error::Mbr(crate::mbr::Error::Io(x))),
        Ok(n) => if n != 512 {
            Some(Error::Mbr(crate::mbr::Error::Io(short_mbr_error())))
        } else {
            match mbr_fault(sector0) {
                Some(fault) => Some(Error::Mbr(fault)),
                None => match first_fat32_from(partition_table_of(sector0), 0) {
                    None => Some(Error::Io(no_fat32_error())),
                    Some(_) => match ebpb_answer {
                        Err(x) => Some(Error::Io(x)),
                        Ok(_) => if !(boot[510] == 0x55 && boot[511] == 0xAA) {
                            Some(Error::BadSignature)
                        } else if !(128 <= le_u16(boot, 11) <= 4096) {
                            Some(Error::Io(sector_size_unsupported_error()))
                        } else {
                            None
                        },
                    },
                },
            }
        },
    }
}

/// The first sector of the first FAT32 partition that the master boot
/// record in `sector0` names.
pub open spec fn mount_start(sector0: Seq<u8>) -> u32 {
    let table = partition_table_of(sector0);
    table[first_fat32_from(table, 0).unwrap()].relative_sector
}

/// Mounting comes to `r`, where the device gave the answers and the bytes
/// that `mount_error` speaks of: either the error that it names, or the
/// volume that the parameter block describes, with no sector read yet.
pub open spec fn mounted<D: BlockDevice>(
    mbr_answer: Result<usize, IoError>,
    sector0: Seq<u8>,
    ebpb_answer: Result<usize, IoError>,
    boot: Seq<u8>,
    r: Result<VFat<D>, Error>,
) -> bool {
    match r {
        Err(e) => mount_error(mbr_answer, sector0, ebpb_answer, boot) == Some(e),
        Ok(vfat) => {
            &&& mount_error(mbr_answer, sector0, ebpb_answer, boot) is None
            &&& vfat.wf()
            &&& vfat.geometry() == geometry_at(mount_start(sector0), boot)
            &&& vfat.root_dir_cluster.0 == mask_cluster(le_u32(boot, 44))
            &&& vfat.disk() == Map::<u64, Seq<u8>>::empty()
            &&& vfat.device.partition == (Partition {
                start: mount_start(sector0) as u64,
                sector_size: le_u16(boot, 11) as u64,
            })
        },
    }
}

/// A mounted FAT32 volume.
pub struct VFat<D: BlockDevice> {
    pub device: CachedDevice<D>,
    pub bytes_per_sector: u16,
    pub sectors_per_cluster: u8,
    pub sectors_per_fat: u32,
    pub fat_start_sector: u64,
    pub data_start_sector: u64,
    pub root_dir_cluster: Cluster,
}

impl<D: BlockDevice> VFat<D> {
    /// The geometry of the volume.
    pub open spec fn geometry(&self) -> Geometry {
        Geometry {
            bytes_per_sector: self.bytes_per_sector,
            sectors_per_cluster: self.sectors_per_cluster,
            sectors_per_fat: self.sectors_per_fat,
            fat_start_sector: self.fat_start_sector,
            data_start_sector: self.data_start_sector,
        }
    }

    /// The sectors of the device that the volume knows so far.
    pub open spec fn disk(&self) -> Map<u64, Seq<u8>> {
        self.device@
    }

    /// The geometry is sound and the cache holds sectors of its size.
    pub open spec fn wf(&self) -> bool {
        &&& self.geometry().wf()
        &&& self.device.wf()
        &&& self.device.partition.sector_size == self.bytes_per_sector
    }

    /// Between two states of one volume: nothing but the set of known
    /// sectors has changed, and that set has only grown.
    pub open spec fn grown_from(&self, before: &VFat<D>) -> bool {
        &&& self.wf()
        &&& self.geometry() == before.geometry()
        &&& self.root_dir_cluster == before.root_dir_cluster
        &&& self.device.partition == before.device.partition
        &&& before.disk().submap_of(self.disk())
    }

    /// The volume on `device` whose partition starts at sector `start` and
    /// whose parameter block is `ebpb`, with no sector read yet. A sector
    /// size outside the range from 128 to 4096 bytes is refused.
    pub fn assemble(device: D, start: u32, ebpb: &BiosParameterBlock) -> (r: Result<VFat<D>, Error>)
        ensures
            match r {
                Ok(vfat) => {
                    &&& 128 <= ebpb.bytes_per_sector <= 4096
                    &&& vfat.wf()
                    &&& vfat.geometry() == geometry_of(start, *ebpb)
                    &&& vfat.root_dir_cluster.0 == mask_cluster(ebpb.root_dir_cluster)
                    &&& vfat.disk() == Map::<u64, Seq<u8>>::empty()
                    &&& vfat.device.device == device
                    &&& vfat.device.partition == (Partition {
                        start: start as u64,
                        sector_size: ebpb.bytes_per_sector as u64,
                    })
                },
                Err(e) => {
                    &&& !(128 <= ebpb.bytes_per_sector <= 4096)
                    &&& e == Error::Io(sector_size_unsupported_error())
                },
            },
    {
        if ebpb.bytes_per_sector < 128 || ebpb.bytes_per_sector > 4096 {
            return Err(Error::Io(IoError::new(ErrorKind::Other, "unsupported sector size")));
        }
        let sector: u64 = start as u64;
        let fat_start_sector: u64 = sector + ebpb.sectors_reserved as u64;
        assert(ebpb.fats_number as int * ebpb.sectors_per_fat as int <= 255 * 0xFFFF_FFFF)
            by (nonlinear_arith)
            requires
                0 <= ebpb.fats_number <= 255,
                0 <= ebpb.sectors_per_fat <= 0xFFFF_FFFF,
        ;
        assert(0 <= ebpb.fats_number as int * ebpb.sectors_per_fat as int) by (nonlinear_arith);
        let data_start_sector: u64 = fat_start_sector + ebpb.fats_number as u64
            * ebpb.sectors_per_fat as u64;
        let partition = Partition { start: sector, sector_size: ebpb.bytes_per_sector as u64 };
        let cache_device = CachedDevice::new(device, partition);
        Ok(
            VFat {
                device: cache_device,
                bytes_per_sector: ebpb.bytes_per_sector,
                sectors_per_cluster: ebpb.sectors_per_cluster,
                sectors_per_fat: ebpb.sectors_per_fat,
                fat_start_sector,
                data_start_sector,
                root_dir_cluster: Cluster::from(ebpb.root_dir_cluster),
            },
        )
    }

    /// Mounts the first FAT32 partition of `device`: reads the master boot
    /// record, finds the partition, reads its parameter block and derives
    /// the geometry of the volume.
    pub fn from(device: D) -> (r: Result<VFat<D>, Error>)
        ensures
            exists|
                mbr_answer: Result<usize, IoError>,
                sector0: Seq<u8>,
                ebpb_answer: Result<usize, IoError>,
                boot: Seq<u8>,
            |
                sector0.len() == 512 && boot.len() == 512 && #[trigger] mounted(
                    mbr_answer,
                    sector0,
                    ebpb_answer,
                    boot,
                    r,
                ),
            r matches Ok(vfat) ==> vfat.wf() && vfat.disk() == Map::<u64, Seq<u8>>::empty(),
            r matches Err(e) ==> !(e is NotFound),
    {
        let mut device = device;
        let ghost unread: Result<usize, IoError> = Ok(0);
        let ghost blank = Seq::new(512, |i: int| 0u8);
        let first = MasterBootRecord::from(&mut device);
        let ghost (a0, s0) = choose|answer: Result<usize, IoError>, s: Seq<u8>|
            s.len() == 512 && #[trigger] mbr_read(answer, s, first);
        let mbr = match first {
            Ok(mbr) => mbr,
            Err(e) => {
                let r = Err(Error::Mbr(e));
                assert(mounted::<D>(a0, s0, unread, blank, r));
                return r;
            },
        };
        let start: u32 = match mbr.first_fat32() {
            Ok(partition) => partition.relative_sector,
            Err(e) => {
                let r = Err(Error::Io(e));
                assert(mounted::<D>(a0, s0, unread, blank, r));
                return r;
            },
        };
        assert(start == mount_start(s0));
        let second = BiosParameterBlock::from(&mut device, start as u64);
        let ghost (a1, s1) = choose|answer: Result<usize, IoError>, s: Seq<u8>|
            s.len() == 512 && #[trigger] ebpb_read(answer, s, second);
        let ebpb = match second {
            Ok(ebpb) => ebpb,
            Err(e) => {
                let r = Err(e);
                assert(mounted::<D>(a0, s0, a1, s1, r));
                return r;
            },
        };
        let r = VFat::assemble(device, start, &ebpb);
        assert(geometry_of(start, ebpb) == geometry_at(start, s1));
        assert(mounted(a0, s0, a1, s1, r));
        r
    }

    /// The slot of `cluster` in the allocation table.
    pub fn fat_entry(&mut self, cluster: Cluster) -> (r: Result<FatEntry, IoError>)
        requires
            old(self).wf(),
        ensures
            final(self).grown_from(old(self)),
            fat_slot(old(self).disk(), old(self).geometry(), cluster) is Done ==> r is Ok
                && final(self).disk() == old(self).disk(),
            match r {
                Ok(entry) => fat_slot(final(self).disk(), final(self).geometry(), cluster)
                    == Outcome::Done(entry.0),
                Err(_) => {
                    &&& final(self).disk() == old(self).disk()
                    &&& fat_slot(final(self).disk(), final(self).geometry(), cluster) is Missing
                },
            },
    {
        let cluster_index: u64 = cluster.fat_index() as u64;
        let fat_entries_per_sector: u64 = self.bytes_per_sector as u64 / 4;
        let sector_of_fat_entry: u64 = cluster_index / fat_entries_per_sector;
        let fat_entry_index_in_sector: u64 = cluster_index % fat_entries_per_sector;
        let at: usize = (fat_entry_index_in_sector * 4) as usize;
        assert(at + 4 <= self.bytes_per_sector) by {
            assert(fat_entry_index_in_sector + 1 <= fat_entries_per_sector);
        }
        let sector = self.device.get(self.fat_start_sector + sector_of_fat_entry)?;
        Ok(FatEntry(read_u32(sector, at)))
    }

    /// Reads cluster `cluster` into the front of `buf`, from the cluster's
    /// sector `offset` on: whole sectors in ascending order, until the
    /// cluster ends or `buf` has no room for another sector. Says how many
    /// bytes were written. The rest of `buf` is left as it was.
    pub fn read_cluster(&mut self, cluster: Cluster, offset: usize, buf: &mut [u8]) -> (r: Result<
        usize,
        IoError,
    >)
        requires
            old(self).wf(),
        ensures
            final(self).grown_from(old(self)),
            final(buf)@.len() == old(buf)@.len(),
            !(cluster_read(
                old(self).disk(),
                old(self).geometry(),
                cluster,
                offset as int,
                old(buf)@.len() as int,
            ) is Missing) ==> final(self).disk() == old(self).disk(),
            match r {
                Ok(n) => {
                    &&& n <= old(buf)@.len()
                    &&& cluster_read(
                        final(self).disk(),
                        final(self).geometry(),
                        cluster,
                        offset as int,
                        old(buf)@.len() as int,
                    ) == Outcome::Done(final(buf)@.subrange(0, n as int))
                    &&& final(buf)@.subrange(n as int, old(buf)@.len() as int) == old(buf)@.subrange(
                        n as int,
                        old(buf)@.len() as int,
                    )
                },
                Err(e) => match cluster_read(
                    final(self).disk(),
                    final(self).geometry(),
                    cluster,
                    offset as int,
                    old(buf)@.len() as int,
                ) {
                    Outcome::Failed(x) => e == x,
                    Outcome::Missing => true,
                    Outcome::Done(_) => false,
                },
            },
    {
        let index: u32 = match cluster.data_index() {
            Ok(index) => index,
            Err(e) => {
                return Err(e);
            },
        };
        let ghost g = self.geometry();
        let ghost room = buf@.len() as int;
        let ghost disk0 = self.disk();
        let per_cluster: usize = self.sectors_per_cluster as usize;
        let size: usize = self.bytes_per_sector as usize;
        if offset >= per_cluster {
            assert(buf@.subrange(0, 0) =~= Seq::<u8>::empty());
            return Ok(0);
        }
        let left: usize = per_cluster - offset;
        let fit: usize = buf.len() / size;
        let count: usize = if fit < left {
            fit
        } else {
            left
        };
        assert(count == g.sectors_read(offset as int, room));
        assert(count * size <= room) by (nonlinear_arith)
            requires
                count <= fit,
                fit == room / (size as int),
                size > 0,
                room >= 0,
        ;
        assert(index as int * per_cluster as int <= 0xFFFF_FFFF * 255) by (nonlinear_arith)
            requires
                index <= 0xFFFF_FFFF,
                per_cluster <= 255,
        ;
        let first: u64 = self.data_start_sector + index as u64 * per_cluster as u64 + offset as u64;
        assert(first == g.first_sector(cluster) + offset);
        let mut read: usize = 0;
        let mut i: usize = 0;
        assert(buf@.subrange(0, 0) =~= Seq::<u8>::empty());
        while i < count
            invariant
                0 <= i <= count,
                self.grown_from(old(self)),
                g == self.geometry(),
                size == g.bytes_per_sector,
                first <= 0xFFFF_FFFF_FFFF + 0xFFFF_FFFF * 255 + 255,
                buf@.len() == room,
                room == old(buf)@.len(),
                count * size <= room,
                count <= 255,
                cluster.0 >= 2,
                first == g.first_sector(cluster) + offset,
                count == g.sectors_read(offset as int, room),
                read == i * size,
                read <= room,
                sectors_bytes(self.disk(), first as int, i as int) == Outcome::Done(
                    buf@.subrange(0, read as int),
                ),
                buf@.subrange(read as int, room) == old(buf)@.subrange(read as int, room),
                sectors_bytes(disk0, first as int, count as int) is Done ==> self.disk() == disk0,
                disk0 == old(self).disk(),
            decreases count - i,
        {
            let ghost before = self.disk();
            let ghost filled = buf@;
            assert((i + 1) * size <= count * size) by (nonlinear_arith)
                requires
                    i + 1 <= count,
                    size >= 0,
            ;
            assert((i + 1) * size == i * size + size) by (nonlinear_arith);
            assert(i * size >= 0) by (nonlinear_arith)
                requires
                    i >= 0,
                    size >= 0,
            ;
            proof {
                if sectors_bytes(disk0, first as int, count as int) is Done {
                    if !disk0.contains_key((first + i) as u64) {
                        lemma_sectors_bytes_missing(disk0, first as int, count as int, i as int);
                    }
                }
            }
            match self.device.get(first + i as u64) {
                Ok(sector) => {
                    write_bytes(buf, read, sector);
                },
                Err(e) => {
                    proof {
                        lemma_sectors_bytes_missing(
                            self.disk(),
                            first as int,
                            count as int,
                            i as int,
                        );
                    }
                    return Err(e);
                },
            }
            proof {
                vstd::map_lib::lemma_submap_of_trans(old(self).disk(), before, self.disk());
                lemma_sectors_bytes_grow(before, self.disk(), first as int, i as int);
                let sector = self.disk()[(first + i) as u64];
                assert(buf@.subrange(0, read + size) =~= filled.subrange(0, read as int) + sector);
                assert(buf@.subrange(read + size, room) =~= old(buf)@.subrange(read + size, room)) by {
                    assert(forall|j: int|
                        read + size <= j < room ==> buf@[j] == filled.subrange(read as int, room)[j
                            - read]);
                }
            }
            read += size;
            i += 1;
        }
        Ok(read)
    }

    /// Adds the whole of cluster `cluster` to the end of `buf`: as many zero
    /// bytes as a cluster has, and then the cluster read over them.
    fn append_cluster(&mut self, cluster: Cluster, buf: &mut Vec<u8>) -> (r: Result<usize, IoError>)
        requires
            old(self).wf(),
        ensures
            final(self).grown_from(old(self)),
            old(buf)@.len() <= final(buf)@.len(),
            final(buf)@.subrange(0, old(buf)@.len() as int) == old(buf)@,
            !(cluster_append(
                old(self).disk(),
                old(self).geometry(),
                cluster,
                usize::MAX - old(buf)@.len(),
            ) is Missing) ==> final(self).disk() == old(self).disk(),
            match r {
                Ok(n) => {
                    &&& n == old(self).geometry().cluster_bytes()
                    &&& final(buf)@.len() == old(buf)@.len() + n
                    &&& cluster_append(
                        final(self).disk(),
                        final(self).geometry(),
                        cluster,
                        usize::MAX - old(buf)@.len(),
                    ) == Outcome::Done(
                        final(buf)@.subrange(old(buf)@.len() as int, final(buf)@.len() as int),
                    )
                },
                Err(e) => match cluster_append(
                    final(self).disk(),
                    final(self).geometry(),
                    cluster,
                    usize::MAX - old(buf)@.len(),
                ) {
                    Outcome::Failed(x) => e == x,
                    Outcome::Missing => true,
                    Outcome::Done(_) => false,
                },
            },
    {
        let ghost g = self.geometry();
        let ghost disk0 = self.disk();
        assert(0 <= self.bytes_per_sector as int * self.sectors_per_cluster as int <= 4096 * 255)
            by (nonlinear_arith)
            requires
                0 <= self.bytes_per_sector <= 4096,
                0 <= self.sectors_per_cluster <= 255,
        ;
        let size: usize = self.bytes_per_sector as usize * self.sectors_per_cluster as usize;
        let old_len: usize = buf.len();
        if size > usize::MAX - old_len {
            return Err(IoError::new(ErrorKind::Other, "cluster chain too large for memory"));
        }
        buf.resize(old_len + size, 0);
        assert(buf@.subrange(0, old_len as int) =~= old(buf)@);
        let ghost grown = buf@;
        let slice = buf.as_mut_slice();
        let (head, tail) = slice.split_at_mut(old_len);
        let r = self.read_cluster(cluster, 0, tail);
        proof {
            lemma_cluster_append_len(self.disk(), g, cluster, usize::MAX - old_len);
            assert(buf@.subrange(0, old_len as int) =~= old(buf)@);
            assert(tail@.len() == size);
            if r is Ok {
                assert(buf@.subrange(old_len as int, buf@.len() as int) =~= tail@.subrange(
                    0,
                    size as int,
                ));
            }
        }
        r
    }

    /// Reads the chain of clusters that starts at `start` and adds its bytes
    /// to the end of `buf`, cluster by cluster in the order of the chain,
    /// each cluster whole. Says how many bytes were added. A chain of more
    /// clusters than the allocation table has slots is refused.
    pub fn read_chain(&mut self, start: Cluster, buf: &mut Vec<u8>) -> (r: Result<usize, IoError>)
        requires
            old(self).wf(),
        ensures
            final(self).grown_from(old(self)),
            old(buf)@.len() <= final(buf)@.len(),
            final(buf)@.subrange(0, old(buf)@.len() as int) == old(buf)@,
            !(chain_read(
                old(self).disk(),
                old(self).geometry(),
                start,
                old(self).geometry().max_chain(),
                usize::MAX - old(buf)@.len(),
            ) is Missing) ==> final(self).disk() == old(self).disk(),
            match r {
                Ok(n) => {
                    &&& final(buf)@.len() == old(buf)@.len() + n
                    &&& chain_read(
                        final(self).disk(),
                        final(self).geometry(),
                        start,
                        final(self).geometry().max_chain(),
                        usize::MAX - old(buf)@.len(),
                    ) == Outcome::Done(
                        final(buf)@.subrange(old(buf)@.len() as int, final(buf)@.len() as int),
                    )
                },
                Err(e) => match chain_read(
                    final(self).disk(),
                    final(self).geometry(),
                    start,
                    final(self).geometry().max_chain(),
                    usize::MAX - old(buf)@.len(),
                ) {
                    Outcome::Failed(x) => e == x,
                    Outcome::Missing => true,
                    Outcome::Done(_) => false,
                },
            },
    {
        let ghost g = self.geometry();
        let ghost disk0 = self.disk();
        let ghost room = usize::MAX - buf@.len();
        let ghost base = buf@.len() as int;
        let mut cluster = start;
        let mut read: usize = 0;
        let per_sector: u64 = self.bytes_per_sector as u64 / 4;
        assert(0 <= self.sectors_per_fat as int * per_sector as int <= 0xFFFF_FFFF * 1024)
            by (nonlinear_arith)
            requires
                0 <= self.sectors_per_fat <= 0xFFFF_FFFF,
                0 <= per_sector <= 1024,
        ;
        let mut fuel: u64 = self.sectors_per_fat as u64 * per_sector;
        assert(fuel == g.max_chain());
        assert(buf@.subrange(base, base) =~= Seq::<u8>::empty());
        assert(buf@.subrange(0, base) =~= old(buf)@);
        loop
            invariant
                self.grown_from(old(self)),
                g == self.geometry(),
                disk0 == old(self).disk(),
                room == usize::MAX - old(buf)@.len(),
                base == old(buf)@.len(),
                buf@.len() == base + read,
                buf@.subrange(0, base) == old(buf)@,
                chain_resumes(
                    self.disk(),
                    g,
                    start,
                    room,
                    buf@.subrange(base, base + read),
                    cluster,
                    fuel as nat,
                ),
                !(chain_read(disk0, g, start, g.max_chain(), room) is Missing) ==> self.disk()
                    == disk0,
            decreases fuel,
        {
            let ghost known = self.disk();
            let ghost appended = buf@.subrange(base, base + read);
            assert(known.submap_of(known));
            assert(known.submap_of(disk0) ==> chain_read(disk0, g, start, g.max_chain(), room)
                == prepend(appended, chain_read(disk0, g, cluster, fuel as nat, room - read)));
            if fuel == 0 {
                return Err(IoError::new(ErrorKind::Other, "cluster chain does not end"));
            }
            let entry = match self.fat_entry(cluster) {
                Ok(entry) => entry,
                Err(e) => {
                    return Err(e);
                },
            };
            let ghost known1 = self.disk();
            proof {
                assert(known1.submap_of(known1));
                vstd::map_lib::lemma_submap_of_trans(disk0, known, known1);
            }
            match entry.status() {
                Status::Data(next) => {
                    let ghost filled = buf@;
                    match self.append_cluster(cluster, buf) {
                        Ok(n) => {
                            proof {
                                let grown = self.disk();
                                let bytes = buf@.subrange(base + read, base + read + n);
                                vstd::map_lib::lemma_submap_of_trans(known, known1, grown);
                                vstd::map_lib::lemma_submap_of_trans(disk0, known1, grown);
                                assert(grown.contains_key(g.fat_sector(cluster)));
                                lemma_chain_step(
                                    known,
                                    grown,
                                    g,
                                    start,
                                    room,
                                    appended,
                                    cluster,
                                    fuel as nat,
                                    bytes,
                                    next,
                                );
                                assert(buf@.subrange(base, base + read + n) =~= appended + bytes);
                                assert(buf@.subrange(0, base) =~= filled.subrange(0, base));
                                assert(appended =~= filled.subrange(base, base + read));
                            }
                            read += n;
                            cluster = next;
                            fuel -= 1;
                        },
                        Err(e) => {
                            proof {
                                let grown = self.disk();
                                vstd::map_lib::lemma_submap_of_trans(known, known1, grown);
                                vstd::map_lib::lemma_submap_of_trans(disk0, known1, grown);
                                assert(grown.submap_of(grown));
                                assert(grown.contains_key(g.fat_sector(cluster)));
                                assert(buf@.subrange(0, base) =~= filled.subrange(0, base));
                            }
                            return Err(e);
                        },
                    }
                },
                Status::Eoc(_) => {
                    let ghost filled = buf@;
                    match self.append_cluster(cluster, buf) {
                        Ok(n) => {
                            proof {
                                let grown = self.disk();
                                let bytes = buf@.subrange(base + read, base + read + n);
                                vstd::map_lib::lemma_submap_of_trans(known, known1, grown);
                                vstd::map_lib::lemma_submap_of_trans(disk0, known1, grown);
                                assert(grown.submap_of(grown));
                                assert(grown.contains_key(g.fat_sector(cluster)));
                                assert(buf@.subrange(base, base + read + n) =~= appended + bytes);
                                assert(buf@.subrange(0, base) =~= filled.subrange(0, base));
                                assert(appended =~= filled.subrange(base, base + read));
                            }
                            return Ok(read + n);
                        },
                        Err(e) => {
                            proof {
                                let grown = self.disk();
                                vstd::map_lib::lemma_submap_of_trans(known, known1, grown);
                                vstd::map_lib::lemma_submap_of_trans(disk0, known1, grown);
                                assert(grown.submap_of(grown));
                                assert(grown.contains_key(g.fat_sector(cluster)));
                                assert(buf@.subrange(0, base) =~= filled.subrange(0, base));
                            }
                            return Err(e);
                        },
                    }
                },
                Status::Free => {
                    return Err(IoError::new(ErrorKind::Other, "can't read from free sector"));
                },
                Status::Bad => {
                    return Err(IoError::new(ErrorKind::Other, "can't read from bad sector"));
                },
                Status::Reserved => {
                    return Err(IoError::new(ErrorKind::Other, "can't read from reserved sector"));
                },
            }
        }
    }

    /// Opens the entry that `path` leads to from the root directory. Each
    /// name is looked up in the directory that the path has reached, and the
    /// root component goes back to the root directory. Components for the
    /// current directory, the directory above and a prefix are not
    /// supported.
    ///
    /// Fails with `NotFound` where a name has no entry or the path goes on
    /// below a file, and with `InvalidInput` where a name is not UTF-8.
    pub fn open(&mut self, path: &[Component]) -> (r: Result<Entry, IoError>)
        requires
            old(self).wf(),
            forall|i: int| 0 <= i < path@.len() ==> (#[trigger] path@[i]).supported(),
        ensures
            final(self).grown_from(old(self)),
            !(open_path(
                old(self).disk(),
                old(self).geometry(),
                old(self).root_dir_cluster,
                path@,
            ) is Missing) ==> final(self).disk() == old(self).disk(),
            match r {
                Ok(e) => {
                    &&& e.wf()
                    &&& open_path(
                        final(self).disk(),
                        final(self).geometry(),
                        final(self).root_dir_cluster,
                        path@,
                    ) == Outcome::Done(e@)
                },
                Err(e) => match open_path(
                    final(self).disk(),
                    final(self).geometry(),
                    final(self).root_dir_cluster,
                    path@,
                ) {
                    Outcome::Failed(x) => e == x,
                    Outcome::Missing => true,
                    Outcome::Done(_) => false,
                },
            },
            r matches Ok(e) ==> path@.len() > 0 ==> (path@.last() matches Component::Normal(name)
                ==> name_matches(e@.name(), name@)),
    {
        let ghost g = self.geometry();
        let ghost root = self.root_dir_cluster;
        let ghost disk0 = self.disk();
        let mut cur = Entry::Dir(Dir::root(self));
        let mut i: usize = 0;
        while i < path.len()
            invariant
                0 <= i <= path@.len(),
                cur.wf(),
                self.grown_from(old(self)),
                g == self.geometry(),
                root == self.root_dir_cluster,
                disk0 == old(self).disk(),
                forall|i: int| 0 <= i < path@.len() ==> (#[trigger] path@[i]).supported(),
                open_resumes(self.disk(), g, root, path@, cur@, i as int),
                !(open_path(disk0, g, root, path@) is Missing) ==> self.disk() == disk0,
                i > 0 ==> (path@[i - 1] matches Component::Normal(name) ==> name_matches(
                    cur@.name(),
                    name@,
                )),
            decreases path@.len() - i,
        {
            let ghost known = self.disk();
            let ghost before = cur@;
            assert(known.submap_of(known));
            assert(path@[i as int].supported());
            match &path[i] {
                Component::Normal(name) => {
                    let found = match cur.as_dir() {
                        Some(dir) => dir.find(self, name.as_slice()),
                        None => Err(IoError::new(ErrorKind::NotFound, "File not found")),
                    };
                    proof {
                        let grown = self.disk();
                        vstd::map_lib::lemma_submap_of_trans(disk0, known, grown);
                        assert(grown.submap_of(grown));
                    }
                    match found {
                        Ok(entry) => {
                            proof {
                                lemma_open_step(
                                    known,
                                    self.disk(),
                                    g,
                                    root,
                                    path@,
                                    before,
                                    i as int,
                                    entry@,
                                );
                            }
                            cur = entry;
                        },
                        Err(e) => {
                            return Err(e);
                        },
                    }
                },
                Component::RootDir => {
                    cur = Entry::Dir(Dir::root(self));
                },
                _ => {},
            }
            i += 1;
        }
        assert(self.disk().submap_of(self.disk()));
        Ok(cur)
    }
}

} // verus!
