//! The master boot record: sector 0 of the device, which holds the
//! partition table.

use crate::error::{ErrorKind, IoError};
use crate::traits::BlockDevice;
use crate::util::{le_u32, read_bytes, read_u32};
use vstd::prelude::*;

verus! {

/// A sector address in cylinders, heads and sectors.
#[derive(Copy, Clone, Debug, PartialEq, Eq, Structural)]
pub struct CHS {
    pub head: u8,
    pub sector: u8,
    pub cylinder: u8,
}

/// One of the four records of the partition table.
#[derive(Copy, Clone, Debug, PartialEq, Eq, Structural)]
pub struct PartitionEntry {
    pub boot: u8,
    pub chs_start: CHS,
    pub part_type: u8,
    pub chs_end: CHS,
    pub relative_sector: u32,
    pub total_sectors: u32,
}

/// The master boot record (MBR).
#[derive(Debug)]
pub struct MasterBootRecord {
    pub bootstrap: [u8; 436],
    pub disk_id: [u8; 10],
    pub partition_table: [PartitionEntry; 4],
    pub signature: [u8; 2],
}

/// The number of bytes in a master boot record.
pub const MBR_SIZE: usize = 512;

/// Why a master boot record could not be read.
#[derive(Debug, Clone, Copy, PartialEq, Eq)]
pub enum Error {
    /// The device failed, or gave less than a whole record.
    Io(IoError),
    /// The partition with this index, counted from 0, has a boot indicator
    /// that is neither 0x00 nor 0x80.
    UnknownBootIndicator(u8),
    /// The record does not end in 0x55, 0xAA.
    BadSignature,
}

/// The error for a device that gave less than a whole record.
pub open spec fn short_mbr_error() -> IoError {
    IoError { kind: ErrorKind::UnexpectedEof, message: "bad MBR size" }
}

/// The error for a partition table without a FAT32 partition.
pub open spec fn no_fat32_error() -> IoError {
    IoError { kind: ErrorKind::NotFound, message: "FAT32 partition not found" }
}

/// The partition record stored in `s` at `at`.
pub open spec fn partition_at(s: Seq<u8>, at: int) -> PartitionEntry {
    PartitionEntry {
        boot: s[at],
        chs_start: CHS { head: s[at + 1], sector: s[at + 2], cylinder: s[at + 3] },
        part_type: s[at + 4],
        chs_end: CHS { head: s[at + 5], sector: s[at + 6], cylinder: s[at + 7] },
        relative_sector: le_u32(s, at + 8),
        total_sectors: le_u32(s, at + 12),
    }
}

/// A boot indicator that the table may hold: not bootable, or bootable.
pub open spec fn known_boot_indicator(boot: u8) -> bool {
    boot == 0x00 || boot == 0x80
}

/// What is wrong with the 512 bytes `s` as a master boot record, if
/// anything: a bad signature, or else the first partition with an unknown
/// boot indicator.
pub open spec fn mbr_fault(s: Seq<u8>) -> Option<Error> {
    if s[510] != 0x55 || s[511] != 0xAA {
        Some(Error::BadSignature)
    } else if !known_boot_indicator(s[446]) {
        Some(Error::UnknownBootIndicator(0))
    } else if !known_boot_indicator(s[462]) {
        Some(Error::UnknownBootIndicator(1))
    } else if !known_boot_indicator(s[478]) {
        Some(Error::UnknownBootIndicator(2))
    } else if !known_boot_indicator(s[494]) {
        Some(Error::UnknownBootIndicator(3))
    } else {
        None
    }
}

/// The partition table that the 512 bytes `s` store: four records of 16
/// bytes from byte 446 on.
pub open spec fn partition_table_of(s: Seq<u8>) -> Seq<PartitionEntry> {
    seq![
        partition_at(s, 446),
        partition_at(s, 462),
        partition_at(s, 478),
        partition_at(s, 494),
    ]
}

/// Reading the master boot record comes to `r`, where the device answered
/// `answer` and left the 512 bytes `s` in the buffer: a failure of the
/// device is handed on, any count but 512 is an unexpected end, a fault of
/// the record is reported, and a sound record is decoded.
pub open spec fn mbr_read(
    answer: Result<usize, IoError>,
    s: Seq<u8>,
    r: Result<MasterBootRecord, Error>,
) -> bool {
    match r {
        Ok(mbr) => {
            &&& answer == Ok::<usize, IoError>(512)
            &&& mbr_fault(s) is None
            &&& mbr.decodes(s)
            &&& mbr.wf()
        },
        Err(e) => match answer {
            Err(x) => e == Error::Io(x),
            Ok(n) => if n != 512 {
                e == Error::Io(short_mbr_error())
            } else {
                mbr_fault(s) == Some(e)
            },
        },
    }
}

/// A partition type that stands for FAT32.
pub open spec fn is_fat32_type(part_type: u8) -> bool {
    part_type == 0x0B || part_type == 0x0C
}

/// The index of the first FAT32 partition among `table[from..]`.
pub open spec fn first_fat32_from(table: Seq<PartitionEntry>, from: int) -> Option<int>
    decreases table.len() - from,
{
    if from < 0 || from >= table.len() {
        None
    } else if is_fat32_type(table[from].part_type) {
        Some(from)
    } else {
        first_fat32_from(table, from + 1)
    }
}

impl PartitionEntry {
    /// The first sector of the partition.
    pub fn sector(&self) -> (n: u64)
        ensures
            n == self.relative_sector,
    {
        self.relative_sector as u64
    }

    /// Reads the partition record stored in `b` at `at`.
    fn read(b: &[u8], at: usize) -> (p: PartitionEntry)
        requires
            at + 16 <= b.len(),
        ensures
            p == partition_at(b@, at as int),
    {
        PartitionEntry {
            boot: b[at],
            chs_start: CHS { head: b[at + 1], sector: b[at + 2], cylinder: b[at + 3] },
            part_type: b[at + 4],
            chs_end: CHS { head: b[at + 5], sector: b[at + 6], cylinder: b[at + 7] },
            relative_sector: read_u32(b, at + 8),
            total_sectors: read_u32(b, at + 12),
        }
    }
}

impl MasterBootRecord {
    /// The fields are those that the 512 bytes `s` store.
    pub open spec fn decodes(&self, s: Seq<u8>) -> bool {
        &&& self.bootstrap@ == s.subrange(0, 436)
        &&& self.disk_id@ == s.subrange(436, 446)
        &&& self.partition_table@ == partition_table_of(s)
        &&& self.signature@ == s.subrange(510, 512)
    }

    /// The record ends in the signature and every partition has a known
    /// boot indicator.
    pub open spec fn wf(&self) -> bool {
        &&& self.signature@ == seq![0x55u8, 0xAAu8]
        &&& self.partition_table@.len() == 4
        &&& forall|i: int| 0 <= i < 4 ==> known_boot_indicator(#[trigger] self.partition_table@[i].boot)
    }

    /// Makes the master boot record from what the device answered when it
    /// was asked to read sector 0 into `buf`. A failure of the device is
    /// handed on, any count but 512 is an unexpected end, and then the
    /// signature and the four boot indicators are checked in this order.
    pub fn decode(answer: Result<usize, IoError>, buf: &[u8; 512]) -> (r: Result<
        MasterBootRecord,
        Error,
    >)
        ensures
            mbr_read(answer, buf@, r),
    {
        let mbr_size = match answer {
            Ok(size) => size,
            Err(e) => {
                return Err(Error::Io(e));
            },
        };
        if mbr_size != MBR_SIZE {
            return Err(Error::Io(IoError::new(ErrorKind::UnexpectedEof, "bad MBR size")));
        }
        if buf[510] != 0x55 || buf[511] != 0xAA {
            return Err(Error::BadSignature);
        }
        let partition_table = [
            PartitionEntry::read(buf, 446),
            PartitionEntry::read(buf, 462),
            PartitionEntry::read(buf, 478),
            PartitionEntry::read(buf, 494),
        ];
        let mut i: usize = 0;
        while i < 4
            invariant
                0 <= i <= 4,
                partition_table@ == seq![
                    partition_at(buf@, 446),
                    partition_at(buf@, 462),
                    partition_at(buf@, 478),
                    partition_at(buf@, 494),
                ],
                forall|j: int| 0 <= j < i ==> known_boot_indicator(#[trigger] partition_table@[j].boot),
                answer == Ok::<usize, IoError>(512),
                buf@[510] == 0x55,
                buf@[511] == 0xAA,
            decreases 4 - i,
        {
            assert(partition_table@[0].boot == buf@[446]);
            assert(partition_table@[1].boot == buf@[462]);
            assert(partition_table@[2].boot == buf@[478]);
            assert(partition_table@[3].boot == buf@[494]);
            if partition_table[i].boot != 0x00 && partition_table[i].boot != 0x80 {
                return Err(Error::UnknownBootIndicator(i as u8));
            }
            i += 1;
        }
        assert(partition_table@[0].boot == buf@[446]);
        assert(partition_table@[1].boot == buf@[462]);
        assert(partition_table@[2].boot == buf@[478]);
        assert(partition_table@[3].boot == buf@[494]);
        let mut bootstrap = [0u8; 436];
        let mut disk_id = [0u8; 10];
        read_bytes(&mut bootstrap, buf, 0);
        read_bytes(&mut disk_id, buf, 436);
        let signature = [buf[510], buf[511]];
        assert(signature@ =~= buf@.subrange(510, 512));
        assert(signature@ =~= seq![0x55u8, 0xAAu8]);
        Ok(MasterBootRecord { bootstrap, disk_id, partition_table, signature })
    }

    /// Reads the master boot record from sector 0 of `device`.
    ///
    /// Fails with `BadSignature` where the record does not end in 0x55,
    /// 0xAA, with `UnknownBootIndicator(n)` where partition `n` has an
    /// unknown boot indicator, and with `Io(err)` where the device failed
    /// with `err` or gave fewer than 512 bytes.
    pub fn from<D: BlockDevice>(device: &mut D) -> (r: Result<MasterBootRecord, Error>)
        ensures
            exists|answer: Result<usize, IoError>, s: Seq<u8>|
                s.len() == 512 && #[trigger] mbr_read(answer, s, r),
            r matches Ok(mbr) ==> mbr.wf(),
            r matches Err(Error::UnknownBootIndicator(i)) ==> i < 4,
    {
        let mut buf = [0u8; 512];
        let answer = device.read_sector(0, &mut buf);
        let r = MasterBootRecord::decode(answer, &buf);
        assert(buf@.len() == 512 && mbr_read(answer, buf@, r));
        r
    }

    /// The first partition of the table whose type is FAT32 (0x0B or 0x0C).
    pub fn first_fat32(&self) -> (r: Result<&PartitionEntry, IoError>)
        ensures
            match r {
                Ok(p) => {
                    &&& first_fat32_from(self.partition_table@, 0) matches Some(i)
                    &&& *p == self.partition_table@[i]
                    &&& is_fat32_type(p.part_type)
                },
                Err(e) => {
                    &&& first_fat32_from(self.partition_table@, 0) is None
                    &&& e == no_fat32_error()
                },
            },
    {
        let mut i: usize = 0;
        while i < 4
            invariant
                0 <= i <= 4,
                self.partition_table@.len() == 4,
                first_fat32_from(self.partition_table@, 0) == first_fat32_from(
                    self.partition_table@,
                    i as int,
                ),
            decreases 4 - i,
        {
            if self.partition_table[i].part_type == 0xB || self.partition_table[i].part_type == 0xC {
                return Ok(&self.partition_table[i]);
            }
            i += 1;
        }
        Err(IoError::new(ErrorKind::NotFound, "FAT32 partition not found"))
    }
}

/// The partition that `first_fat32` picks is of type FAT32 and no partition
/// before it is; where it picks none, no partition is of that type.
pub proof fn lemma_first_fat32(table: Seq<PartitionEntry>, from: int)
    requires
        0 <= from <= table.len(),
    ensures
        match first_fat32_from(table, from) {
            Some(i) => from <= i < table.len() && is_fat32_type(table[i].part_type) && forall|j: int|
                from <= j < i ==> !is_fat32_type(#[trigger] table[j].part_type),
            None => forall|j: int|
                from <= j < table.len() ==> !is_fat32_type(#[trigger] table[j].part_type),
        },
    decreases table.len() - from,
{
    if from < table.len() && !is_fat32_type(table[from].part_type) {
        lemma_first_fat32(table, from + 1);
    }
}

} // verus!
