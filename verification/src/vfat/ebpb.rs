//! The extended BIOS parameter block: the boot sector of a FAT32
//! partition, which gives the geometry of the volume.

use crate::error::IoError;
use crate::traits::BlockDevice;
use crate::util::{le_u16, le_u32, read_bytes, read_u16, read_u32};
use crate::vfat::error::Error;
use vstd::prelude::*;

verus! {

/// The extended BIOS parameter block (EBPB) of a FAT32 partition.
#[derive(Debug)]
pub struct BiosParameterBlock {
    pub jmp: [u8; 3],
    pub oem_id: [u8; 8],
    pub bytes_per_sector: u16,
    pub sectors_per_cluster: u8,
    pub sectors_reserved: u16,
    pub fats_number: u8,
    pub max_dir_entries: u16,
    pub logical_sectors_small: u16,
    pub fat_id: u8,
    pub sectors_per_fat16: u16,
    pub sectors_per_track: u16,
    pub heads: u16,
    pub hidden_sectors: u32,
    pub logical_sectors_big: u32,
    pub sectors_per_fat: u32,
    pub flags: u16,
    pub fat_ver: u16,
    pub root_dir_cluster: u32,
    pub fsinfo_sector: u16,
    pub backup_boot_sector: u16,
    pub reserved: [u8; 12],
    pub drive_number: u8,
    pub reserved2: u8,
    pub signature: u8,
    pub volume_serial: u32,
    pub volume_label: [u8; 11],
    pub system_id: [u8; 8],
    pub boot_code: [u8; 420],
    pub bootable_signature: u16,
}

/// The number of bytes in an extended BIOS parameter block.
pub const EBPB_SIZE: usize = 512;

/// Reading the parameter block comes to `r`, where the device answered
/// `answer` and left the 512 bytes `s` in the buffer: a failure of the
/// device is handed on, the count that it gave is not looked at, a block
/// that does not end in 0x55, 0xAA is refused, and any other is decoded.
pub open spec fn ebpb_read(
    answer: Result<usize, IoError>,
    s: Seq<u8>,
    r: Result<BiosParameterBlock, Error>,
) -> bool {
    match r {
        Ok(ebpb) => {
            &&& answer is Ok
            &&& s[510] == 0x55
            &&& s[511] == 0xAA
            &&& ebpb.decodes(s)
            &&& ebpb.bootable_signature == 0xAA55
        },
        Err(e) => match answer {
            Err(x) => e == Error::Io(x),
            Ok(_) => {
                &&& e == Error::BadSignature
                &&& !(s[510] == 0x55 && s[511] == 0xAA)
            },
        },
    }
}

impl BiosParameterBlock {
    /// The fields are those that the 512 bytes `s` store.
    pub open spec fn decodes(&self, s: Seq<u8>) -> bool {
        &&& self.jmp@ == s.subrange(0, 3)
        &&& self.oem_id@ == s.subrange(3, 11)
        &&& self.bytes_per_sector == le_u16(s, 11)
        &&& self.sectors_per_cluster == s[13]
        &&& self.sectors_reserved == le_u16(s, 14)
        &&& self.fats_number == s[16]
        &&& self.max_dir_entries == le_u16(s, 17)
        &&& self.logical_sectors_small == le_u16(s, 19)
        &&& self.fat_id == s[21]
        &&& self.sectors_per_fat16 == le_u16(s, 22)
        &&& self.sectors_per_track == le_u16(s, 24)
        &&& self.heads == le_u16(s, 26)
        &&& self.hidden_sectors == le_u32(s, 28)
        &&& self.logical_sectors_big == le_u32(s, 32)
        &&& self.sectors_per_fat == le_u32(s, 36)
        &&& self.flags == le_u16(s, 40)
        &&& self.fat_ver == le_u16(s, 42)
        &&& self.root_dir_cluster == le_u32(s, 44)
        &&& self.fsinfo_sector == le_u16(s, 48)
        &&& self.backup_boot_sector == le_u16(s, 50)
        &&& self.reserved@ == s.subrange(52, 64)
        &&& self.drive_number == s[64]
        &&& self.reserved2 == s[65]
        &&& self.signature == s[66]
        &&& self.volume_serial == le_u32(s, 67)
        &&& self.volume_label@ == s.subrange(71, 82)
        &&& self.system_id@ == s.subrange(82, 90)
        &&& self.boot_code@ == s.subrange(90, 510)
        &&& self.bootable_signature == le_u16(s, 510)
    }

    /// Makes the parameter block from what the device answered when it was
    /// asked to read the first sector of the partition into `buf`. A failure
    /// of the device is handed on; the count that it gave is not looked at.
    /// The block must end in 0x55, 0xAA.
    pub fn decode(answer: Result<usize, IoError>, buf: &[u8; 512]) -> (r: Result<
        BiosParameterBlock,
        Error,
    >)
        ensures
            ebpb_read(answer, buf@, r),
    {
        if let Err(e) = answer {
            return Err(Error::Io(e));
        }
        let bootable_signature = read_u16(buf, 510);
        if bootable_signature != 0xAA55 {
            return Err(Error::BadSignature);
        }
        let mut jmp = [0u8; 3];
        let mut oem_id = [0u8; 8];
        let mut reserved = [0u8; 12];
        let mut volume_label = [0u8; 11];
        let mut system_id = [0u8; 8];
        let mut boot_code = [0u8; 420];
        read_bytes(&mut jmp, buf, 0);
        read_bytes(&mut oem_id, buf, 3);
        read_bytes(&mut reserved, buf, 52);
        read_bytes(&mut volume_label, buf, 71);
        read_bytes(&mut system_id, buf, 82);
        read_bytes(&mut boot_code, buf, 90);
        Ok(
            BiosParameterBlock {
                jmp,
                oem_id,
                bytes_per_sector: read_u16(buf, 11),
                sectors_per_cluster: buf[13],
                sectors_reserved: read_u16(buf, 14),
                fats_number: buf[16],
                max_dir_entries: read_u16(buf, 17),
                logical_sectors_small: read_u16(buf, 19),
                fat_id: buf[21],
                sectors_per_fat16: read_u16(buf, 22),
                sectors_per_track: read_u16(buf, 24),
                heads: read_u16(buf, 26),
                hidden_sectors: read_u32(buf, 28),
                logical_sectors_big: read_u32(buf, 32),
                sectors_per_fat: read_u32(buf, 36),
                flags: read_u16(buf, 40),
                fat_ver: read_u16(buf, 42),
                root_dir_cluster: read_u32(buf, 44),
                fsinfo_sector: read_u16(buf, 48),
                backup_boot_sector: read_u16(buf, 50),
                reserved,
                drive_number: buf[64],
                reserved2: buf[65],
                signature: buf[66],
                volume_serial: read_u32(buf, 67),
                volume_label,
                system_id,
                boot_code,
                bootable_signature,
            },
        )
    }

    /// Reads the FAT32 extended BIOS parameter block from sector `sector` of
    /// `device`.
    ///
    /// Fails with `BadSignature` where the block does not end in 0x55, 0xAA,
    /// and with `Io(err)` where the device failed with `err`.
    pub fn from<D: BlockDevice>(device: &mut D, sector: u64) -> (r: Result<
        BiosParameterBlock,
        Error,
    >)
        ensures
            exists|answer: Result<usize, IoError>, s: Seq<u8>|
                s.len() == 512 && #[trigger] ebpb_read(answer, s, r),
            r matches Ok(ebpb) ==> ebpb.bootable_signature == 0xAA55,
            r matches Err(e) ==> e is Io || e is BadSignature,
    {
        let mut buf = [0u8; 512];
        let answer = device.read_sector(sector, &mut buf);
        let r = BiosParameterBlock::decode(answer, &buf);
        assert(buf@.len() == 512 && ebpb_read(answer, buf@, r));
        r
    }
}

} // verus!
