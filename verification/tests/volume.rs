use fat32::error::{ErrorKind, IoError};
use fat32::mbr;
use fat32::traits::BlockDevice;
use fat32::vfat::cache::{CachedDevice, Partition};
use fat32::vfat::dir::{Dir, EntryIter};
use fat32::vfat::entry::Entry;
use fat32::vfat::path::Component;
use fat32::vfat::vfat::VFat;
use fat32::vfat::{Cluster, Error, Status};

const SECTOR: usize = 512;
const START: usize = 3;
const FAT: usize = START + 2;
const DATA: usize = FAT + 1;

/// A disk in memory that counts the reads it serves and can be told to fail
/// on one sector or to give one sector short.
struct Disk {
    data: Vec<u8>,
    reads: usize,
    fail_on: Option<u64>,
    short_on: Option<u64>,
}

impl Disk {
    fn new(data: Vec<u8>) -> Disk {
        Disk { data, reads: 0, fail_on: None, short_on: None }
    }
}

impl BlockDevice for Disk {
    fn read_sector(&mut self, n: u64, buf: &mut [u8]) -> Result<usize, IoError> {
        self.reads += 1;
        if self.fail_on == Some(n) {
            return Err(IoError::new(ErrorKind::Other, "disk on fire"));
        }
        let start = (n as usize) * SECTOR;
        if start + SECTOR > self.data.len() {
            return Err(IoError::new(ErrorKind::UnexpectedEof, "past the end of the disk"));
        }
        let len = if self.short_on == Some(n) { 100 } else { SECTOR.min(buf.len()) };
        buf[..len].copy_from_slice(&self.data[start..start + len]);
        Ok(len)
    }
}

fn put_u16(data: &mut [u8], at: usize, v: u16) {
    data[at] = (v & 0xFF) as u8;
    data[at + 1] = (v >> 8) as u8;
}

fn put_u32(data: &mut [u8], at: usize, v: u32) {
    put_u16(data, at, (v & 0xFFFF) as u16);
    put_u16(data, at + 2, (v >> 16) as u16);
}

fn short_record(name: &[u8; 8], ext: &[u8; 3], attr: u8, cluster: u32, size: u32) -> [u8; 32] {
    let mut r = [0u8; 32];
    r[..8].copy_from_slice(name);
    r[8..11].copy_from_slice(ext);
    r[11] = attr;
    put_u16(&mut r, 14, (13 << 11) | (37 << 5) | 21);
    put_u16(&mut r, 16, (29 << 9) | (7 << 5) | 24);
    put_u16(&mut r, 18, (30 << 9) | (12 << 5) | 31);
    put_u16(&mut r, 20, (cluster >> 16) as u16);
    put_u16(&mut r, 22, (23 << 11) | (59 << 5) | 29);
    put_u16(&mut r, 24, (31 << 9) | (1 << 5) | 1);
    put_u16(&mut r, 26, (cluster & 0xFFFF) as u16);
    put_u32(&mut r, 28, size);
    r
}

fn long_record(seq: u8, units: &[u16; 13]) -> [u8; 32] {
    let mut r = [0u8; 32];
    r[0] = seq;
    r[11] = 0x0F;
    for k in 0..13 {
        let at = if k < 5 { 1 + 2 * k } else if k < 11 { 14 + 2 * (k - 5) } else { 28 + 2 * (k - 11) };
        put_u16(&mut r, at, units[k]);
    }
    r
}

fn long_units(text: &str, fragment: usize) -> [u16; 13] {
    let all: Vec<u16> = text.encode_utf16().collect();
    let mut units = [0xFFFFu16; 13];
    for k in 0..13 {
        let i = fragment * 13 + k;
        if i < all.len() {
            units[k] = all[i];
        } else if i == all.len() {
            units[k] = 0x0000;
        }
    }
    units
}

fn cluster_at(c: usize) -> usize {
    (DATA + (c - 2)) * SECTOR
}

fn hello_contents() -> Vec<u8> {
    (0..700usize).map(|i| (i % 251) as u8).collect()
}

/// A disk with one FAT32 partition that starts at sector 3. Cluster 2 is
/// the root directory, 3 and 4 hold HELLO.TXT, 5 the file with the long
/// name, 6 the directory SUB, 7 the file in it; 8, 9 and 10 stand in broken
/// chains and 11 leads back to itself.
fn image() -> Vec<u8> {
    let mut d = vec![0u8; 24 * SECTOR];
    d[446] = 0x00;
    d[446 + 4] = 0x83;
    put_u32(&mut d, 446 + 8, 1);
    d[462] = 0x80;
    d[462 + 4] = 0x0C;
    put_u32(&mut d, 462 + 8, START as u32);
    put_u32(&mut d, 462 + 12, 20);
    d[478 + 4] = 0x0B;
    put_u32(&mut d, 478 + 8, 9);
    d[510] = 0x55;
    d[511] = 0xAA;

    let e = START * SECTOR;
    put_u16(&mut d, e + 11, SECTOR as u16);
    d[e + 13] = 1;
    put_u16(&mut d, e + 14, 2);
    d[e + 16] = 1;
    put_u32(&mut d, e + 36, 1);
    put_u32(&mut d, e + 44, 0xF000_0002);
    d[e + 510] = 0x55;
    d[e + 511] = 0xAA;

    let f = FAT * SECTOR;
    put_u32(&mut d, f, 0x0FFF_FFF8);
    put_u32(&mut d, f + 4, 0x0FFF_FFFF);
    put_u32(&mut d, f + 4 * 2, 0x0FFF_FFFF);
    put_u32(&mut d, f + 4 * 3, 0xA000_0004);
    put_u32(&mut d, f + 4 * 4, 0x0FFF_FFF8);
    put_u32(&mut d, f + 4 * 5, 0xFFFF_FFFF);
    put_u32(&mut d, f + 4 * 6, 0x0FFF_FFFF);
    put_u32(&mut d, f + 4 * 7, 0x0FFF_FFFF);
    put_u32(&mut d, f + 4 * 8, 0x0000_0000);
    put_u32(&mut d, f + 4 * 9, 0x0FFF_FFF7);
    put_u32(&mut d, f + 4 * 10, 0x0FFF_FFF0);
    put_u32(&mut d, f + 4 * 11, 11);

    let mut records: Vec<[u8; 32]> = Vec::new();
    records.push(short_record(b"HELLO   ", b"TXT", 0x01, 3, 700));
    let mut deleted = short_record(b"GONE    ", b"TXT", 0x20, 5, 5);
    deleted[0] = 0xE5;
    records.push(deleted);
    let mut deleted_long = long_record(0x41, &long_units("gone long name", 0));
    deleted_long[0] = 0xE5;
    records.push(deleted_long);
    records.push(long_record(0x42, &long_units("long file name.txt", 1)));
    records.push(long_record(0x01, &long_units("long file name.txt", 0)));
    records.push(short_record(b"LONGFI~1", b"TXT", 0x22, 5, 5));
    records.push(short_record(b"SUB     ", b"   ", 0x10, 6, 0));
    records.push(short_record(b"EMPTY\0\0\0", b"\0\0\0", 0x20, 0, 0));
    records.push(short_record(b"FREE    ", b"BIN", 0x20, 8, 10));
    records.push(short_record(b"BAD     ", b"BIN", 0x20, 9, 10));
    records.push(short_record(b"RESERVED", b"BIN", 0x20, 10, 10));
    records.push(short_record(b"LOOP    ", b"BIN", 0x20, 11, 10));
    records.push(short_record(b"TOOLONG ", b"BIN", 0x20, 7, 600));
    records.push([0u8; 32]);
    records.push(short_record(b"GHOST   ", b"TXT", 0x20, 5, 5));
    let root = cluster_at(2);
    for (i, r) in records.iter().enumerate() {
        d[root + 32 * i..root + 32 * i + 32].copy_from_slice(r);
    }

    let hello = hello_contents();
    d[cluster_at(3)..cluster_at(3) + 512].copy_from_slice(&hello[..512]);
    d[cluster_at(4)..cluster_at(4) + 188].copy_from_slice(&hello[512..]);
    d[cluster_at(5)..cluster_at(5) + 5].copy_from_slice(b"12345");

    let sub = cluster_at(6);
    let inner = short_record(b"INNER   ", b"BIN", 0x20, 7, 3);
    d[sub..sub + 32].copy_from_slice(&inner);
    d[cluster_at(7)..cluster_at(7) + 3].copy_from_slice(b"abc");
    d
}

fn mount() -> VFat<Disk> {
    VFat::from(Disk::new(image())).expect("the volume mounts")
}

fn normal(name: &str) -> Component {
    Component::Normal(name.as_bytes().to_vec())
}

fn names_of(it: &mut EntryIter) -> Vec<String> {
    let mut names = Vec::new();
    while let Some(e) = it.next() {
        names.push(e.name().to_string());
    }
    names
}

#[test]
fn mount_derives_the_geometry() {
    let vfat = mount();
    assert_eq!(vfat.bytes_per_sector, 512);
    assert_eq!(vfat.sectors_per_cluster, 1);
    assert_eq!(vfat.sectors_per_fat, 1);
    assert_eq!(vfat.fat_start_sector, 5);
    assert_eq!(vfat.data_start_sector, 6);
    assert_eq!(vfat.root_dir_cluster, Cluster(2));
    assert_eq!(vfat.device.partition, Partition { start: 3, sector_size: 512 });
    assert_eq!(vfat.device.cache.len(), 0);
    assert_eq!(vfat.device.device.reads, 2);
}

#[test]
fn mount_fails_on_a_blank_disk() {
    let r = VFat::from(Disk::new(vec![0u8; 4 * SECTOR]));
    assert_eq!(r.err(), Some(Error::Mbr(mbr::Error::BadSignature)));
}

#[test]
fn mount_fails_without_a_fat32_partition() {
    let mut d = image();
    d[462 + 4] = 0x07;
    d[478 + 4] = 0x07;
    let r = VFat::from(Disk::new(d));
    assert_eq!(
        r.err(),
        Some(Error::Io(IoError::new(ErrorKind::NotFound, "FAT32 partition not found")))
    );
}

#[test]
fn mount_takes_the_first_fat32_partition() {
    let mut d = image();
    d[446 + 4] = 0x0B;
    let r = VFat::from(Disk::new(d));
    assert_eq!(r.err(), Some(Error::BadSignature));
}

#[test]
fn mount_fails_on_a_bad_boot_sector_signature() {
    let mut d = image();
    d[START * SECTOR + 511] = 0xAB;
    let r = VFat::from(Disk::new(d));
    assert_eq!(r.err(), Some(Error::BadSignature));
}

#[test]
fn mount_hands_on_a_device_failure() {
    let mut disk = Disk::new(image());
    disk.fail_on = Some(0);
    let r = VFat::from(disk);
    assert_eq!(
        r.err(),
        Some(Error::Mbr(mbr::Error::Io(IoError::new(ErrorKind::Other, "disk on fire"))))
    );
    let mut disk = Disk::new(image());
    disk.fail_on = Some(START as u64);
    let r = VFat::from(disk);
    assert_eq!(r.err(), Some(Error::Io(IoError::new(ErrorKind::Other, "disk on fire"))));
}

#[test]
fn mount_refuses_sector_sizes_out_of_range() {
    for size in [0u16, 64, 127, 4097, 8192] {
        let mut d = image();
        put_u16(&mut d, START * SECTOR + 11, size);
        let r = VFat::from(Disk::new(d));
        assert_eq!(
            r.err(),
            Some(Error::Io(IoError::new(ErrorKind::Other, "unsupported sector size")))
        );
    }
    for size in [128u16, 4096] {
        let mut d = image();
        put_u16(&mut d, START * SECTOR + 11, size);
        assert!(VFat::from(Disk::new(d)).is_ok());
    }
}

#[test]
fn fat_entry_reads_the_slot_of_a_cluster() {
    let mut vfat = mount();
    assert_eq!(vfat.fat_entry(Cluster(3)).unwrap().0, 0xA000_0004);
    assert_eq!(vfat.fat_entry(Cluster(3)).unwrap().status(), Status::Data(Cluster(4)));
    assert_eq!(vfat.fat_entry(Cluster(4)).unwrap().status(), Status::Eoc(0x0FFF_FFF8));
    assert_eq!(vfat.fat_entry(Cluster(8)).unwrap().status(), Status::Free);
    assert_eq!(vfat.fat_entry(Cluster(9)).unwrap().status(), Status::Bad);
    assert_eq!(vfat.fat_entry(Cluster(10)).unwrap().status(), Status::Reserved);
    assert_eq!(vfat.device.device.reads, 3);
    let far = vfat.fat_entry(Cluster(128 * 30));
    assert_eq!(far.err().map(|e| e.kind()), Some(ErrorKind::UnexpectedEof));
}

#[test]
fn read_cluster_reads_whole_sectors() {
    let mut vfat = mount();
    let mut buf = vec![0xEEu8; 600];
    assert_eq!(vfat.read_cluster(Cluster(3), 0, &mut buf), Ok(512));
    assert_eq!(&buf[..512], &hello_contents()[..512]);
    assert!(buf[512..].iter().all(|b| *b == 0xEE));

    let mut small = vec![0xEEu8; 511];
    assert_eq!(vfat.read_cluster(Cluster(3), 0, &mut small), Ok(0));
    assert!(small.iter().all(|b| *b == 0xEE));

    let mut buf = vec![0xEEu8; 600];
    assert_eq!(vfat.read_cluster(Cluster(3), 1, &mut buf), Ok(0));
    assert_eq!(vfat.read_cluster(Cluster(3), usize::MAX, &mut buf), Ok(0));
}

#[test]
fn read_cluster_counts_the_offset_in_sectors() {
    let mut d = image();
    d[START * SECTOR + 13] = 2;
    let mut vfat = VFat::from(Disk::new(d)).unwrap();
    assert_eq!(vfat.sectors_per_cluster, 2);
    let mut buf = vec![0u8; 2048];
    assert_eq!(vfat.read_cluster(Cluster(3), 1, &mut buf), Ok(512));
    let at = (DATA + 2 + 1) * SECTOR;
    assert_eq!(&buf[..512], &image()[at..at + 512]);
    assert_eq!(vfat.read_cluster(Cluster(3), 0, &mut buf), Ok(1024));
    assert_eq!(&buf[..1024], &image()[at - 512..at + 512]);
    let mut one = vec![0u8; 1023];
    assert_eq!(vfat.read_cluster(Cluster(3), 0, &mut one), Ok(512));
}

#[test]
fn read_cluster_refuses_clusters_below_two() {
    let mut vfat = mount();
    let mut buf = vec![0u8; 512];
    let want = Err(IoError::new(ErrorKind::Other, "cluster number must be > 2"));
    assert_eq!(vfat.read_cluster(Cluster(0), 0, &mut buf), want);
    assert_eq!(vfat.read_cluster(Cluster(1), 0, &mut buf), want);
    assert_eq!(vfat.device.device.reads, 2);
}

#[test]
fn read_chain_follows_the_chain_to_its_end() {
    let mut vfat = mount();
    let mut buf = Vec::new();
    assert_eq!(vfat.read_chain(Cluster(3), &mut buf), Ok(1024));
    assert_eq!(buf.len(), 1024);
    assert_eq!(&buf[..700], &hello_contents()[..]);
    assert!(buf[700..].iter().all(|b| *b == 0));
}

#[test]
fn read_chain_adds_to_what_the_buffer_holds() {
    let mut vfat = mount();
    let mut buf = vec![7u8, 8, 9];
    assert_eq!(vfat.read_chain(Cluster(5), &mut buf), Ok(512));
    assert_eq!(buf.len(), 515);
    assert_eq!(&buf[..8], &[7, 8, 9, b'1', b'2', b'3', b'4', b'5']);
}

#[test]
fn read_chain_fails_on_broken_chains() {
    let mut vfat = mount();
    let mut buf = Vec::new();
    assert_eq!(
        vfat.read_chain(Cluster(8), &mut buf),
        Err(IoError::new(ErrorKind::Other, "can't read from free sector"))
    );
    assert_eq!(
        vfat.read_chain(Cluster(9), &mut buf),
        Err(IoError::new(ErrorKind::Other, "can't read from bad sector"))
    );
    assert_eq!(
        vfat.read_chain(Cluster(10), &mut buf),
        Err(IoError::new(ErrorKind::Other, "can't read from reserved sector"))
    );
    assert_eq!(
        vfat.read_chain(Cluster(1), &mut buf),
        Err(IoError::new(ErrorKind::Other, "cluster number must be > 2"))
    );
    assert!(buf.len() <= 512);
}

#[test]
fn read_chain_gives_up_on_a_chain_that_runs_in_a_circle() {
    let mut vfat = mount();
    let mut buf = Vec::new();
    assert_eq!(
        vfat.read_chain(Cluster(11), &mut buf),
        Err(IoError::new(ErrorKind::Other, "cluster chain does not end"))
    );
    assert_eq!(buf.len(), 128 * 512);
}

#[test]
fn root_directory_lists_its_entries() {
    let mut vfat = mount();
    let root = Dir::root(&vfat);
    assert_eq!(root.name(), "/");
    let mut it = root.entries(&mut vfat).unwrap();
    assert_eq!(it.entries.len(), 16);
    assert_eq!(
        names_of(&mut it),
        vec![
            "HELLO.TXT",
            "long file name.txt",
            "SUB",
            "EMPTY",
            "FREE.BIN",
            "BAD.BIN",
            "RESERVED.BIN",
            "LOOP.BIN",
            "TOOLONG.BIN"
        ]
    );
    assert_eq!(it.index, 13);
    assert!(it.next().is_none());
    assert_eq!(it.index, 13);
}

#[test]
fn entries_carry_cluster_size_and_metadata() {
    let mut vfat = mount();
    let mut it = Dir::root(&vfat).entries(&mut vfat).unwrap();
    let hello = it.next().unwrap();
    let file = hello.as_file().expect("a file");
    assert!(hello.as_dir().is_none());
    assert_eq!(file.cluster, Cluster(3));
    assert_eq!(file.size(), 700);
    assert_eq!(file.read_ptr, 0);
    let m = hello.metadata();
    assert!(m.read_only());
    assert!(!m.hidden());
    assert_eq!((m.created().year(), m.created().month(), m.created().day()), (2009, 7, 24));
    assert_eq!((m.created().hour(), m.created().minute(), m.created().second()), (13, 37, 42));
    assert_eq!((m.accessed().year(), m.accessed().month(), m.accessed().day()), (2010, 12, 31));
    assert_eq!((m.accessed().hour(), m.accessed().minute(), m.accessed().second()), (0, 0, 0));
    assert_eq!((m.modified().year(), m.modified().month(), m.modified().day()), (2011, 1, 1));
    assert_eq!((m.modified().hour(), m.modified().minute(), m.modified().second()), (23, 59, 58));

    let long = it.next().unwrap();
    assert!(long.metadata().hidden());
    assert!(!long.metadata().read_only());
    let sub = it.next().unwrap();
    assert!(sub.as_file().is_none());
    assert_eq!(sub.as_dir().unwrap().cluster, Cluster(6));
    assert!(sub.into_file().is_none());
    assert_eq!(hello.into_file().unwrap().name(), "HELLO.TXT");
}

#[test]
fn find_ignores_the_case_of_ascii_letters() {
    let mut vfat = mount();
    let root = Dir::root(&vfat);
    assert_eq!(root.find(&mut vfat, b"hello.txt").unwrap().name(), "HELLO.TXT");
    assert_eq!(root.find(&mut vfat, b"Long File NAME.TXT").unwrap().name(), "long file name.txt");
    assert_eq!(root.find(&mut vfat, b"sub").unwrap().name(), "SUB");
    assert_eq!(
        root.find(&mut vfat, b"hello.tx").err(),
        Some(IoError::new(ErrorKind::NotFound, "Entry not found"))
    );
    assert_eq!(
        root.find(&mut vfat, b"GHOST.TXT").err(),
        Some(IoError::new(ErrorKind::NotFound, "Entry not found"))
    );
    assert_eq!(
        root.find(&mut vfat, b"GONE.TXT").err(),
        Some(IoError::new(ErrorKind::NotFound, "Entry not found"))
    );
}

#[test]
fn find_refuses_a_name_that_is_not_utf8() {
    let mut vfat = mount();
    let root = Dir::root(&vfat);
    let reads = vfat.device.device.reads;
    assert_eq!(
        root.find(&mut vfat, &[b'H', 0xFF, b'I']).err(),
        Some(IoError::new(ErrorKind::InvalidInput, "Invalid UTF-8"))
    );
    assert_eq!(
        root.find(&mut vfat, &[0xC3]).err(),
        Some(IoError::new(ErrorKind::InvalidInput, "Invalid UTF-8"))
    );
    assert_eq!(vfat.device.device.reads, reads);
}

#[test]
fn open_follows_the_components_of_a_path() {
    let mut vfat = mount();
    let e = vfat.open(&[Component::RootDir, normal("sub"), normal("inner.bin")]).unwrap();
    assert_eq!(e.name(), "INNER.BIN");
    assert!("inner.bin".eq_ignore_ascii_case(e.name()));
    assert_eq!(e.as_file().unwrap().size(), 3);

    let root = vfat.open(&[Component::RootDir]).unwrap();
    assert_eq!(root.name(), "/");
    assert_eq!(root.as_dir().unwrap().cluster, Cluster(2));
    let root = vfat.open(&[]).unwrap();
    assert_eq!(root.name(), "/");

    let e = vfat.open(&[normal("SUB"), Component::RootDir, normal("HELLO.TXT")]).unwrap();
    assert_eq!(e.name(), "HELLO.TXT");
}

#[test]
fn open_fails_where_the_path_leads_nowhere() {
    let mut vfat = mount();
    assert_eq!(
        vfat.open(&[Component::RootDir, normal("hello.txt"), normal("x")]).err(),
        Some(IoError::new(ErrorKind::NotFound, "File not found"))
    );
    assert_eq!(
        vfat.open(&[Component::RootDir, normal("sub"), normal("hello.txt")]).err(),
        Some(IoError::new(ErrorKind::NotFound, "Entry not found"))
    );
    assert_eq!(
        vfat.open(&[Component::RootDir, Component::Normal(vec![0x80])]).err(),
        Some(IoError::new(ErrorKind::InvalidInput, "Invalid UTF-8"))
    );
}

#[test]
fn file_reads_to_its_end_and_then_gives_nothing() {
    let mut vfat = mount();
    let mut file = vfat.open(&[normal("hello.txt")]).unwrap().into_file().unwrap();
    let mut buf = vec![0xEEu8; 1000];
    assert_eq!(file.read(&mut vfat, &mut buf), Ok(700));
    assert_eq!(&buf[..700], &hello_contents()[..]);
    assert!(buf[700..].iter().all(|b| *b == 0xEE));
    assert_eq!(file.read_ptr, 700);
    assert_eq!(file.read(&mut vfat, &mut buf), Ok(0));
    assert_eq!(file.read_ptr, 700);
    assert_eq!(file.sync(), Ok(()));
}

#[test]
fn file_read_in_chunks_gives_the_same_bytes() {
    for chunk in [1usize, 7, 100, 511, 512, 513, 699, 700, 701] {
        let mut vfat = mount();
        let mut file = vfat.open(&[normal("hello.txt")]).unwrap().into_file().unwrap();
        let mut all = Vec::new();
        let mut buf = vec![0u8; chunk];
        loop {
            let n = file.read(&mut vfat, &mut buf).unwrap();
            if n == 0 {
                break;
            }
            assert_eq!(n, chunk.min(700 - all.len()));
            all.extend_from_slice(&buf[..n]);
        }
        assert_eq!(all, hello_contents());
    }
}

#[test]
fn empty_file_reads_nothing_and_leaves_the_disk_alone() {
    let mut vfat = mount();
    let mut file = vfat.open(&[normal("empty")]).unwrap().into_file().unwrap();
    assert_eq!(file.size(), 0);
    assert_eq!(file.cluster, Cluster(0));
    let reads = vfat.device.device.reads;
    let cached = vfat.device.cache.len();
    for len in [0usize, 1, 512, 5000] {
        let mut buf = vec![0xEEu8; len];
        assert_eq!(file.read(&mut vfat, &mut buf), Ok(0));
        assert!(buf.iter().all(|b| *b == 0xEE));
    }
    assert_eq!(vfat.device.device.reads, reads);
    assert_eq!(vfat.device.cache.len(), cached);
}

#[test]
fn file_read_with_an_empty_buffer_reads_nothing() {
    let mut vfat = mount();
    let mut file = vfat.open(&[normal("hello.txt")]).unwrap().into_file().unwrap();
    let mut buf: Vec<u8> = Vec::new();
    assert_eq!(file.read(&mut vfat, &mut buf), Ok(0));
    assert_eq!(file.read_ptr, 0);
}

#[test]
fn file_longer_than_its_chain_fails_instead_of_reading_past_it() {
    let mut vfat = mount();
    let mut file = vfat.open(&[normal("toolong.bin")]).unwrap().into_file().unwrap();
    let mut buf = vec![0xEEu8; 512];
    assert_eq!(file.read(&mut vfat, &mut buf), Ok(512));
    assert_eq!(&buf[..3], b"abc");
    let before = buf.clone();
    assert_eq!(
        file.read(&mut vfat, &mut buf),
        Err(IoError::new(ErrorKind::UnexpectedEof, "file is longer than its cluster chain"))
    );
    assert_eq!(file.read_ptr, 512);
    assert_eq!(buf, before);
}

#[test]
fn file_on_a_broken_chain_fails_and_keeps_its_cursor() {
    let mut vfat = mount();
    let mut file = vfat.open(&[normal("free.bin")]).unwrap().into_file().unwrap();
    let mut buf = vec![0xEEu8; 16];
    assert_eq!(
        file.read(&mut vfat, &mut buf),
        Err(IoError::new(ErrorKind::Other, "can't read from free sector"))
    );
    assert_eq!(file.read_ptr, 0);
    assert!(buf.iter().all(|b| *b == 0xEE));
}

#[test]
fn cache_reads_each_sector_once() {
    let mut cache = CachedDevice::new(Disk::new(image()), Partition { start: 3, sector_size: 512 });
    assert_eq!(cache.get(0).unwrap().len(), 512);
    assert_eq!(cache.get(0).unwrap()[510..], [0x55, 0xAA]);
    assert_eq!(cache.get(0).unwrap()[462 + 4], 0x0C);
    assert_eq!(cache.device.reads, 1);
    assert_eq!(cache.get(5).unwrap()[..4], [0xF8, 0xFF, 0xFF, 0x0F]);
    assert_eq!(cache.device.reads, 2);
    assert_eq!(cache.cache.len(), 2);
}

#[test]
fn cache_does_not_keep_failures() {
    let mut disk = Disk::new(image());
    disk.fail_on = Some(4);
    disk.short_on = Some(5);
    let mut cache = CachedDevice::new(disk, Partition { start: 3, sector_size: 512 });
    assert_eq!(cache.get(4).err(), Some(IoError::new(ErrorKind::Other, "disk on fire")));
    assert_eq!(cache.get(5).err().map(|e| e.kind()), Some(ErrorKind::UnexpectedEof));
    assert_eq!(cache.cache.len(), 0);
    cache.device.fail_on = None;
    cache.device.short_on = None;
    assert!(cache.get(4).is_ok());
    assert!(cache.get(5).is_ok());
    assert_eq!(cache.device.reads, 4);
    assert_eq!(cache.cache.len(), 2);
}

#[test]
fn cache_keeps_what_is_written_through_a_mutable_view() {
    let mut cache = CachedDevice::new(Disk::new(image()), Partition { start: 3, sector_size: 512 });
    {
        let view = cache.get_mut(0).unwrap();
        assert_eq!(view.len(), 512);
        assert_eq!(view[510], 0x55);
        view[510] = 0x11;
    }
    assert_eq!(cache.get(0).unwrap()[510], 0x11);
    assert_eq!(cache.get(0).unwrap()[511], 0xAA);
    assert_eq!(cache.device.reads, 1);
    cache.device.fail_on = Some(9);
    assert_eq!(cache.get_mut(9).err(), Some(IoError::new(ErrorKind::Other, "disk on fire")));
    assert_eq!(cache.cache.len(), 1);
}

#[test]
fn device_failure_in_the_middle_of_a_chain_is_handed_on() {
    let mut vfat = mount();
    vfat.device.device.fail_on = Some((DATA + 2) as u64);
    let mut buf = Vec::new();
    assert_eq!(
        vfat.read_chain(Cluster(3), &mut buf),
        Err(IoError::new(ErrorKind::Other, "disk on fire"))
    );
    vfat.device.device.fail_on = None;
    let mut buf = Vec::new();
    assert_eq!(vfat.read_chain(Cluster(3), &mut buf), Ok(1024));
    assert_eq!(&buf[..700], &hello_contents()[..]);
}

#[test]
fn entry_helpers_tell_files_from_directories() {
    let mut vfat = mount();
    let e = vfat.open(&[normal("sub")]).unwrap();
    match &e {
        Entry::Dir(d) => assert_eq!(d.name(), "SUB"),
        Entry::File(_) => panic!("SUB is a directory"),
    }
    let dir = e.into_dir().unwrap();
    let mut it = dir.entries(&mut vfat).unwrap();
    assert_eq!(names_of(&mut it), vec!["INNER.BIN"]);
    let f = vfat.open(&[normal("hello.txt")]).unwrap();
    assert!(f.into_dir().is_none());
}
