use fat32::vfat::dir::{EntryIter, VFatDirEntry};
use fat32::vfat::metadata::{Attributes, Date, Time};
use fat32::vfat::Cluster;

fn le16(r: &mut [u8; 32], at: usize, v: u16) {
    r[at] = (v & 0xFF) as u8;
    r[at + 1] = (v >> 8) as u8;
}

fn short(name: &[u8; 8], ext: &[u8; 3], attr: u8) -> VFatDirEntry {
    let mut raw = [0u8; 32];
    raw[..8].copy_from_slice(name);
    raw[8..11].copy_from_slice(ext);
    raw[11] = attr;
    VFatDirEntry { raw }
}

fn fragment(seq: u8, units: [u16; 13]) -> VFatDirEntry {
    let mut raw = [0u8; 32];
    raw[0] = seq;
    raw[11] = 0x0F;
    for k in 0..13 {
        let at = if k < 5 { 1 + 2 * k } else if k < 11 { 14 + 2 * (k - 5) } else { 28 + 2 * (k - 11) };
        le16(&mut raw, at, units[k]);
    }
    VFatDirEntry { raw }
}

fn units_of(text: &str, pad: u16) -> [u16; 13] {
    let mut units = [pad; 13];
    for (k, u) in text.encode_utf16().enumerate() {
        units[k] = u;
    }
    units
}

fn end() -> VFatDirEntry {
    VFatDirEntry { raw: [0u8; 32] }
}

fn all_names(entries: Vec<VFatDirEntry>) -> Vec<String> {
    let mut it = EntryIter::new(entries);
    let mut names = Vec::new();
    while let Some(e) = it.next() {
        names.push(e.name().to_string());
    }
    names
}

#[test]
fn record_reads_as_a_short_name_entry() {
    let mut raw = [0u8; 32];
    for i in 0..32 {
        raw[i] = (i as u8) + 1;
    }
    let e = VFatDirEntry { raw }.regular();
    assert_eq!(e.name, [1, 2, 3, 4, 5, 6, 7, 8]);
    assert_eq!(e.ext, [9, 10, 11]);
    assert_eq!(e.attr, Attributes(12));
    assert_eq!(e.reserved, 13);
    assert_eq!(e.ctime_fine, 14);
    assert_eq!(e.ctime, Time(0x100F));
    assert_eq!(e.cdate, Date(0x1211));
    assert_eq!(e.adate, Date(0x1413));
    assert_eq!(e.cluster_hi, 0x1615);
    assert_eq!(e.mtime, Time(0x1817));
    assert_eq!(e.mdate, Date(0x1A19));
    assert_eq!(e.cluster_lo, 0x1C1B);
    assert_eq!(e.size, 0x201F_1E1D);
    assert_eq!(e.cluster(), Cluster(0x0615_1C1B));
    assert!(!e.is_dir());
    let m = e.metadata();
    assert_eq!(m.attr, Attributes(12));
    assert_eq!(m.created.date, Date(0x1211));
    assert_eq!(m.created.time, Time(0x100F));
    assert_eq!(m.accessed.date, Date(0x1413));
    assert_eq!(m.accessed.time, Time(0));
    assert_eq!(m.modified.date, Date(0x1A19));
    assert_eq!(m.modified.time, Time(0x1817));
}

#[test]
fn record_reads_as_a_long_name_fragment() {
    let mut raw = [0u8; 32];
    for i in 0..32 {
        raw[i] = (i as u8) + 1;
    }
    let e = VFatDirEntry { raw }.long_filename();
    assert_eq!(e.seq_number, 1);
    assert_eq!(e.name1, [0x0302, 0x0504, 0x0706, 0x0908, 0x0B0A]);
    assert_eq!(e.attr, Attributes(12));
    assert_eq!(e.lfn_type, 13);
    assert_eq!(e.checksum, 14);
    assert_eq!(e.name2, [0x100F, 0x1211, 0x1413, 0x1615, 0x1817, 0x1A19]);
    assert_eq!(e.zero_pad, 0x1C1B);
    assert_eq!(e.name3, [0x1E1D, 0x201F]);
    assert!(!e.is_deleted());
}

#[test]
fn record_tells_its_kind() {
    let e = end().unknown();
    assert!(e.is_end());
    assert!(!e.is_deleted());
    assert!(!e.is_lfn());
    let mut raw = [0x41u8; 32];
    raw[0] = 0xE5;
    raw[11] = 0x0F;
    let r = VFatDirEntry { raw };
    assert!(r.unknown().is_deleted());
    assert!(r.unknown().is_lfn());
    assert!(!r.unknown().is_end());
    assert_eq!(r.unknown().unknown1, [0x41; 10]);
    assert_eq!(r.unknown().unknown2, [0x41; 20]);
    assert!(r.long_filename().is_deleted());
}

#[test]
fn first_cluster_joins_both_halves_and_drops_the_top_nibble() {
    let mut raw = [0u8; 32];
    le16(&mut raw, 20, 0xFABC);
    le16(&mut raw, 26, 0x1234);
    assert_eq!(VFatDirEntry { raw }.regular().cluster(), Cluster(0x0ABC_1234));
    let mut raw = [0u8; 32];
    le16(&mut raw, 20, 0x0001);
    le16(&mut raw, 26, 0x0000);
    assert_eq!(VFatDirEntry { raw }.regular().cluster(), Cluster(0x0001_0000));
}

#[test]
fn directory_bit_decides_between_file_and_directory() {
    let mut it = EntryIter::new(vec![
        short(b"A       ", b"   ", 0x10),
        short(b"B       ", b"   ", 0x31),
        short(b"C       ", b"   ", 0x2F & !0x0F | 0x01),
    ]);
    assert!(it.next().unwrap().as_dir().is_some());
    assert!(it.next().unwrap().as_dir().is_some());
    assert!(it.next().unwrap().as_file().is_some());
    assert!(it.next().is_none());
}

#[test]
fn enumeration_halts_at_the_end_record() {
    let mut it = EntryIter::new(vec![
        short(b"FIRST   ", b"TXT", 0x20),
        end(),
        short(b"SECOND  ", b"TXT", 0x20),
    ]);
    assert_eq!(it.next().unwrap().name(), "FIRST.TXT");
    assert_eq!(it.index, 1);
    assert!(it.next().is_none());
    assert_eq!(it.index, 1);
    assert!(it.next().is_none());
    assert_eq!(it.index, 1);
}

#[test]
fn enumeration_halts_at_the_last_record() {
    assert_eq!(all_names(vec![]), Vec::<String>::new());
    let mut it = EntryIter::new(vec![short(b"ONLY    ", b"   ", 0x20)]);
    assert_eq!(it.next().unwrap().name(), "ONLY");
    assert!(it.next().is_none());
    assert_eq!(it.index, 1);
    let mut it = EntryIter::new(vec![fragment(0x41, units_of("pending", 0))]);
    assert!(it.next().is_none());
    assert_eq!(it.index, 1);
}

#[test]
fn end_record_is_told_by_its_first_byte_alone() {
    let mut raw = [0x41u8; 32];
    raw[0] = 0x00;
    raw[11] = 0x0F;
    let names = all_names(vec![VFatDirEntry { raw }, short(b"AFTER   ", b"   ", 0x20)]);
    assert_eq!(names, Vec::<String>::new());
}

#[test]
fn short_names_join_name_and_extension() {
    let names = all_names(vec![
        short(b"README  ", b"MD ", 0x20),
        short(b"KERNEL  ", b"   ", 0x20),
        short(b"A B     ", b"C D", 0x20),
        short(b"NUL\0JUNK", b"X\0Y", 0x20),
        short(b"FULLNAME", b"EXT", 0x20),
        short(b"\x80\xFF      ", b"   ", 0x20),
        short(b" HIDDEN ", b"TXT", 0x20),
    ]);
    assert_eq!(
        names,
        vec!["README.MD", "KERNEL", "A.C", "NUL.X", "FULLNAME.EXT", "\u{80}\u{FF}", ".TXT"]
    );
}

#[test]
fn long_name_is_put_together_from_its_fragments() {
    let text = "a rather long name for a file.tar.gz";
    let all: Vec<u16> = text.encode_utf16().collect();
    let mut third = [0xFFFFu16; 13];
    for k in 0..13 {
        if 26 + k < all.len() {
            third[k] = all[26 + k];
        } else if 26 + k == all.len() {
            third[k] = 0;
        }
    }
    let mut first = [0u16; 13];
    first.copy_from_slice(&all[..13]);
    let mut second = [0u16; 13];
    second.copy_from_slice(&all[13..26]);
    let names = all_names(vec![
        fragment(0x43, third),
        fragment(0x02, second),
        fragment(0x01, first),
        short(b"ARATHE~1", b"GZ ", 0x20),
        short(b"PLAIN   ", b"TXT", 0x20),
    ]);
    assert_eq!(names, vec![text, "PLAIN.TXT"]);
}

#[test]
fn long_name_of_thirteen_units_ends_with_its_fragment() {
    let names = all_names(vec![
        fragment(0x41, units_of("thirteen.unit", 0xFFFF)),
        short(b"THIRTE~1", b"UNI", 0x20),
    ]);
    assert_eq!(names, vec!["thirteen.unit"]);
}

#[test]
fn long_name_ends_at_ffff_as_at_zero() {
    let mut units = units_of("ab", 0x0041);
    units[2] = 0xFFFF;
    let names = all_names(vec![fragment(0x41, units), short(b"AB      ", b"   ", 0x20)]);
    assert_eq!(names, vec!["ab"]);
}

#[test]
fn long_name_with_a_gap_ends_at_the_gap() {
    let names = all_names(vec![
        fragment(0x42, units_of("second", 0)),
        short(b"GAP     ", b"   ", 0x20),
    ]);
    assert_eq!(names, vec![""]);
}

#[test]
fn deleted_records_are_skipped() {
    let mut gone = short(b"GONE    ", b"TXT", 0x20);
    gone.raw[0] = 0xE5;
    let mut gone_fragment = fragment(0x41, units_of("gone", 0));
    gone_fragment.raw[0] = 0xE5;
    let names = all_names(vec![
        fragment(0x41, units_of("kept", 0)),
        gone_fragment,
        gone,
        short(b"KEPT    ", b"   ", 0x20),
        short(b"NEXT    ", b"   ", 0x20),
    ]);
    assert_eq!(names, vec!["kept", "NEXT"]);
}

#[test]
fn fragments_numbered_outside_the_buffer_are_left_out() {
    let names = all_names(vec![
        fragment(0x40, units_of("zero", 0)),
        fragment(0x15, units_of("twenty-one", 0)),
        fragment(0x1F, units_of("thirty-one", 0)),
        short(b"SHORT   ", b"   ", 0x20),
    ]);
    assert_eq!(names, vec!["SHORT"]);
    let mut entries = Vec::new();
    for ord in (1..=20u8).rev() {
        entries.push(fragment(ord, units_of("0123456789abc", 0)));
    }
    entries.push(short(b"LONGEST ", b"   ", 0x20));
    let names = all_names(entries);
    assert_eq!(names.len(), 1);
    assert_eq!(names[0].len(), 260);
    assert!(names[0].ends_with("abc0123456789abc"));
}

#[test]
fn long_name_is_forgotten_once_its_entry_is_given() {
    let names = all_names(vec![
        fragment(0x41, units_of("named", 0)),
        short(b"NAMED   ", b"   ", 0x20),
        short(b"BARE    ", b"   ", 0x20),
    ]);
    assert_eq!(names, vec!["named", "BARE"]);
}

#[test]
fn long_name_with_lone_surrogates_reads_them_as_replacement() {
    let mut units = [0u16; 13];
    units[0] = 0xDC00;
    units[1] = 0x0061;
    units[2] = 0xD83D;
    units[3] = 0xDE00;
    units[4] = 0xD83D;
    units[5] = 0x0062;
    units[6] = 0xD800;
    let names = all_names(vec![fragment(0x41, units), short(b"X       ", b"   ", 0x20)]);
    assert_eq!(names, vec!["\u{FFFD}a\u{1F600}\u{FFFD}b\u{FFFD}"]);
}

#[test]
fn file_entry_carries_its_size() {
    let mut e = short(b"SIZED   ", b"BIN", 0x20);
    e.raw[28] = 0x78;
    e.raw[29] = 0x56;
    e.raw[30] = 0x34;
    e.raw[31] = 0x12;
    let mut it = EntryIter::new(vec![e]);
    let entry = it.next().unwrap();
    assert_eq!(entry.as_file().unwrap().size(), 0x1234_5678);
    assert_eq!(entry.as_file().unwrap().read_ptr, 0);
}

#[test]
fn collect_gives_the_entries_that_are_left() {
    let records = vec![
        short(b"ONE     ", b"   ", 0x20),
        fragment(0x41, units_of("two", 0)),
        short(b"TWO     ", b"   ", 0x10),
        short(b"THREE   ", b"TXT", 0x20),
        end(),
        short(b"FOUR    ", b"   ", 0x20),
    ];
    let mut it = EntryIter::new(records.clone());
    let all = it.collect();
    let names: Vec<&str> = all.iter().map(|e| e.name()).collect();
    assert_eq!(names, vec!["ONE", "two", "THREE.TXT"]);
    assert!(all[1].as_dir().is_some());
    assert_eq!(it.index, 4);
    assert!(it.collect().is_empty());
    assert!(it.next().is_none());

    let mut it = EntryIter::new(records);
    assert_eq!(it.next().unwrap().name(), "ONE");
    let rest = it.collect();
    let names: Vec<&str> = rest.iter().map(|e| e.name()).collect();
    assert_eq!(names, vec!["two", "THREE.TXT"]);
}
