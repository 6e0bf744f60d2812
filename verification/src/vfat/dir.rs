//! Directories: the 32-byte records they are made of and the entries that
//! those records spell out.

use crate::error::{ErrorKind, IoError};
use crate::traits::BlockDevice;
use crate::util::{le_u16, le_u32, read_bytes, read_u16, read_u32};
use crate::vfat::cluster::{mask_cluster, Cluster};
use crate::vfat::entry::{Entry, EntryView};
use crate::vfat::file::{File, FileView};
use crate::vfat::metadata::{Attributes, Date, Metadata, Time, Timestamp};
use crate::vfat::names::{
    bytes_eq_ignore_ascii_case, is_utf8, long_text, name_matches, short_text,
};
pub use crate::vfat::names::{ascii_to_string, ucs_2_to_string};
use crate::vfat::model::{chain_read, lemma_chain_read_grow, Geometry, Outcome};
use crate::vfat::vfat::VFat;
use vstd::prelude::*;

verus! {

/// A directory: its name and where its records start.
#[derive(Debug)]
pub struct Dir {
    pub name: String,
    pub cluster: Cluster,
    pub metadata: Metadata,
}

/// What a directory handle holds, with the name as text.
pub struct DirView {
    pub name: Seq<char>,
    pub cluster: Cluster,
    pub metadata: Metadata,
}

/// What the handle of the root directory holds, where `cluster` is its
/// first cluster.
pub open spec fn root_view(cluster: Cluster) -> DirView {
    DirView { name: seq!['/'], cluster, metadata: Metadata::zero() }
}

impl View for Dir {
    type V = DirView;

    open spec fn view(&self) -> DirView {
        DirView { name: self.name@, cluster: self.cluster, metadata: self.metadata }
    }
}

/// A record read as a short-name entry.
#[derive(Copy, Clone, Debug)]
pub struct VFatRegularDirEntry {
    pub name: [u8; 8],
    pub ext: [u8; 3],
    pub attr: Attributes,
    pub reserved: u8,
    pub ctime_fine: u8,
    pub ctime: Time,
    pub cdate: Date,
    pub adate: Date,
    pub cluster_hi: u16,
    pub mtime: Time,
    pub mdate: Date,
    pub cluster_lo: u16,
    pub size: u32,
}

/// A record read as one fragment of a long name.
#[derive(Copy, Clone, Debug)]
pub struct VFatLfnDirEntry {
    pub seq_number: u8,
    pub name1: [u16; 5],
    pub attr: Attributes,
    pub lfn_type: u8,
    pub checksum: u8,
    pub name2: [u16; 6],
    pub zero_pad: u16,
    pub name3: [u16; 2],
}

/// A record read only as far as is needed to tell its kind.
#[derive(Copy, Clone, Debug)]
pub struct VFatUnknownDirEntry {
    pub id: u8,
    pub unknown1: [u8; 10],
    pub attr: u8,
    pub unknown2: [u8; 20],
}

/// One 32-byte record of a directory, as stored. Which of its three readings
/// applies is decided by its first byte and its attribute byte.
#[derive(Copy, Clone, Debug)]
pub struct VFatDirEntry {
    pub raw: [u8; 32],
}

impl View for VFatDirEntry {
    type V = Seq<u8>;

    open spec fn view(&self) -> Seq<u8> {
        self.raw@
    }
}

/// The first byte of a record marks the end of the directory.
pub open spec fn record_is_end(r: Seq<u8>) -> bool {
    r[0] == 0x00
}

/// The first byte of a record marks it as deleted.
pub open spec fn record_is_deleted(r: Seq<u8>) -> bool {
    r[0] == 0xE5
}

/// The attribute byte of a record marks it as a fragment of a long name.
pub open spec fn record_is_lfn(r: Seq<u8>) -> bool {
    r[11] == 0x0F
}

/// The attribute byte of a record marks it as a directory.
pub open spec fn record_is_dir(r: Seq<u8>) -> bool {
    r[11] & 0x10 != 0
}

/// The `k`-th of the 13 code units that a long-name record carries, which
/// lie in three runs of 5, 6 and 2 units.
pub open spec fn record_unit(r: Seq<u8>, k: int) -> u16 {
    if k < 5 {
        le_u16(r, 1 + 2 * k)
    } else if k < 11 {
        le_u16(r, 14 + 2 * (k - 5))
    } else {
        le_u16(r, 28 + 2 * (k - 11))
    }
}

/// The metadata that a short-name record carries. The disk keeps no time of
/// day for the last access.
pub open spec fn record_metadata(r: Seq<u8>) -> Metadata {
    Metadata {
        attr: Attributes(r[11]),
        created: Timestamp { date: Date(le_u16(r, 16)), time: Time(le_u16(r, 14)) },
        accessed: Timestamp { date: Date(le_u16(r, 18)), time: Time(0) },
        modified: Timestamp { date: Date(le_u16(r, 24)), time: Time(le_u16(r, 22)) },
    }
}

/// The first cluster that the two halves `hi` and `lo` name together.
pub open spec fn join_cluster(hi: u16, lo: u16) -> Cluster {
    Cluster(mask_cluster(((hi as u32) << 16) | (lo as u32)))
}

/// The first cluster that a short-name record names.
pub open spec fn record_cluster(r: Seq<u8>) -> Cluster {
    join_cluster(le_u16(r, 20), le_u16(r, 26))
}

/// The name that the 8-byte and 3-byte fields of a short-name record spell:
/// the two texts with a dot between them, or the first alone where the
/// second is empty.
pub open spec fn short_name(name: Seq<u8>, ext: Seq<u8>) -> Seq<char> {
    if short_text(ext).len() == 0 {
        short_text(name)
    } else {
        short_text(name) + seq!['.'] + short_text(ext)
    }
}

impl VFatUnknownDirEntry {
    /// Whether the record is marked as deleted.
    pub fn is_deleted(&self) -> (b: bool)
        ensures
            b == (self.id == 0xE5),
    {
        self.id == 0xE5
    }

    /// Whether the record marks the end of the directory.
    pub fn is_end(&self) -> (b: bool)
        ensures
            b == (self.id == 0x00),
    {
        self.id == 0x00
    }

    /// Whether the record is a fragment of a long name.
    pub fn is_lfn(&self) -> (b: bool)
        ensures
            b == (self.attr == 0x0F),
    {
        self.attr == 0x0F
    }
}

impl VFatRegularDirEntry {
    /// The fields are those that the record `r` stores.
    pub open spec fn decodes(self, r: Seq<u8>) -> bool {
        &&& self.name@ == r.subrange(0, 8)
        &&& self.ext@ == r.subrange(8, 11)
        &&& self.attr == Attributes(r[11])
        &&& self.reserved == r[12]
        &&& self.ctime_fine == r[13]
        &&& self.ctime == Time(le_u16(r, 14))
        &&& self.cdate == Date(le_u16(r, 16))
        &&& self.adate == Date(le_u16(r, 18))
        &&& self.cluster_hi == le_u16(r, 20)
        &&& self.mtime == Time(le_u16(r, 22))
        &&& self.mdate == Date(le_u16(r, 24))
        &&& self.cluster_lo == le_u16(r, 26)
        &&& self.size == le_u32(r, 28)
    }

    /// The metadata of the entry. The disk keeps no time of day for the last
    /// access, so that time is zero.
    pub fn metadata(&self) -> (m: Metadata)
        ensures
            m == (Metadata {
                attr: self.attr,
                created: Timestamp { date: self.cdate, time: self.ctime },
                accessed: Timestamp { date: self.adate, time: Time(0) },
                modified: Timestamp { date: self.mdate, time: self.mtime },
            }),
    {
        Metadata {
            attr: self.attr,
            created: Timestamp { date: self.cdate, time: self.ctime },
            accessed: Timestamp { date: self.adate, time: Time(0) },
            modified: Timestamp { date: self.mdate, time: self.mtime },
        }
    }

    /// The first cluster of the entry: the high half shifted over the low
    /// half, with the four reserved bits cleared.
    pub fn cluster(&self) -> (c: Cluster)
        ensures
            c == join_cluster(self.cluster_hi, self.cluster_lo),
            c.0 == (((self.cluster_hi as u32) << 16) | (self.cluster_lo as u32)) & 0x0FFF_FFFF,
            c.wf(),
    {
        let cluster: u32 = ((self.cluster_hi as u32) << 16) | self.cluster_lo as u32;
        Cluster::from(cluster)
    }

    /// Whether the entry is a directory.
    pub fn is_dir(&self) -> (b: bool)
        ensures
            b == (self.attr.0 & 0x10 != 0),
    {
        self.attr.0 & 0x10 != 0
    }
}

impl VFatLfnDirEntry {
    /// The fields are those that the record `r` stores.
    pub open spec fn decodes(self, r: Seq<u8>) -> bool {
        &&& self.seq_number == r[0]
        &&& self.name1@.len() == 5
        &&& forall|k: int| 0 <= k < 5 ==> #[trigger] self.name1@[k] == record_unit(r, k)
        &&& self.attr == Attributes(r[11])
        &&& self.lfn_type == r[12]
        &&& self.checksum == r[13]
        &&& self.name2@.len() == 6
        &&& forall|k: int| 0 <= k < 6 ==> #[trigger] self.name2@[k] == record_unit(r, 5 + k)
        &&& self.zero_pad == le_u16(r, 26)
        &&& self.name3@.len() == 2
        &&& forall|k: int| 0 <= k < 2 ==> #[trigger] self.name3@[k] == record_unit(r, 11 + k)
    }

    /// Whether the fragment is marked as deleted.
    pub fn is_deleted(&self) -> (b: bool)
        ensures
            b == (self.seq_number == 0xE5),
    {
        self.seq_number == 0xE5
    }
}

impl VFatDirEntry {
    /// The record read only as far as tells its kind.
    pub fn unknown(&self) -> (e: VFatUnknownDirEntry)
        ensures
            e.id == self@[0],
            e.unknown1@ == self@.subrange(1, 11),
            e.attr == self@[11],
            e.unknown2@ == self@.subrange(12, 32),
    {
        let mut unknown1 = [0u8; 10];
        let mut unknown2 = [0u8; 20];
        read_bytes(&mut unknown1, &self.raw, 1);
        read_bytes(&mut unknown2, &self.raw, 12);
        VFatUnknownDirEntry { id: self.raw[0], unknown1, attr: self.raw[11], unknown2 }
    }

    /// The record read as a short-name entry.
    pub fn regular(&self) -> (e: VFatRegularDirEntry)
        ensures
            e.decodes(self@),
    {
        let mut name = [0u8; 8];
        let mut ext = [0u8; 3];
        read_bytes(&mut name, &self.raw, 0);
        read_bytes(&mut ext, &self.raw, 8);
        VFatRegularDirEntry {
            name,
            ext,
            attr: Attributes(self.raw[11]),
            reserved: self.raw[12],
            ctime_fine: self.raw[13],
            ctime: Time(read_u16(&self.raw, 14)),
            cdate: Date(read_u16(&self.raw, 16)),
            adate: Date(read_u16(&self.raw, 18)),
            cluster_hi: read_u16(&self.raw, 20),
            mtime: Time(read_u16(&self.raw, 22)),
            mdate: Date(read_u16(&self.raw, 24)),
            cluster_lo: read_u16(&self.raw, 26),
            size: read_u32(&self.raw, 28),
        }
    }

    /// The record read as a fragment of a long name.
    pub fn long_filename(&self) -> (e: VFatLfnDirEntry)
        ensures
            e.decodes(self@),
    {
        let r = &self.raw;
        VFatLfnDirEntry {
            seq_number: r[0],
            name1: [
                read_u16(r, 1),
                read_u16(r, 3),
                read_u16(r, 5),
                read_u16(r, 7),
                read_u16(r, 9),
            ],
            attr: Attributes(r[11]),
            lfn_type: r[12],
            checksum: r[13],
            name2: [
                read_u16(r, 14),
                read_u16(r, 16),
                read_u16(r, 18),
                read_u16(r, 20),
                read_u16(r, 22),
                read_u16(r, 24),
            ],
            zero_pad: read_u16(r, 26),
            name3: [read_u16(r, 28), read_u16(r, 30)],
        }
    }
}

/// The long name gathered from the fragments met so far: a buffer of 20
/// fragments of 13 code units each, and whether any fragment was stored.
pub struct LongName {
    pub units: Seq<u16>,
    pub found: bool,
}

/// The 13 code units that a long-name record carries.
pub open spec fn record_units(r: Seq<u8>) -> Seq<u16> {
    Seq::new(13, |k: int| record_unit(r, k))
}

/// The buffer `units` with the fragment `frag` stored at the place of the
/// fragment numbered `ord`, counting from 1.
pub open spec fn place_fragment(units: Seq<u16>, ord: int, frag: Seq<u16>) -> Seq<u16> {
    Seq::new(
        260,
        |i: int|
            if 13 * (ord - 1) <= i < 13 * ord {
                frag[i - 13 * (ord - 1)]
            } else {
                units[i]
            },
    )
}

impl LongName {
    /// The buffer before any fragment is stored: all zero.
    pub open spec fn empty() -> LongName {
        LongName { units: Seq::new(260, |i: int| 0u16), found: false }
    }

    /// The buffer after the long-name record `r` was met. The low five bits
    /// of its first byte number the fragment from 1; a record numbered 0 or
    /// above 20 has no place in the buffer and leaves it as it was.
    pub open spec fn absorb(self, r: Seq<u8>) -> LongName {
        let ord = (r[0] & 0x1F) as int;
        if 1 <= ord <= 20 {
            LongName { units: place_fragment(self.units, ord, record_units(r)), found: true }
        } else {
            self
        }
    }
}

/// The entry that the short-name record `r` stands for, named by the long
/// name gathered before it if there is one and by its own fields otherwise.
pub open spec fn record_entry(r: Seq<u8>, acc: LongName) -> EntryView {
    let name = if acc.found {
        long_text(acc.units)
    } else {
        short_name(r.subrange(0, 8), r.subrange(8, 11))
    };
    if record_is_dir(r) {
        EntryView::Dir(DirView { name, cluster: record_cluster(r), metadata: record_metadata(r) })
    } else {
        EntryView::File(
            FileView {
                name,
                cluster: record_cluster(r),
                metadata: record_metadata(r),
                size: le_u32(r, 28) as usize,
                read_ptr: 0,
            },
        )
    }
}

/// Reading on from record `index` with the long name `acc` gathered so far:
/// the next entry, if the directory holds one more, and the index at which
/// reading stops. A record starting with 0x00 ends the directory and is never
/// passed; one starting with 0xE5 is skipped; a long-name record adds its
/// fragment; any other record is a short-name entry and is given out.
pub open spec fn scan(records: Seq<Seq<u8>>, index: int, acc: LongName) -> (Option<EntryView>, int)
    decreases records.len() - index,
{
    if index < 0 || index >= records.len() {
        (None, index)
    } else if record_is_end(records[index]) {
        (None, index)
    } else if record_is_deleted(records[index]) {
        scan(records, index + 1, acc)
    } else if record_is_lfn(records[index]) {
        scan(records, index + 1, acc.absorb(records[index]))
    } else {
        (Some(record_entry(records[index], acc)), index + 1)
    }
}

/// A walk over the records of a directory that gives out its entries one by
/// one.
#[derive(Debug)]
pub struct EntryIter {
    pub entries: Vec<VFatDirEntry>,
    pub index: usize,
}

/// The records that `entries` holds, each as its 32 bytes.
pub open spec fn records_of(entries: Seq<VFatDirEntry>) -> Seq<Seq<u8>> {
    Seq::new(entries.len(), |i: int| entries[i]@)
}

impl VFatLfnDirEntry {
    /// The 13 code units of the fragment, in the order of the name.
    pub open spec fn units(self) -> Seq<u16> {
        self.name1@ + self.name2@ + self.name3@
    }

    /// Stores the fragment in the buffer `acc` at the place that its number
    /// `ord` gives it.
    fn store(&self, acc: &mut [u16; 260], ord: u8)
        requires
            1 <= ord <= 20,
        ensures
            final(acc)@ == place_fragment(old(acc)@, ord as int, self.units()),
    {
        let pos: usize = (ord as usize - 1) * 13;
        let mut k: usize = 0;
        while k < 13
            invariant
                0 <= k <= 13,
                pos == 13 * (ord - 1),
                1 <= ord <= 20,
                forall|i: int| 0 <= i < 260 && !(pos <= i < pos + k) ==> acc@[i] == old(acc)@[i],
                forall|i: int| pos <= i < pos + k ==> acc@[i] == self.units()[i - pos],
            decreases 13 - k,
        {
            let u: u16 = if k < 5 {
                self.name1[k]
            } else if k < 11 {
                self.name2[k - 5]
            } else {
                self.name3[k - 11]
            };
            acc[pos + k] = u;
            k += 1;
        }
        assert(acc@ =~= place_fragment(old(acc)@, ord as int, self.units()));
    }
}

/// A fragment that was read from the record `r` carries the units of `r`.
proof fn lemma_decoded_units(e: VFatLfnDirEntry, r: Seq<u8>)
    requires
        e.decodes(r),
    ensures
        e.units() == record_units(r),
{
    assert(e.units() =~= record_units(r));
}

impl EntryIter {
    /// The records that the walk goes over.
    pub open spec fn records(&self) -> Seq<Seq<u8>> {
        records_of(self.entries@)
    }

    /// The walk stands at a record or just behind the last.
    pub open spec fn wf(&self) -> bool {
        self.index <= self.entries@.len()
    }

    /// A walk over `entries` from the first record on.
    pub fn new(entries: Vec<VFatDirEntry>) -> (it: EntryIter)
        ensures
            it.entries == entries,
            it.index == 0,
            it.wf(),
    {
        EntryIter { entries, index: 0 }
    }

    /// The next entry of the directory, or `None` when the walk has reached
    /// the record that ends the directory, or the last record. Once it has
    /// said `None` the walk stays where it is.
    pub fn next(&mut self) -> (r: Option<Entry>)
        requires
            old(self).wf(),
        ensures
            final(self).wf(),
            final(self).entries == old(self).entries,
            old(self).index <= final(self).index,
            r is Some ==> old(self).index < final(self).index,
            r matches Some(e) ==> e.wf(),
            final(self).index == scan(old(self).records(), old(self).index as int, LongName::empty()).1,
            match r {
                Some(e) => scan(old(self).records(), old(self).index as int, LongName::empty()).0
                    == Some(e@),
                None => scan(old(self).records(), old(self).index as int, LongName::empty()).0
                    is None,
            },
    {
        let mut lfn_name = [0u16; 260];
        let mut lfn_found = false;
        let ghost records = self.records();
        assert(lfn_name@ =~= LongName::empty().units);
        while self.index < self.entries.len()
            invariant
                self.wf(),
                self.entries == old(self).entries,
                records == old(self).records(),
                old(self).index <= self.index,
                scan(records, old(self).index as int, LongName::empty()) == scan(
                    records,
                    self.index as int,
                    (LongName { units: lfn_name@, found: lfn_found }),
                ),
            decreases self.entries.len() - self.index,
        {
            let entry: VFatDirEntry = self.entries[self.index];
            let unknown = entry.unknown();
            assert(records[self.index as int] == entry@);
            if unknown.is_end() {
                return None;
            } else if unknown.is_deleted() {
                self.index += 1;
            } else if unknown.is_lfn() {
                let lfn = entry.long_filename();
                let ord: u8 = lfn.seq_number & 0x1F;
                if 1 <= ord && ord <= 20 {
                    proof {
                        lemma_decoded_units(lfn, entry@);
                    }
                    lfn.store(&mut lfn_name, ord);
                    lfn_found = true;
                }
                self.index += 1;
            } else {
                let regular = entry.regular();
                let name = if lfn_found {
                    ucs_2_to_string(&lfn_name)
                } else {
                    let mut s = match ascii_to_string(&regular.name) {
                        Some(s) => s,
                        None => String::new(),
                    };
                    assert(s@ =~= short_text(regular.name@));
                    match ascii_to_string(&regular.ext) {
                        None => {},
                        Some(ext) => {
                            s.push('.');
                            s.append(ext.as_str());
                        },
                    }
                    assert(s@ =~= short_name(regular.name@, regular.ext@));
                    s
                };
                let metadata = regular.metadata();
                let cluster = regular.cluster();
                self.index += 1;
                if regular.is_dir() {
                    return Some(Entry::Dir(Dir { name, cluster, metadata }));
                } else {
                    return Some(
                        Entry::File(
                            File { name, cluster, metadata, size: regular.size as usize, read_ptr: 0 },
                        ),
                    );
                }
            }
        }
        None
    }
}

/// Where reading has found nothing more, it finds nothing more when it is
/// taken up again from where it stopped, and stays there.
pub proof fn lemma_scan_none_stays(records: Seq<Seq<u8>>, index: int, acc: LongName, again: LongName)
    requires
        0 <= index <= records.len(),
        scan(records, index, acc).0 is None,
    ensures
        scan(records, scan(records, index, acc).1, again) == (
            None::<EntryView>,
            scan(records, index, acc).1,
        ),
    decreases records.len() - index,
{
    if index < records.len() && !record_is_end(records[index]) {
        if record_is_deleted(records[index]) {
            lemma_scan_none_stays(records, index + 1, acc, again);
        } else if record_is_lfn(records[index]) {
            lemma_scan_none_stays(records, index + 1, acc.absorb(records[index]), again);
        }
    }
}

/// The views of the entries `entries`, in order.
pub open spec fn entry_views(entries: Seq<Entry>) -> Seq<EntryView> {
    Seq::new(entries.len(), |i: int| entries[i]@)
}

impl EntryIter {
    /// All the entries that are left in the walk, in order. Afterwards the
    /// walk is at its end.
    pub fn collect(&mut self) -> (all: Vec<Entry>)
        requires
            old(self).wf(),
        ensures
            final(self).wf(),
            final(self).entries == old(self).entries,
            entry_views(all@) == entries_from(old(self).records(), old(self).index as int),
            entries_from(final(self).records(), final(self).index as int).len() == 0,
    {
        let mut all: Vec<Entry> = Vec::new();
        let ghost records = self.records();
        assert(entry_views(all@) =~= Seq::<EntryView>::empty());
        loop
            invariant
                self.wf(),
                self.entries == old(self).entries,
                records == self.records(),
                entries_from(records, old(self).index as int) == entry_views(all@) + entries_from(
                    records,
                    self.index as int,
                ),
            decreases self.entries@.len() - self.index,
        {
            let ghost before = self.index as int;
            let ghost views = entry_views(all@);
            proof {
                lemma_scan_moves(records, before, LongName::empty());
            }
            match self.next() {
                None => {
                    proof {
                        lemma_scan_none_stays(records, before, LongName::empty(), LongName::empty());
                    }
                    assert(entries_from(records, self.index as int) =~= Seq::<EntryView>::empty());
                    assert(views + Seq::<EntryView>::empty() =~= views);
                    return all;
                },
                Some(entry) => {
                    all.push(entry);
                    assert(entry_views(all@) =~= views + seq![entry@]);
                    assert(views + (seq![entry@] + entries_from(records, self.index as int)) =~= (
                    views + seq![entry@]) + entries_from(records, self.index as int));
                },
            }
        }
    }
}

/// The records that the bytes of a directory are made of: one for every
/// whole 32 bytes.
pub open spec fn raw_records(bytes: Seq<u8>) -> Seq<Seq<u8>> {
    Seq::new((bytes.len() / 32) as nat, |i: int| bytes.subrange(32 * i, 32 * i + 32))
}

/// Cuts the bytes of a directory into its records.
pub fn records_from_bytes(bytes: &[u8]) -> (entries: Vec<VFatDirEntry>)
    ensures
        records_of(entries@) == raw_records(bytes@),
{
    let count: usize = bytes.len() / 32;
    let mut entries: Vec<VFatDirEntry> = Vec::new();
    let mut i: usize = 0;
    while i < count
        invariant
            0 <= i <= count,
            count == bytes.len() / 32,
            entries@.len() == i,
            forall|j: int| 0 <= j < i ==> (#[trigger] entries@[j])@ == bytes@.subrange(32 * j, 32 * j + 32),
        decreases count - i,
    {
        let mut raw = [0u8; 32];
        read_bytes(&mut raw, bytes, 32 * i);
        entries.push(VFatDirEntry { raw });
        i += 1;
    }
    assert(records_of(entries@) =~= raw_records(bytes@));
    entries
}

/// Reading on from record `index` never goes back, never passes the last
/// record, and moves forward whenever it finds an entry.
pub proof fn lemma_scan_moves(records: Seq<Seq<u8>>, index: int, acc: LongName)
    requires
        0 <= index <= records.len(),
    ensures
        index <= scan(records, index, acc).1 <= records.len(),
        scan(records, index, acc).0 is Some ==> index < scan(records, index, acc).1,
    decreases records.len() - index,
{
    if index < records.len() && !record_is_end(records[index]) {
        if record_is_deleted(records[index]) {
            lemma_scan_moves(records, index + 1, acc);
        } else if record_is_lfn(records[index]) {
            lemma_scan_moves(records, index + 1, acc.absorb(records[index]));
        }
    }
}

/// The entries that a walk from record `index` on gives out, in order.
pub open spec fn entries_from(records: Seq<Seq<u8>>, index: int) -> Seq<EntryView>
    decreases records.len() - index,
{
    match scan(records, index, LongName::empty()) {
        (Some(e), next) => if index < next <= records.len() {
            seq![e] + entries_from(records, next)
        } else {
            seq![e]
        },
        (None, _) => Seq::empty(),
    }
}

/// Reading never passes a record that starts with 0x00, and the records
/// behind the first such record change nothing in what is read.
pub proof fn lemma_scan_stops_at_end(records: Seq<Seq<u8>>, index: int, acc: LongName, end: int)
    requires
        0 <= index <= end < records.len(),
        record_is_end(records[end]),
    ensures
        scan(records, index, acc).1 <= end,
        scan(records, index, acc) == scan(records.take(end), index, acc),
    decreases end - index,
{
    if index < end && !record_is_end(records[index]) {
        if record_is_deleted(records[index]) {
            lemma_scan_stops_at_end(records, index + 1, acc, end);
        } else if record_is_lfn(records[index]) {
            lemma_scan_stops_at_end(records, index + 1, acc.absorb(records[index]), end);
        }
    }
}

/// The enumeration of a directory ends at the first record that starts with
/// 0x00: every entry comes from the records before it, and the records
/// behind it are never looked at.
pub proof fn lemma_entries_stop_at_end(records: Seq<Seq<u8>>, index: int, end: int)
    requires
        0 <= index <= end < records.len(),
        record_is_end(records[end]),
    ensures
        entries_from(records, index) == entries_from(records.take(end), index),
    decreases end - index,
{
    lemma_scan_stops_at_end(records, index, LongName::empty(), end);
    lemma_scan_moves(records, index, LongName::empty());
    let (found, next) = scan(records, index, LongName::empty());
    if found is Some {
        assert(index < next <= end);
        lemma_entries_stop_at_end(records, next, end);
    }
}

/// The first entry from record `index` on whose name answers `query`.
pub open spec fn lookup(records: Seq<Seq<u8>>, index: int, query: Seq<u8>) -> Option<EntryView>
    decreases records.len() - index,
{
    match scan(records, index, LongName::empty()) {
        (Some(e), next) => if name_matches(e.name(), query) {
            Some(e)
        } else if index < next <= records.len() {
            lookup(records, next, query)
        } else {
            None
        },
        (None, _) => None,
    }
}

/// The error for a query that is not well-formed UTF-8.
pub open spec fn invalid_utf8_error() -> IoError {
    IoError { kind: ErrorKind::InvalidInput, message: "Invalid UTF-8" }
}

/// The error for a query that no entry answers.
pub open spec fn entry_not_found_error() -> IoError {
    IoError { kind: ErrorKind::NotFound, message: "Entry not found" }
}

/// What reading the records of the directory that starts at cluster `dir`
/// comes to.
pub open spec fn dir_records(disk: Map<u64, Seq<u8>>, g: Geometry, dir: Cluster) -> Outcome<
    Seq<Seq<u8>>,
> {
    match chain_read(disk, g, dir, g.max_chain(), usize::MAX as int) {
        Outcome::Done(bytes) => Outcome::Done(raw_records(bytes)),
        Outcome::Failed(e) => Outcome::Failed(e),
        Outcome::Missing => Outcome::Missing,
    }
}

/// What looking for `query` in the directory that starts at cluster `dir`
/// comes to: a query that is not UTF-8 is refused before anything is read,
/// and a query that no entry answers is not found.
pub open spec fn find_in(disk: Map<u64, Seq<u8>>, g: Geometry, dir: Cluster, query: Seq<u8>) -> Outcome<
    EntryView,
> {
    if !vstd::utf8::valid_utf8(query) {
        Outcome::Failed(invalid_utf8_error())
    } else {
        match dir_records(disk, g, dir) {
            Outcome::Done(records) => match lookup(records, 0, query) {
                Some(e) => Outcome::Done(e),
                None => Outcome::Failed(entry_not_found_error()),
            },
            Outcome::Failed(e) => Outcome::Failed(e),
            Outcome::Missing => Outcome::Missing,
        }
    }
}

/// What a disk already settled for a lookup, every disk that knows more
/// settles in the same way.
pub proof fn lemma_find_in_grow(
    small: Map<u64, Seq<u8>>,
    large: Map<u64, Seq<u8>>,
    g: Geometry,
    dir: Cluster,
    query: Seq<u8>,
)
    requires
        small.submap_of(large),
        !(find_in(small, g, dir, query) is Missing),
    ensures
        find_in(large, g, dir, query) == find_in(small, g, dir, query),
{
    if vstd::utf8::valid_utf8(query) {
        lemma_chain_read_grow(small, large, g, dir, g.max_chain(), usize::MAX as int);
    }
}

impl Dir {
    /// The root directory of `vfat`, which is named "/" and has no metadata
    /// of its own.
    pub fn root<D: BlockDevice>(vfat: &VFat<D>) -> (dir: Dir)
        ensures
            dir@ == root_view(vfat.root_dir_cluster),
    {
        let name = "/".to_owned();
        proof {
            reveal_strlit("/");
            assert(name@ =~= seq!['/']);
        }
        Dir { name, cluster: vfat.root_dir_cluster, metadata: Metadata::default() }
    }

    /// A walk over the entries of the directory, whose records are read
    /// from the volume in one go.
    pub fn entries<D: BlockDevice>(&self, vfat: &mut VFat<D>) -> (r: Result<EntryIter, IoError>)
        requires
            old(vfat).wf(),
        ensures
            final(vfat).grown_from(old(vfat)),
            !(dir_records(old(vfat).disk(), old(vfat).geometry(), self.cluster) is Missing)
                ==> final(vfat).disk() == old(vfat).disk(),
            match r {
                Ok(it) => {
                    &&& it.wf()
                    &&& it.index == 0
                    &&& dir_records(final(vfat).disk(), final(vfat).geometry(), self.cluster)
                        == Outcome::Done(it.records())
                },
                Err(e) => match dir_records(
                    final(vfat).disk(),
                    final(vfat).geometry(),
                    self.cluster,
                ) {
                    Outcome::Failed(x) => e == x,
                    Outcome::Missing => true,
                    Outcome::Done(_) => false,
                },
            },
    {
        let mut buf: Vec<u8> = Vec::new();
        match vfat.read_chain(self.cluster, &mut buf) {
            Ok(_) => {
                assert(buf@.subrange(0, buf@.len() as int) =~= buf@);
                Ok(EntryIter::new(records_from_bytes(buf.as_slice())))
            },
            Err(e) => Err(e),
        }
    }

    /// Finds the entry named `name` in the directory. Names are compared
    /// without regard to the case of ASCII letters, and the first entry
    /// that answers is given.
    ///
    /// Fails with `NotFound` where no entry answers, and with `InvalidInput`
    /// where `name` is not well-formed UTF-8.
    pub fn find<D: BlockDevice>(&self, vfat: &mut VFat<D>, name: &[u8]) -> (r: Result<
        Entry,
        IoError,
    >)
        requires
            old(vfat).wf(),
        ensures
            final(vfat).grown_from(old(vfat)),
            !(find_in(old(vfat).disk(), old(vfat).geometry(), self.cluster, name@) is Missing)
                ==> final(vfat).disk() == old(vfat).disk(),
            match r {
                Ok(e) => {
                    &&& e.wf()
                    &&& name_matches(e@.name(), name@)
                    &&& find_in(final(vfat).disk(), final(vfat).geometry(), self.cluster, name@)
                        == Outcome::Done(e@)
                },
                Err(e) => match find_in(
                    final(vfat).disk(),
                    final(vfat).geometry(),
                    self.cluster,
                    name@,
                ) {
                    Outcome::Failed(x) => e == x,
                    Outcome::Missing => true,
                    Outcome::Done(_) => false,
                },
            },
    {
        if !is_utf8(name) {
            return Err(IoError::new(ErrorKind::InvalidInput, "Invalid UTF-8"));
        }
        let mut it = match self.entries(vfat) {
            Ok(it) => it,
            Err(e) => {
                return Err(e);
            },
        };
        let ghost records = it.records();
        loop
            invariant
                it.wf(),
                it.records() == records,
                lookup(records, 0, name@) == lookup(records, it.index as int, name@),
                vstd::utf8::valid_utf8(name@),
                vfat.grown_from(old(vfat)),
                dir_records(vfat.disk(), vfat.geometry(), self.cluster) == Outcome::Done(records),
                !(find_in(old(vfat).disk(), old(vfat).geometry(), self.cluster, name@) is Missing)
                    ==> vfat.disk() == old(vfat).disk(),
            decreases it.entries@.len() - it.index,
        {
            proof {
                lemma_scan_moves(records, it.index as int, LongName::empty());
            }
            match it.next() {
                None => {
                    return Err(IoError::new(ErrorKind::NotFound, "Entry not found"));
                },
                Some(entry) => {
                    if bytes_eq_ignore_ascii_case(entry.name().as_bytes(), name) {
                        return Ok(entry);
                    }
                },
            }
        }
    }

    /// The name of the directory.
    pub fn name(&self) -> (n: &str)
        ensures
            n@ == self.name@,
    {
        self.name.as_str()
    }

    /// The metadata of the directory.
    pub fn metadata(&self) -> (m: &Metadata)
        ensures
            *m == self.metadata,
    {
        &self.metadata
    }
}

} // verus!
