//! The volume as mathematics: what reading the allocation table, a cluster
//! or a chain of clusters comes to on a disk of which some sectors are
//! known.

use crate::error::{ErrorKind, IoError};
use crate::util::le_u32;
use crate::vfat::cluster::{bad_cluster_error, Cluster};
use crate::vfat::fat::{status_of, Status};
use vstd::prelude::*;

verus! {

/// The numbers that place the allocation table and the clusters on the
/// device.
pub struct Geometry {
    pub bytes_per_sector: u16,
    pub sectors_per_cluster: u8,
    pub sectors_per_fat: u32,
    pub fat_start_sector: u64,
    pub data_start_sector: u64,
}

/// What reading from a disk of which only some sectors are known comes to:
/// a value, a failure that the known sectors already settle, or a need for a
/// sector that is not known yet.
pub enum Outcome<T> {
    Done(T),
    Failed(IoError),
    Missing,
}

impl Geometry {
    /// Sectors have a size in the supported range, and the table and the
    /// data region lie where every sector of theirs has a 64-bit index.
    pub open spec fn wf(self) -> bool {
        &&& 128 <= self.bytes_per_sector <= 4096
        &&& self.fat_start_sector <= 0xFFFF_FFFF_FFFF
        &&& self.data_start_sector <= 0xFFFF_FFFF_FFFF
    }

    /// How many slots of the allocation table one sector holds.
    pub open spec fn entries_per_sector(self) -> int {
        self.bytes_per_sector as int / 4
    }

    /// The sector that holds the slot of cluster `c`.
    pub open spec fn fat_sector(self, c: Cluster) -> u64 {
        (self.fat_start_sector + c.0 as int / self.entries_per_sector()) as u64
    }

    /// Where in its sector the slot of cluster `c` starts.
    pub open spec fn fat_offset(self, c: Cluster) -> int {
        (c.0 as int % self.entries_per_sector()) * 4
    }

    /// The number of bytes in a cluster.
    pub open spec fn cluster_bytes(self) -> int {
        self.bytes_per_sector as int * self.sectors_per_cluster as int
    }

    /// The first sector of the data cluster `c`, which is at least 2.
    pub open spec fn first_sector(self, c: Cluster) -> int {
        self.data_start_sector + (c.0 as int - 2) * self.sectors_per_cluster as int
    }

    /// How many sectors a read of a cluster from its sector `offset` on into
    /// a buffer of `room` bytes takes: those that are left in the cluster, or
    /// as many whole sectors as the buffer holds, whichever is less.
    pub open spec fn sectors_read(self, offset: int, room: int) -> int {
        let left = self.sectors_per_cluster as int - offset;
        let fit = room / self.bytes_per_sector as int;
        if left <= 0 {
            0
        } else if fit < left {
            fit
        } else {
            left
        }
    }
}

/// The slot of cluster `c` in the allocation table, as stored.
pub open spec fn fat_slot(disk: Map<u64, Seq<u8>>, g: Geometry, c: Cluster) -> Outcome<u32> {
    if disk.contains_key(g.fat_sector(c)) {
        Outcome::Done(le_u32(disk[g.fat_sector(c)], g.fat_offset(c)))
    } else {
        Outcome::Missing
    }
}

/// The bytes of the `count` sectors from sector `first` on, in order.
pub open spec fn sectors_bytes(disk: Map<u64, Seq<u8>>, first: int, count: int) -> Outcome<Seq<u8>>
    decreases count,
{
    if count <= 0 {
        Outcome::Done(Seq::empty())
    } else {
        match sectors_bytes(disk, first, count - 1) {
            Outcome::Done(bytes) => if disk.contains_key((first + count - 1) as u64) {
                Outcome::Done(bytes + disk[(first + count - 1) as u64])
            } else {
                Outcome::Missing
            },
            _ => Outcome::Missing,
        }
    }
}

/// What a read of cluster `c` from its sector `offset` on into a buffer of
/// `room` bytes comes to. Clusters 0 and 1 hold no data.
pub open spec fn cluster_read(
    disk: Map<u64, Seq<u8>>,
    g: Geometry,
    c: Cluster,
    offset: int,
    room: int,
) -> Outcome<Seq<u8>> {
    if c.0 < 2 {
        Outcome::Failed(bad_cluster_error())
    } else {
        sectors_bytes(disk, g.first_sector(c) + offset, g.sectors_read(offset, room))
    }
}

/// Sectors that a larger disk knows beside those of a smaller one change
/// nothing in what the smaller one already gave.
pub proof fn lemma_sectors_bytes_grow(
    small: Map<u64, Seq<u8>>,
    large: Map<u64, Seq<u8>>,
    first: int,
    count: int,
)
    requires
        small.submap_of(large),
        sectors_bytes(small, first, count) is Done,
    ensures
        sectors_bytes(large, first, count) == sectors_bytes(small, first, count),
    decreases count,
{
    if count > 0 {
        lemma_sectors_bytes_grow(small, large, first, count - 1);
    }
}

/// Where one of the sectors is not known the bytes are not known.
pub proof fn lemma_sectors_bytes_missing(disk: Map<u64, Seq<u8>>, first: int, count: int, i: int)
    requires
        0 <= i < count,
        !disk.contains_key((first + i) as u64),
    ensures
        sectors_bytes(disk, first, count) is Missing,
    decreases count,
{
    if i < count - 1 {
        lemma_sectors_bytes_missing(disk, first, count - 1, i);
    }
}

/// Sectors never give a failure of their own, and whole sectors of one size
/// add up.
pub proof fn lemma_sectors_bytes_len(disk: Map<u64, Seq<u8>>, first: int, count: int, size: int)
    requires
        forall|n: u64| #[trigger] disk.contains_key(n) ==> disk[n].len() == size,
        0 <= count,
    ensures
        !(sectors_bytes(disk, first, count) is Failed),
        sectors_bytes(disk, first, count) matches Outcome::Done(bytes) ==> bytes.len() == count
            * size,
    decreases count,
{
    if count > 0 {
        lemma_sectors_bytes_len(disk, first, count - 1, size);
        assert(count * size == (count - 1) * size + size) by (nonlinear_arith);
        let last = (first + count - 1) as u64;
        if disk.contains_key(last) {
            assert(disk[last].len() == size);
        }
    } else {
        assert(count * size == 0) by (nonlinear_arith)
            requires
                count == 0,
        ;
    }
}

/// The error for a chain that runs into an unused cluster.
pub open spec fn free_cluster_error() -> IoError {
    IoError { kind: ErrorKind::Other, message: "can't read from free sector" }
}

/// The error for a chain that runs into a defective cluster.
pub open spec fn bad_sector_error() -> IoError {
    IoError { kind: ErrorKind::Other, message: "can't read from bad sector" }
}

/// The error for a chain that runs into a cluster that is set aside.
pub open spec fn reserved_cluster_error() -> IoError {
    IoError { kind: ErrorKind::Other, message: "can't read from reserved sector" }
}

/// The error for a chain with more clusters than the table has slots, as a
/// chain that runs in a circle has.
pub open spec fn chain_too_long_error() -> IoError {
    IoError { kind: ErrorKind::Other, message: "cluster chain does not end" }
}

/// The error for a chain whose bytes the buffer cannot take.
pub open spec fn chain_too_large_error() -> IoError {
    IoError { kind: ErrorKind::Other, message: "cluster chain too large for memory" }
}

impl Geometry {
    /// How many clusters a chain may have: as many as the table has slots.
    pub open spec fn max_chain(self) -> nat {
        (self.sectors_per_fat as int * self.entries_per_sector()) as nat
    }
}

/// `bytes` followed by what `rest` comes to, if it comes to anything.
pub open spec fn prepend(bytes: Seq<u8>, rest: Outcome<Seq<u8>>) -> Outcome<Seq<u8>> {
    match rest {
        Outcome::Done(more) => Outcome::Done(bytes + more),
        other => other,
    }
}

/// What adding the whole of cluster `c` to a buffer that can grow by `room`
/// bytes comes to.
pub open spec fn cluster_append(disk: Map<u64, Seq<u8>>, g: Geometry, c: Cluster, room: int) -> Outcome<
    Seq<u8>,
> {
    if g.cluster_bytes() > room {
        Outcome::Failed(chain_too_large_error())
    } else {
        cluster_read(disk, g, c, 0, g.cluster_bytes())
    }
}

/// What reading the chain that starts at cluster `c` comes to, for a chain
/// of at most `fuel` clusters and a buffer that can grow by `room` bytes:
/// the bytes of its clusters in the order of the chain, the last of them the
/// cluster whose slot ends the chain. A slot that is free, reserved or bad
/// breaks the chain.
pub open spec fn chain_read(
    disk: Map<u64, Seq<u8>>,
    g: Geometry,
    c: Cluster,
    fuel: nat,
    room: int,
) -> Outcome<Seq<u8>>
    decreases fuel,
{
    if fuel == 0 {
        Outcome::Failed(chain_too_long_error())
    } else {
        match fat_slot(disk, g, c) {
            Outcome::Missing => Outcome::Missing,
            Outcome::Failed(e) => Outcome::Failed(e),
            Outcome::Done(raw) => match status_of(raw) {
                Status::Data(next) => match cluster_append(disk, g, c, room) {
                    Outcome::Done(bytes) => prepend(
                        bytes,
                        chain_read(disk, g, next, (fuel - 1) as nat, room - g.cluster_bytes()),
                    ),
                    other => other,
                },
                Status::Eoc(_) => cluster_append(disk, g, c, room),
                Status::Free => Outcome::Failed(free_cluster_error()),
                Status::Bad => Outcome::Failed(bad_sector_error()),
                Status::Reserved => Outcome::Failed(reserved_cluster_error()),
            },
        }
    }
}

/// On every disk that knows at least the sectors of `known`, reading the
/// chain from `start` comes to `appended` followed by what reading on from
/// `cluster` comes to.
pub open spec fn chain_resumes(
    known: Map<u64, Seq<u8>>,
    g: Geometry,
    start: Cluster,
    room: int,
    appended: Seq<u8>,
    cluster: Cluster,
    fuel: nat,
) -> bool {
    forall|d: Map<u64, Seq<u8>>| #[trigger]
        known.submap_of(d) ==> chain_read(d, g, start, g.max_chain(), room) == prepend(
            appended,
            chain_read(d, g, cluster, fuel, room - appended.len()),
        )
}

/// A whole cluster that was added is as long as the geometry says.
pub proof fn lemma_cluster_append_len(disk: Map<u64, Seq<u8>>, g: Geometry, c: Cluster, room: int)
    requires
        g.wf(),
        forall|n: u64| #[trigger] disk.contains_key(n) ==> disk[n].len() == g.bytes_per_sector,
    ensures
        cluster_append(disk, g, c, room) matches Outcome::Done(bytes) ==> bytes.len()
            == g.cluster_bytes(),
{
    let bps = g.bytes_per_sector as int;
    let spc = g.sectors_per_cluster as int;
    assert((bps * spc) / bps == spc) by (nonlinear_arith)
        requires
            bps > 0,
    ;
    assert(spc * bps == bps * spc) by (nonlinear_arith);
    if c.0 >= 2 {
        lemma_sectors_bytes_len(disk, g.first_sector(c), g.sectors_read(0, g.cluster_bytes()), bps);
    }
}

/// What a disk already gave for a cluster, every disk that knows more gives
/// too.
pub proof fn lemma_cluster_append_grow(
    small: Map<u64, Seq<u8>>,
    large: Map<u64, Seq<u8>>,
    g: Geometry,
    c: Cluster,
    room: int,
)
    requires
        small.submap_of(large),
        !(cluster_append(small, g, c, room) is Missing),
    ensures
        cluster_append(large, g, c, room) == cluster_append(small, g, c, room),
{
    if g.cluster_bytes() <= room && c.0 >= 2 {
        lemma_sectors_bytes_grow(
            small,
            large,
            g.first_sector(c),
            g.sectors_read(0, g.cluster_bytes()),
        );
    }
}

/// One more cluster of the chain was added, and reading resumes at the next.
pub proof fn lemma_chain_step(
    known: Map<u64, Seq<u8>>,
    grown: Map<u64, Seq<u8>>,
    g: Geometry,
    start: Cluster,
    room: int,
    appended: Seq<u8>,
    cluster: Cluster,
    fuel: nat,
    bytes: Seq<u8>,
    next: Cluster,
)
    requires
        chain_resumes(known, g, start, room, appended, cluster, fuel),
        known.submap_of(grown),
        fuel > 0,
        fat_slot(grown, g, cluster) matches Outcome::Done(raw) && status_of(raw) == Status::Data(
            next,
        ),
        cluster_append(grown, g, cluster, room - appended.len()) == Outcome::Done(bytes),
        bytes.len() == g.cluster_bytes(),
    ensures
        chain_resumes(grown, g, start, room, appended + bytes, next, (fuel - 1) as nat),
{
    assert forall|d: Map<u64, Seq<u8>>| #[trigger] grown.submap_of(d) implies chain_read(
        d,
        g,
        start,
        g.max_chain(),
        room,
    ) == prepend(
        appended + bytes,
        chain_read(d, g, next, (fuel - 1) as nat, room - (appended + bytes).len()),
    ) by {
        vstd::map_lib::lemma_submap_of_trans(known, grown, d);
        assert(known.submap_of(d));
        assert(grown.contains_key(g.fat_sector(cluster)));
        assert(d.contains_key(g.fat_sector(cluster)));
        lemma_cluster_append_grow(grown, d, g, cluster, room - appended.len());
        let rest = chain_read(d, g, next, (fuel - 1) as nat, room - appended.len() - g.cluster_bytes());
        assert(chain_read(d, g, cluster, fuel, room - appended.len()) == prepend(bytes, rest));
        match rest {
            Outcome::Done(more) => {
                assert(appended + (bytes + more) =~= (appended + bytes) + more);
            },
            _ => {},
        }
    }
}

/// What a disk already settled for a chain, every disk that knows more
/// settles in the same way.
pub proof fn lemma_chain_read_grow(
    small: Map<u64, Seq<u8>>,
    large: Map<u64, Seq<u8>>,
    g: Geometry,
    c: Cluster,
    fuel: nat,
    room: int,
)
    requires
        small.submap_of(large),
        !(chain_read(small, g, c, fuel, room) is Missing),
    ensures
        chain_read(large, g, c, fuel, room) == chain_read(small, g, c, fuel, room),
    decreases fuel,
{
    if fuel > 0 {
        match fat_slot(small, g, c) {
            Outcome::Done(raw) => {
                assert(large.contains_key(g.fat_sector(c)));
                match status_of(raw) {
                    Status::Data(next) => {
                        lemma_cluster_append_grow(small, large, g, c, room);
                        if cluster_append(small, g, c, room) is Done {
                            lemma_chain_read_grow(
                                small,
                                large,
                                g,
                                next,
                                (fuel - 1) as nat,
                                room - g.cluster_bytes(),
                            );
                        }
                    },
                    Status::Eoc(_) => {
                        lemma_cluster_append_grow(small, large, g, c, room);
                    },
                    _ => {},
                }
            },
            _ => {},
        }
    }
}

} // verus!
