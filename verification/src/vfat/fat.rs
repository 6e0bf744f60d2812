//! Slots of the file allocation table.

use crate::vfat::cluster::{mask_cluster, Cluster};
use vstd::prelude::*;

verus! {

/// What a slot of the file allocation table says of its cluster.
#[derive(Debug, Copy, Clone, PartialEq, Eq, Structural)]
pub enum Status {
    /// The cluster is unused.
    Free,
    /// The cluster is set aside.
    Reserved,
    /// The cluster holds data, and the chain goes on at the given cluster.
    Data(Cluster),
    /// The cluster is marked defective.
    Bad,
    /// The cluster holds data and ends its chain. Carries the slot as stored.
    Eoc(u32),
}

/// One slot of the file allocation table, as stored.
#[derive(Debug, Copy, Clone, PartialEq, Eq, Structural)]
pub struct FatEntry(pub u32);

/// The status that a stored slot `raw` stands for, by its low 28 bits.
pub open spec fn status_of(raw: u32) -> Status {
    let v = mask_cluster(raw);
    if v == 0 {
        Status::Free
    } else if v == 1 {
        Status::Reserved
    } else if v <= 0x0FFF_FFEF {
        Status::Data(Cluster(v))
    } else if v <= 0x0FFF_FFF6 {
        Status::Reserved
    } else if v == 0x0FFF_FFF7 {
        Status::Bad
    } else {
        Status::Eoc(raw)
    }
}

impl FatEntry {
    /// The status of the cluster that this slot belongs to.
    pub fn status(&self) -> (s: Status)
        ensures
            s == status_of(self.0),
            s matches Status::Data(next) ==> next.wf() && next.0 >= 2,
    {
        let raw: u32 = self.0;
        assert(raw & 0x0FFF_FFFF <= 0x0FFF_FFFF) by (bit_vector);
        let v: u32 = raw & 0x0FFF_FFFF;
        if v == 0 {
            Status::Free
        } else if v == 1 {
            Status::Reserved
        } else if v <= 0x0FFF_FFEF {
            Status::Data(Cluster(v))
        } else if v <= 0x0FFF_FFF6 {
            Status::Reserved
        } else if v == 0x0FFF_FFF7 {
            Status::Bad
        } else {
            Status::Eoc(raw)
        }
    }
}

/// Every stored slot falls into exactly one of the five classes, and the
/// class is decided by the low 28 bits alone.
pub proof fn lemma_status_classes(raw: u32)
    ensures
        mask_cluster(raw) <= 0x0FFF_FFFF,
        status_of(raw) is Free <==> mask_cluster(raw) == 0,
        status_of(raw) is Reserved <==> mask_cluster(raw) == 1 || 0x0FFF_FFF0 <= mask_cluster(raw)
            <= 0x0FFF_FFF6,
        status_of(raw) is Data <==> 2 <= mask_cluster(raw) <= 0x0FFF_FFEF,
        status_of(raw) is Bad <==> mask_cluster(raw) == 0x0FFF_FFF7,
        status_of(raw) is Eoc <==> 0x0FFF_FFF8 <= mask_cluster(raw) <= 0x0FFF_FFFF,
        status_of(raw) matches Status::Data(next) ==> next.0 == mask_cluster(raw),
        status_of(raw) matches Status::Eoc(stored) ==> stored == raw,
{
    assert(raw & 0x0FFF_FFFF <= 0x0FFF_FFFF) by (bit_vector);
}

} // verus!
