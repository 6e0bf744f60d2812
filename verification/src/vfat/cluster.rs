//! Cluster numbers.

use crate::error::{ErrorKind, IoError};
use vstd::prelude::*;
use vstd::std_specs::convert::FromSpec;

verus! {

/// The number of a cluster. Only the low 28 bits of a raw 32-bit number
/// name a cluster; the upper four are reserved and are cleared on load.
#[derive(PartialEq, Eq, PartialOrd, Ord, Debug, Copy, Clone, Hash, Structural)]
pub struct Cluster(pub u32);

/// The raw number `raw` with its four reserved bits cleared.
pub open spec fn mask_cluster(raw: u32) -> u32 {
    raw & 0x0FFF_FFFF
}

impl From<u32> for Cluster {
    /// The cluster named by the raw on-disk number `raw_num`.
    fn from(raw_num: u32) -> (c: Cluster)
        ensures
            c.wf(),
    {
        assert(raw_num & 0x0FFF_FFFF <= 0x0FFF_FFFF) by (bit_vector);
        Cluster(raw_num & 0x0FFF_FFFF)
    }
}

impl vstd::std_specs::convert::FromSpecImpl<u32> for Cluster {
    open spec fn obeys_from_spec() -> bool {
        true
    }

    open spec fn from_spec(raw_num: u32) -> Cluster {
        Cluster(mask_cluster(raw_num))
    }
}

impl Cluster {
    /// Every cluster that `from` makes has its reserved bits clear.
    pub open spec fn wf(self) -> bool {
        self.0 <= 0x0FFF_FFFF
    }

    /// The index of this cluster's slot in the file allocation table.
    pub open spec fn spec_fat_index(self) -> u32 {
        self.0
    }

    /// The index of this cluster's slot in the file allocation table.
    pub fn fat_index(&self) -> (i: u32)
        ensures
            i == self.spec_fat_index(),
    {
        self.0
    }

    /// The index of this cluster within the data region, which starts at
    /// cluster 2. Clusters 0 and 1 hold no data and are refused.
    pub fn data_index(&self) -> (r: Result<u32, IoError>)
        ensures
            self.0 >= 2 ==> r == Ok::<u32, IoError>((self.0 - 2) as u32),
            self.0 < 2 ==> r == Err::<u32, IoError>(bad_cluster_error()),
            r matches Ok(n) ==> n == self.0 - 2,
    {
        if self.0 >= 2 {
            Ok(self.0 - 2)
        } else {
            Err(IoError::new(ErrorKind::Other, "cluster number must be > 2"))
        }
    }
}

/// The error for a cluster number that names no data cluster.
pub open spec fn bad_cluster_error() -> IoError {
    IoError { kind: ErrorKind::Other, message: "cluster number must be > 2" }
}

/// The table index of the cluster made from any raw number is that number
/// with its four reserved bits cleared, which leaves a number of 28 bits
/// and changes nothing in a number that has no more.
pub proof fn lemma_fat_index_is_masked(raw_num: u32)
    ensures
        Cluster::from_spec(raw_num).spec_fat_index() == raw_num & 0x0FFF_FFFF,
        Cluster::from_spec(raw_num).wf(),
        raw_num <= 0x0FFF_FFFF ==> Cluster::from_spec(raw_num).spec_fat_index() == raw_num,
{
    assert(raw_num & 0x0FFF_FFFF <= 0x0FFF_FFFF) by (bit_vector);
    assert(raw_num <= 0x0FFF_FFFF ==> raw_num & 0x0FFF_FFFF == raw_num) by (bit_vector);
}

} // verus!
