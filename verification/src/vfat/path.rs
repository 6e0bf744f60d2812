//! Paths into the volume, as the sequence of their components.

use crate::error::{ErrorKind, IoError};
use crate::vfat::cluster::Cluster;
use crate::vfat::dir::{find_in, lemma_find_in_grow, root_view};
use crate::vfat::entry::EntryView;
use crate::vfat::model::{Geometry, Outcome};
use vstd::prelude::*;

verus! {

/// One component of a path.
#[derive(Debug, PartialEq, Eq)]
pub enum Component {
    /// A drive or share prefix. Not supported.
    Prefix,
    /// The root directory.
    RootDir,
    /// The current directory, `.`. Not supported.
    CurDir,
    /// The directory above, `..`. Not supported.
    ParentDir,
    /// The name of an entry, as bytes.
    Normal(Vec<u8>),
}

impl Component {
    /// The component is one that `open` follows.
    pub open spec fn supported(self) -> bool {
        self is RootDir || self is Normal
    }
}

/// The error for a path that goes on below a file.
pub open spec fn file_not_found_error() -> IoError {
    IoError { kind: ErrorKind::NotFound, message: "File not found" }
}

/// What following the components `path[i..]` from the entry `cur` comes to.
/// A name is looked up in the current entry, which must be a directory; the
/// root component goes back to the root directory, whose first cluster is
/// `root`.
pub open spec fn open_from(
    disk: Map<u64, Seq<u8>>,
    g: Geometry,
    root: Cluster,
    cur: EntryView,
    path: Seq<Component>,
    i: int,
) -> Outcome<EntryView>
    decreases path.len() - i,
{
    if i < 0 || i >= path.len() {
        Outcome::Done(cur)
    } else {
        match path[i] {
            Component::Normal(name) => match cur {
                EntryView::Dir(d) => match find_in(disk, g, d.cluster, name@) {
                    Outcome::Done(e) => open_from(disk, g, root, e, path, i + 1),
                    Outcome::Failed(x) => Outcome::Failed(x),
                    Outcome::Missing => Outcome::Missing,
                },
                EntryView::File(_) => Outcome::Failed(file_not_found_error()),
            },
            Component::RootDir => open_from(
                disk,
                g,
                root,
                EntryView::Dir(root_view(root)),
                path,
                i + 1,
            ),
            _ => open_from(disk, g, root, cur, path, i + 1),
        }
    }
}

/// What opening the path `path` comes to: its components are followed from
/// the root directory.
pub open spec fn open_path(
    disk: Map<u64, Seq<u8>>,
    g: Geometry,
    root: Cluster,
    path: Seq<Component>,
) -> Outcome<EntryView> {
    open_from(disk, g, root, EntryView::Dir(root_view(root)), path, 0)
}

/// On every disk that knows at least the sectors of `known`, opening `path`
/// comes to what following `path[i..]` from `cur` comes to.
pub open spec fn open_resumes(
    known: Map<u64, Seq<u8>>,
    g: Geometry,
    root: Cluster,
    path: Seq<Component>,
    cur: EntryView,
    i: int,
) -> bool {
    forall|d: Map<u64, Seq<u8>>| #[trigger]
        known.submap_of(d) ==> open_path(d, g, root, path) == open_from(d, g, root, cur, path, i)
}

/// One more name of the path was found, and following resumes at the entry
/// that answered.
pub proof fn lemma_open_step(
    known: Map<u64, Seq<u8>>,
    grown: Map<u64, Seq<u8>>,
    g: Geometry,
    root: Cluster,
    path: Seq<Component>,
    cur: EntryView,
    i: int,
    found: EntryView,
)
    requires
        open_resumes(known, g, root, path, cur, i),
        known.submap_of(grown),
        0 <= i < path.len(),
        path[i] matches Component::Normal(name) && cur matches EntryView::Dir(d) && find_in(
            grown,
            g,
            d.cluster,
            name@,
        ) == Outcome::Done(found),
    ensures
        open_resumes(grown, g, root, path, found, i + 1),
{
    assert forall|d: Map<u64, Seq<u8>>| #[trigger] grown.submap_of(d) implies open_path(
        d,
        g,
        root,
        path,
    ) == open_from(d, g, root, found, path, i + 1) by {
        vstd::map_lib::lemma_submap_of_trans(known, grown, d);
        assert(known.submap_of(d));
        match (path[i], cur) {
            (Component::Normal(name), EntryView::Dir(dir)) => {
                lemma_find_in_grow(grown, d, g, dir.cluster, name@);
            },
            _ => {},
        }
    }
}

} // verus!
