//! Entries of a directory: files and directories.

use crate::vfat::dir::{Dir, DirView};
use crate::vfat::file::{File, FileView};
use crate::vfat::metadata::Metadata;
use vstd::prelude::*;

verus! {

/// An entry of a directory.
#[derive(Debug)]
pub enum Entry {
    File(File),
    Dir(Dir),
}

/// What an entry holds, with the name as text.
pub enum EntryView {
    File(FileView),
    Dir(DirView),
}

impl EntryView {
    /// The name of the entry.
    pub open spec fn name(self) -> Seq<char> {
        match self {
            EntryView::File(f) => f.name,
            EntryView::Dir(d) => d.name,
        }
    }

    /// The metadata of the entry.
    pub open spec fn metadata(self) -> Metadata {
        match self {
            EntryView::File(f) => f.metadata,
            EntryView::Dir(d) => d.metadata,
        }
    }
}

impl View for Entry {
    type V = EntryView;

    open spec fn view(&self) -> EntryView {
        match self {
            Entry::File(f) => EntryView::File(f@),
            Entry::Dir(d) => EntryView::Dir(d@),
        }
    }
}

impl Entry {
    /// If the entry is a file, its read cursor has not passed its end.
    pub open spec fn wf(&self) -> bool {
        match self {
            Entry::File(f) => f.wf(),
            Entry::Dir(_) => true,
        }
    }

    /// The name of the file or directory.
    pub fn name(&self) -> (n: &str)
        ensures
            n@ == self@.name(),
    {
        match self {
            Entry::Dir(d) => d.name(),
            Entry::File(f) => f.name(),
        }
    }

    /// The metadata of the file or directory.
    pub fn metadata(&self) -> (m: &Metadata)
        ensures
            *m == self@.metadata(),
    {
        match self {
            Entry::Dir(d) => d.metadata(),
            Entry::File(f) => f.metadata(),
        }
    }

    /// The file, if the entry is one.
    pub fn as_file(&self) -> (r: Option<&File>)
        ensures
            match *self {
                Entry::File(f) => r == Some(&f),
                Entry::Dir(_) => r is None,
            },
    {
        match self {
            Entry::File(f) => Some(f),
            _ => None,
        }
    }

    /// The directory, if the entry is one.
    pub fn as_dir(&self) -> (r: Option<&Dir>)
        ensures
            match *self {
                Entry::Dir(d) => r == Some(&d),
                Entry::File(_) => r is None,
            },
    {
        match self {
            Entry::Dir(d) => Some(d),
            _ => None,
        }
    }

    /// The file, if the entry is one, given away.
    pub fn into_file(self) -> (r: Option<File>)
        ensures
            match self {
                Entry::File(f) => r == Some(f),
                Entry::Dir(_) => r is None,
            },
    {
        match self {
            Entry::File(f) => Some(f),
            _ => None,
        }
    }

    /// The directory, if the entry is one, given away.
    pub fn into_dir(self) -> (r: Option<Dir>)
        ensures
            match self {
                Entry::Dir(d) => r == Some(d),
                Entry::File(_) => r is None,
            },
    {
        match self {
            Entry::Dir(d) => Some(d),
            _ => None,
        }
    }
}

} // verus!
