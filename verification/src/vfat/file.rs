//! Files of the volume.

use crate::error::{ErrorKind, IoError};
use crate::traits::BlockDevice;
use crate::util::write_bytes;
use crate::vfat::cluster::Cluster;
use crate::vfat::metadata::Metadata;
use crate::vfat::model::{chain_read, lemma_chain_read_grow, Geometry, Outcome};
use crate::vfat::vfat::VFat;
use vstd::prelude::*;

verus! {

/// A file: where its contents start, how long they are, and how far they
/// have been read.
#[derive(Debug)]
pub struct File {
    pub name: String,
    pub cluster: Cluster,
    pub metadata: Metadata,
    pub size: usize,
    pub read_ptr: usize,
}

/// What a file handle holds, with the name as text.
pub struct FileView {
    pub name: Seq<char>,
    pub cluster: Cluster,
    pub metadata: Metadata,
    pub size: usize,
    pub read_ptr: usize,
}

impl View for File {
    type V = FileView;

    open spec fn view(&self) -> FileView {
        FileView {
            name: self.name@,
            cluster: self.cluster,
            metadata: self.metadata,
            size: self.size,
            read_ptr: self.read_ptr,
        }
    }
}

/// The error for a file whose directory entry claims more bytes than its
/// cluster chain holds.
pub open spec fn short_chain_error() -> IoError {
    IoError { kind: ErrorKind::UnexpectedEof, message: "file is longer than its cluster chain" }
}

/// How many bytes a read at cursor `read_ptr` of a file of `size` bytes into
/// a buffer of `want` bytes delivers: what is left of the file, or what the
/// buffer holds, whichever is less.
pub open spec fn read_len(size: int, read_ptr: int, want: int) -> int {
    if size - read_ptr < want {
        size - read_ptr
    } else {
        want
    }
}

/// What a read of the file `f` into a buffer of `want` bytes comes to: the
/// bytes of the file from the cursor on, as many as `read_len` says. A file
/// of no bytes is read without a look at the disk.
pub open spec fn file_read(disk: Map<u64, Seq<u8>>, g: Geometry, f: FileView, want: int) -> Outcome<
    Seq<u8>,
> {
    if f.size == 0 {
        Outcome::Done(Seq::empty())
    } else {
        match chain_read(disk, g, f.cluster, g.max_chain(), usize::MAX as int) {
            Outcome::Done(content) => {
                let n = read_len(f.size as int, f.read_ptr as int, want);
                if f.read_ptr + n > content.len() {
                    Outcome::Failed(short_chain_error())
                } else {
                    Outcome::Done(content.subrange(f.read_ptr as int, f.read_ptr + n))
                }
            },
            Outcome::Failed(e) => Outcome::Failed(e),
            Outcome::Missing => Outcome::Missing,
        }
    }
}

/// The bytes that successive reads deliver from a file of `size` bytes with
/// the contents `content`, where the first read starts at the cursor
/// `read_ptr` and the reads use buffers of the sizes `chunks`, in order.
pub open spec fn read_all(content: Seq<u8>, size: int, read_ptr: int, chunks: Seq<int>) -> Seq<u8>
    decreases chunks.len(),
{
    if chunks.len() == 0 {
        Seq::empty()
    } else {
        let n = read_len(size, read_ptr, chunks[0]);
        content.subrange(read_ptr, read_ptr + n) + read_all(
            content,
            size,
            read_ptr + n,
            chunks.drop_first(),
        )
    }
}

/// The sum of the buffer sizes `chunks`.
pub open spec fn total(chunks: Seq<int>) -> int
    decreases chunks.len(),
{
    if chunks.len() == 0 {
        0
    } else {
        chunks[0] + total(chunks.drop_first())
    }
}

/// Reading a file in buffers of any sizes gives the same bytes as reading it
/// in one go: the reads together deliver the contents from the cursor on,
/// up to the size of the file where the buffers hold that much, and no byte
/// behind it.
pub proof fn lemma_read_in_chunks(content: Seq<u8>, size: int, read_ptr: int, chunks: Seq<int>)
    requires
        0 <= read_ptr <= size <= content.len(),
        forall|i: int| 0 <= i < chunks.len() ==> 0 <= #[trigger] chunks[i],
    ensures
        total(chunks) >= 0,
        read_all(content, size, read_ptr, chunks) == content.subrange(
            read_ptr,
            read_ptr + read_len(size, read_ptr, total(chunks)),
        ),
        total(chunks) >= size - read_ptr ==> read_all(content, size, read_ptr, chunks)
            == content.subrange(read_ptr, size),
    decreases chunks.len(),
{
    if chunks.len() == 0 {
        assert(content.subrange(read_ptr, read_ptr) =~= Seq::<u8>::empty());
    } else {
        let n = read_len(size, read_ptr, chunks[0]);
        let rest = chunks.drop_first();
        assert forall|i: int| 0 <= i < rest.len() implies 0 <= #[trigger] rest[i] by {
            assert(rest[i] == chunks[i + 1]);
        }
        lemma_read_in_chunks(content, size, read_ptr + n, rest);
        let m = read_len(size, read_ptr + n, total(rest));
        assert(content.subrange(read_ptr, read_ptr + n) + content.subrange(
            read_ptr + n,
            read_ptr + n + m,
        ) =~= content.subrange(read_ptr, read_ptr + n + m));
    }
}

/// What a read came to on a disk, it comes to on every disk that knows more:
/// the contents of a file do not change while sectors are added to the
/// cache.
pub proof fn lemma_file_read_grow(
    small: Map<u64, Seq<u8>>,
    large: Map<u64, Seq<u8>>,
    g: Geometry,
    f: FileView,
    want: int,
)
    requires
        small.submap_of(large),
        !(file_read(small, g, f, want) is Missing),
    ensures
        file_read(large, g, f, want) == file_read(small, g, f, want),
{
    if f.size != 0 {
        lemma_chain_read_grow(small, large, g, f.cluster, g.max_chain(), usize::MAX as int);
    }
}

impl File {
    /// Reads on from the cursor into the front of `buf`, and moves the
    /// cursor past what was read. Says how many bytes were read, which is 0
    /// at the end of the file. On failure neither the cursor nor `buf` has
    /// changed.
    pub fn read<D: BlockDevice>(&mut self, vfat: &mut VFat<D>, buf: &mut [u8]) -> (r: Result<
        usize,
        IoError,
    >)
        requires
            old(self).wf(),
            old(vfat).wf(),
        ensures
            final(self).wf(),
            final(vfat).grown_from(old(vfat)),
            final(buf)@.len() == old(buf)@.len(),
            !(file_read(old(vfat).disk(), old(vfat).geometry(), old(self)@, old(buf)@.len() as int)
                is Missing) ==> final(vfat).disk() == old(vfat).disk(),
            match r {
                Ok(n) => {
                    &&& n == read_len(
                        old(self).size as int,
                        old(self).read_ptr as int,
                        old(buf)@.len() as int,
                    )
                    &&& file_read(
                        final(vfat).disk(),
                        final(vfat).geometry(),
                        old(self)@,
                        old(buf)@.len() as int,
                    ) == Outcome::Done(final(buf)@.subrange(0, n as int))
                    &&& final(buf)@.subrange(n as int, old(buf)@.len() as int) == old(buf)@.subrange(
                        n as int,
                        old(buf)@.len() as int,
                    )
                    &&& final(self)@ == (FileView {
                        read_ptr: (old(self).read_ptr + n) as usize,
                        ..old(self)@
                    })
                },
                Err(e) => {
                    &&& final(self)@ == old(self)@
                    &&& final(buf)@ == old(buf)@
                    &&& match file_read(
                        final(vfat).disk(),
                        final(vfat).geometry(),
                        old(self)@,
                        old(buf)@.len() as int,
                    ) {
                        Outcome::Failed(x) => e == x,
                        Outcome::Missing => true,
                        Outcome::Done(_) => false,
                    }
                },
            },
    {
        if self.size == 0 {
            assert(buf@.subrange(0, 0) =~= Seq::<u8>::empty());
            return Ok(0);
        }
        let mut buf_vec: Vec<u8> = Vec::new();
        match vfat.read_chain(self.cluster, &mut buf_vec) {
            Ok(_) => {},
            Err(e) => {
                return Err(e);
            },
        }
        assert(buf_vec@.subrange(0, buf_vec@.len() as int) =~= buf_vec@);
        let left_to_read: usize = self.size - self.read_ptr;
        let bytes_to_copy: usize = if left_to_read < buf.len() {
            left_to_read
        } else {
            buf.len()
        };
        if bytes_to_copy > buf_vec.len() || self.read_ptr > buf_vec.len() - bytes_to_copy {
            return Err(
                IoError::new(ErrorKind::UnexpectedEof, "file is longer than its cluster chain"),
            );
        }
        let part = vstd::slice::slice_subrange(
            buf_vec.as_slice(),
            self.read_ptr,
            self.read_ptr + bytes_to_copy,
        );
        write_bytes(buf, 0, part);
        assert(buf@.subrange(0, bytes_to_copy as int) =~= part@);
        assert(buf@.subrange(bytes_to_copy as int, buf@.len() as int) =~= old(buf)@.subrange(
            bytes_to_copy as int,
            buf@.len() as int,
        ));
        self.read_ptr += bytes_to_copy;
        Ok(bytes_to_copy)
    }

    /// The read cursor never passes the end of the file.
    pub open spec fn wf(&self) -> bool {
        self.read_ptr <= self.size
    }

    /// The name of the file.
    pub fn name(&self) -> (n: &str)
        ensures
            n@ == self.name@,
    {
        self.name.as_str()
    }

    /// The metadata of the file.
    pub fn metadata(&self) -> (m: &Metadata)
        ensures
            *m == self.metadata,
    {
        &self.metadata
    }

    /// The length of the file in bytes.
    pub fn size(&self) -> (n: u64)
        ensures
            n == self.size,
    {
        self.size as u64
    }

    /// Writes buffered data to disk: there never is any, so nothing happens.
    pub fn sync(&mut self) -> (r: Result<(), crate::error::IoError>)
        ensures
            r is Ok,
            *final(self) == *old(self),
    {
        Ok(())
    }
}

} // verus!
