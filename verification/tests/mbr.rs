use fat32::error::{ErrorKind, IoError};
use fat32::mbr::{Error, MasterBootRecord};
use fat32::traits::BlockDevice;

/// A device backed by bytes in memory, read in sectors of 512 bytes. A read
/// at the end of the bytes comes short.
struct Cursor {
    data: Vec<u8>,
}

impl Cursor {
    fn new(data: &[u8]) -> Cursor {
        Cursor { data: data.to_vec() }
    }
}

impl BlockDevice for Cursor {
    fn read_sector(&mut self, n: u64, buf: &mut [u8]) -> Result<usize, IoError> {
        let start = (n as usize).saturating_mul(512).min(self.data.len());
        let end = (start + buf.len().min(512)).min(self.data.len());
        buf[..end - start].copy_from_slice(&self.data[start..end]);
        Ok(end - start)
    }
}

#[test]
fn check_mbr_too_small() {
    let mut data = [0u8; 511];
    let result = MasterBootRecord::from(&mut Cursor::new(&mut data[..]));

    match result.expect_err("unexpected EOF") {
        Error::Io(e) => assert_eq!(e.kind(), ErrorKind::UnexpectedEof),
        _ => assert!(false, "unexpected error"),
    }
}
