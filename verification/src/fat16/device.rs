//! Block devices that the file system reads.

use vstd::prelude::*;

use crate::error::{FsError, FsResult};

verus! {

/// The size of a block (a sector) in bytes.
pub const BLOCK_SIZE: usize = 512;

/// One block of 512 bytes.
#[derive(Clone, Copy, Debug)]
pub struct Block512 {
    pub data: [u8; 512],
}

impl View for Block512 {
    type V = Seq<u8>;

    open spec fn view(&self) -> Seq<u8> {
        self.data@
    }
}

impl Block512 {
    /// A block of zero bytes.
    pub fn new() -> (r: Block512)
        ensures
            r@ == Seq::new(512, |i: int| 0u8),
    {
        let r = Block512 { data: [0u8; 512] };
        assert(r@ =~= Seq::new(512, |i: int| 0u8));
        r
    }

    /// The size of a block in bytes.
    pub fn size() -> (r: usize)
        ensures
            r == BLOCK_SIZE,
    {
        BLOCK_SIZE
    }
}

/// A device made of 512-byte blocks that can be read by number.
///
/// An implementation names the contents of its blocks with `block_at`; a read
/// that succeeds fills the buffer with exactly those bytes, and a read that
/// fails reports `FsError::BlockDeviceError`.
pub trait BlockDevice {
    /// The bytes of block `index`.
    spec fn block_at(&self, index: int) -> Seq<u8>;

    /// Reads block `offset` into `block`.
    fn read_block(&self, offset: usize, block: &mut Block512) -> (r: FsResult<()>)
        ensures
            r is Ok ==> final(block)@ == self.block_at(offset as int),
            r is Err ==> r == Err::<(), FsError>(FsError::BlockDeviceError),
    ;
}

/// A block device held in memory: block `i` is the `i`-th array.
pub struct RamDisk {
    pub blocks: Vec<[u8; 512]>,
}

impl BlockDevice for RamDisk {
    /// The bytes of block `index`: the `index`-th array where there is one,
    /// and no bytes past the end of the disk.
    open spec fn block_at(&self, index: int) -> Seq<u8> {
        if 0 <= index < self.blocks@.len() {
            self.blocks@[index]@
        } else {
            Seq::empty()
        }
    }

    /// Copies block `offset`; a block past the end of the disk cannot be read.
    fn read_block(&self, offset: usize, block: &mut Block512) -> (r: FsResult<()>) {
        if offset < self.blocks.len() {
            block.data = self.blocks[offset];
            Ok(())
        } else {
            Err(FsError::BlockDeviceError)
        }
    }
}

} // verus!
