use vstd::prelude::*;
use crate::device::{BlockDeviceConfig, BlockDeviceInterface};
use crate::error::Error;

verus! {

/// Where `count` blocks of `block_size` bytes starting at block `block_id`
/// lie in a byte stream: their offset and length, or `None` when the end
/// of the range does not fit a 64-bit offset or the length a `usize`.
pub open spec fn spec_block_span(block_size: u32, block_id: u64, count: u32) -> Option<(u64, usize)> {
    let off = block_id as int * block_size as int;
    let len = count as int * block_size as int;
    if off + len <= u64::MAX && len <= usize::MAX {
        Some((off as u64, len as usize))
    } else {
        None
    }
}

/// Computes the byte range of a block transfer, refusing one whose end
/// would overflow a 64-bit offset.
pub fn block_span(block_size: u32, block_id: u64, count: u32) -> (r: Result<(u64, usize), Error>)
    ensures
        match spec_block_span(block_size, block_id, count) {
            Some(s) => r == Ok::<(u64, usize), Error>(s),
            None => r == Err::<(u64, usize), Error>(Error::InvalidArgument),
        },
{
    assert(0 <= block_id as int * block_size as int <= 0xffff_ffff_ffff_ffff_ffff_ffff) by (nonlinear_arith)
        requires
            0 <= block_id as int <= 0xffff_ffff_ffff_ffff,
            0 <= block_size as int <= 0xffff_ffff,
    ;
    assert(0 <= count as int * block_size as int <= 0xffff_ffff_ffff_ffff) by (nonlinear_arith)
        requires
            0 <= count as int <= 0xffff_ffff,
            0 <= block_size as int <= 0xffff_ffff,
    ;
    let bs = block_size as u128;
    let off = block_id as u128 * bs;
    let len = count as u128 * bs;
    if off + len <= u64::MAX as u128 && len <= usize::MAX as u128 {
        Ok((off as u64, len as usize))
    } else {
        Err(Error::InvalidArgument)
    }
}

/// What reading `count` blocks at `block_id` from `data` gives: the bytes,
/// an invalid-argument error for a range that does not fit, or an I/O error
/// for one that runs past the end of the store.
pub open spec fn spec_read_blocks(data: Seq<u8>, block_size: u32, block_id: u64, count: u32) -> Result<Seq<u8>, Error> {
    match spec_block_span(block_size, block_id, count) {
        None => Err(Error::InvalidArgument),
        Some((off, len)) => if off as int + len as int > data.len() {
            Err(Error::Io)
        } else {
            Ok(data.subrange(off as int, off as int + len as int))
        },
    }
}

/// The store after writing `bytes` as `count` blocks at `block_id`, or the
/// error: invalid argument for a range that does not fit or bytes that are
/// not exactly `count` blocks, I/O for a range past the end of the store.
pub open spec fn spec_write_blocks(data: Seq<u8>, block_size: u32, block_id: u64, count: u32, bytes: Seq<u8>) -> Result<Seq<u8>, Error> {
    match spec_block_span(block_size, block_id, count) {
        None => Err(Error::InvalidArgument),
        Some((off, len)) => if bytes.len() != len {
            Err(Error::InvalidArgument)
        } else if off as int + len as int > data.len() {
            Err(Error::Io)
        } else {
            Ok(data.subrange(0, off as int) + bytes + data.subrange(off as int + len as int, data.len() as int))
        },
    }
}

/// A block device kept in memory: a byte store read and written in blocks
/// of the configured size.
pub struct MemoryBlockDevice {
    data: Vec<u8>,
    config: BlockDeviceConfig,
}

impl MemoryBlockDevice {
    pub closed spec fn spec_data(&self) -> Seq<u8> {
        self.data@
    }

    pub closed spec fn spec_config(&self) -> BlockDeviceConfig {
        self.config
    }

    /// A device over `data` that reports `config` when opened.
    pub fn new(data: Vec<u8>, config: BlockDeviceConfig) -> (r: MemoryBlockDevice)
        ensures
            r.spec_data() == data@,
            r.spec_config() == config,
    {
        MemoryBlockDevice { data, config }
    }

    /// The stored bytes.
    pub fn data(&self) -> (r: &Vec<u8>)
        ensures
            r@ == self.spec_data(),
    {
        &self.data
    }

    /// Reads `count` blocks at `block_id` into `buf`, which must hold
    /// exactly that many bytes.
    pub fn read_blocks(&self, buf: &mut Vec<u8>, block_id: u64, count: u32) -> (r: Result<(), Error>)
        ensures
            final(buf)@.len() == old(buf)@.len(),
            match spec_read_blocks(self.spec_data(), self.spec_config().block_size, block_id, count) {
                Ok(bytes) => if bytes.len() == old(buf)@.len() {
                    r == Ok::<(), Error>(()) && final(buf)@ == bytes
                } else {
                    r == Err::<(), Error>(Error::InvalidArgument) && final(buf)@ == old(buf)@
                },
                Err(e) => r == Err::<(), Error>(e) && final(buf)@ == old(buf)@,
            },
    {
        let (off, len) = match block_span(self.config.block_size, block_id, count) {
            Ok(s) => s,
            Err(e) => {
                return Err(e);
            },
        };
        if off as u128 + len as u128 > self.data.len() as u128 {
            return Err(Error::Io);
        }
        if buf.len() != len {
            return Err(Error::InvalidArgument);
        }
        let start = off as usize;
        assert(start as int == off as int);
        let dlen = self.data.len();
        let ghost init = buf@;
        let mut i: usize = 0;
        while i < len
            invariant
                i <= len,
                buf@.len() == len,
                start as int + len as int <= self.data@.len(),
                self.data@.len() == dlen,
                forall|k: int| 0 <= k < i ==> #[trigger] buf@[k] == self.data@[start as int + k],
            decreases len - i,
        {
            buf.set(i, self.data[start + i]);
            i = i + 1;
        }
        assert(buf@ =~= self.data@.subrange(start as int, start as int + len as int));
        Ok(())
    }

    /// Writes `buf`, which must hold exactly `count` blocks, at `block_id`.
    pub fn write_blocks(&mut self, buf: &[u8], block_id: u64, count: u32) -> (r: Result<(), Error>)
        ensures
            final(self).spec_config() == old(self).spec_config(),
            match spec_write_blocks(old(self).spec_data(), old(self).spec_config().block_size, block_id, count, buf@) {
                Ok(d) => r == Ok::<(), Error>(()) && final(self).spec_data() == d,
                Err(e) => r == Err::<(), Error>(e) && final(self).spec_data() == old(self).spec_data(),
            },
    {
        let (off, len) = match block_span(self.config.block_size, block_id, count) {
            Ok(s) => s,
            Err(e) => {
                return Err(e);
            },
        };
        if buf.len() != len {
            return Err(Error::InvalidArgument);
        }
        if off as u128 + len as u128 > self.data.len() as u128 {
            return Err(Error::Io);
        }
        let start = off as usize;
        assert(start as int == off as int);
        let dlen = self.data.len();
        let ghost old_data = self.data@;
        let mut i: usize = 0;
        while i < len
            invariant
                i <= len,
                buf@.len() == len,
                start as int + len as int <= old_data.len(),
                self.data@.len() == old_data.len(),
                old_data.len() == dlen,
                self.config == old(self).config,
                forall|k: int|
                    0 <= k < old_data.len() ==> #[trigger] self.data@[k] == if start <= k < start + i {
                        buf@[k - start]
                    } else {
                        old_data[k]
                    },
            decreases len - i,
        {
            self.data.set(start + i, buf[i]);
            i = i + 1;
        }
        assert(self.data@ =~= old_data.subrange(0, start as int) + buf@ + old_data.subrange(
            start as int + len as int,
            old_data.len() as int,
        ));
        Ok(())
    }
}

/// A read's outcome once the buffer's length is taken into account: a
/// buffer that is not exactly the requested blocks is an invalid argument.
pub open spec fn spec_read_into(data: Seq<u8>, block_size: u32, len: nat, block_id: u64, count: u32) -> Result<(), Error> {
    match spec_read_blocks(data, block_size, block_id, count) {
        Ok(bytes) => if bytes.len() == len {
            Ok(())
        } else {
            Err(Error::InvalidArgument)
        },
        Err(e) => Err(e),
    }
}

impl BlockDeviceInterface for MemoryBlockDevice {
    open spec fn spec_open_result(&self) -> Result<BlockDeviceConfig, Error> {
        Ok(self.spec_config())
    }

    open spec fn spec_read_result(&self, len: nat, block_id: u64, block_count: u32) -> Result<(), Error> {
        spec_read_into(self.spec_data(), self.spec_config().block_size, len, block_id, block_count)
    }

    open spec fn spec_read_bytes(&self, len: nat, block_id: u64, block_count: u32) -> Seq<u8> {
        spec_read_blocks(self.spec_data(), self.spec_config().block_size, block_id, block_count)->Ok_0
    }

    open spec fn spec_write_result(&self, bytes: Seq<u8>, block_id: u64, block_count: u32) -> Result<(), Error> {
        match spec_write_blocks(self.spec_data(), self.spec_config().block_size, block_id, block_count, bytes) {
            Ok(_) => Ok(()),
            Err(e) => Err(e),
        }
    }

    open spec fn spec_close_result(&self) -> Result<(), Error> {
        Ok(())
    }

    open spec fn spec_lock_result(&self) -> Result<(), Error> {
        Ok(())
    }

    open spec fn spec_unlock_result(&self) -> Result<(), Error> {
        Ok(())
    }

    fn open(&mut self) -> (r: Result<BlockDeviceConfig, Error>) {
        Ok(self.config)
    }

    fn read_block(&mut self, buf: &mut Vec<u8>, block_id: u64, block_count: u32) -> (r: Result<(), Error>) {
        self.read_blocks(buf, block_id, block_count)
    }

    fn write_block(&mut self, buf: &[u8], block_id: u64, block_count: u32) -> (r: Result<(), Error>) {
        let r = self.write_blocks(buf, block_id, block_count);
        proof {
            if r is Ok {
                lemma_write_then_read(old(self).spec_data(), self.spec_config().block_size, block_id, block_count, buf@);
            }
        }
        r
    }

    fn close(&mut self) -> (r: Result<(), Error>) {
        Ok(())
    }

    fn lock(&mut self) -> (r: Result<(), Error>) {
        Ok(())
    }

    fn unlock(&mut self) -> (r: Result<(), Error>) {
        Ok(())
    }
}

/// Blocks written and then read back at the same block id come back
/// unchanged, and the store keeps its length.
pub proof fn lemma_write_then_read(data: Seq<u8>, block_size: u32, block_id: u64, count: u32, bytes: Seq<u8>)
    requires
        spec_write_blocks(data, block_size, block_id, count, bytes) is Ok,
    ensures
        spec_write_blocks(data, block_size, block_id, count, bytes)->Ok_0.len() == data.len(),
        spec_read_blocks(
            spec_write_blocks(data, block_size, block_id, count, bytes)->Ok_0,
            block_size,
            block_id,
            count,
        ) == Ok::<Seq<u8>, Error>(bytes),
{
    let (off, len) = spec_block_span(block_size, block_id, count)->Some_0;
    let d = spec_write_blocks(data, block_size, block_id, count, bytes)->Ok_0;
    assert(d.subrange(off as int, off as int + len as int) =~= bytes);
}

} // verus!
