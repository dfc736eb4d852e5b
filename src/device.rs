use vstd::prelude::*;
use crate::error::{Error, EOK, result_to_errno, spec_code, spec_result_to_errno};

verus! {

/// Geometry that a block-device interface reports when it is opened.
#[derive(Clone, Copy, Debug, Default, PartialEq, Eq, Structural)]
pub struct BlockDeviceConfig {
    pub block_size: u32,
    pub block_count: u64,
    pub part_size: u64,
    pub part_offset: u64,
}

impl BlockDeviceConfig {
    /// The geometry of a partition of `lb_size` blocks that starts at block
    /// `lb_start`, in blocks of `block_size` bytes; `None` when its byte
    /// size or byte offset does not fit 64 bits.
    pub fn for_partition(block_size: u32, lb_start: u64, lb_size: u64) -> (r: Option<BlockDeviceConfig>)
        ensures
            match r {
                Some(c) => c.block_size == block_size && c.block_count == lb_size && c.part_size
                    == block_size as int * lb_size as int && c.part_offset == block_size as int
                    * lb_start as int,
                None => block_size as int * lb_size as int > u64::MAX || block_size as int
                    * lb_start as int > u64::MAX,
            },
    {
        assert(0 <= block_size as int * lb_size as int <= 0xffff_ffff_ffff_ffff_ffff_ffff) by (nonlinear_arith)
            requires
                0 <= lb_size as int <= 0xffff_ffff_ffff_ffff,
                0 <= block_size as int <= 0xffff_ffff,
        ;
        assert(0 <= block_size as int * lb_start as int <= 0xffff_ffff_ffff_ffff_ffff_ffff) by (nonlinear_arith)
            requires
                0 <= lb_start as int <= 0xffff_ffff_ffff_ffff,
                0 <= block_size as int <= 0xffff_ffff,
        ;
        let size = block_size as u128 * lb_size as u128;
        let offset = block_size as u128 * lb_start as u128;
        if size > u64::MAX as u128 || offset > u64::MAX as u128 {
            return None;
        }
        Some(
            BlockDeviceConfig {
                block_size,
                block_count: lb_size,
                part_size: size as u64,
                part_offset: offset as u64,
            },
        )
    }
}

/// The capability set that a storage backend offers to the engine.
///
/// Each method's outcome is named by a spec function of the backend's
/// state, so the trampolines of `BlockDevice` can say exactly what they
/// hand back. A backend whose methods are verified defines these; the
/// defaults leave the outcome unknown. A write that succeeds must be readable back unchanged: a
/// read of the same blocks, into a buffer of the same length, then
/// succeeds and yields the written bytes.
pub trait BlockDeviceInterface: Sized {
    /// What `open` reports in this state.
    closed spec fn spec_open_result(&self) -> Result<BlockDeviceConfig, Error> {
        arbitrary()
    }

    /// Whether reading `block_count` blocks at `block_id` into a buffer of
    /// `len` bytes succeeds in this state.
    closed spec fn spec_read_result(&self, len: nat, block_id: u64, block_count: u32) -> Result<(), Error> {
        arbitrary()
    }

    /// The bytes such a read leaves in the buffer when it succeeds.
    closed spec fn spec_read_bytes(&self, len: nat, block_id: u64, block_count: u32) -> Seq<u8> {
        arbitrary()
    }

    /// Whether writing `bytes` as `block_count` blocks at `block_id`
    /// succeeds in this state.
    closed spec fn spec_write_result(&self, bytes: Seq<u8>, block_id: u64, block_count: u32) -> Result<(), Error> {
        arbitrary()
    }

    /// What `close` reports in this state.
    closed spec fn spec_close_result(&self) -> Result<(), Error> {
        arbitrary()
    }

    /// What `lock` reports in this state.
    closed spec fn spec_lock_result(&self) -> Result<(), Error> {
        arbitrary()
    }

    /// What `unlock` reports in this state.
    closed spec fn spec_unlock_result(&self) -> Result<(), Error> {
        arbitrary()
    }

    fn open(&mut self) -> (r: Result<BlockDeviceConfig, Error>)
        ensures
            r == old(self).spec_open_result(),
    ;

    fn read_block(&mut self, buf: &mut Vec<u8>, block_id: u64, block_count: u32) -> (r: Result<
        (),
        Error,
    >)
        ensures
            final(buf)@.len() == old(buf)@.len(),
            r == old(self).spec_read_result(old(buf)@.len(), block_id, block_count),
            r is Ok ==> final(buf)@ == old(self).spec_read_bytes(old(buf)@.len(), block_id, block_count),
    ;

    fn write_block(&mut self, buf: &[u8], block_id: u64, block_count: u32) -> (r: Result<
        (),
        Error,
    >)
        ensures
            r == old(self).spec_write_result(buf@, block_id, block_count),
            r is Ok ==> final(self).spec_read_result(buf@.len(), block_id, block_count) is Ok,
            r is Ok ==> final(self).spec_read_bytes(buf@.len(), block_id, block_count) == buf@,
    ;

    fn close(&mut self) -> (r: Result<(), Error>)
        ensures
            r == old(self).spec_close_result(),
    ;

    fn lock(&mut self) -> (r: Result<(), Error>)
        ensures
            r == old(self).spec_lock_result(),
    ;

    fn unlock(&mut self) -> (r: Result<(), Error>)
        ensures
            r == old(self).spec_unlock_result(),
    ;
}

/// The device descriptor that the engine reads: physical block size and
/// count, partition geometry, and the one-block scratch buffer that exists
/// once the device has been opened.
pub struct DeviceRecord {
    pub block_size: u32,
    pub block_count: u64,
    pub part_size: u64,
    pub part_offset: u64,
    pub scratch: Option<Vec<u8>>,
}

/// A descriptor that has never been opened.
pub open spec fn fresh_record(r: DeviceRecord) -> bool {
    r.block_size == 0 && r.block_count == 0 && r.part_size == 0 && r.part_offset == 0
        && r.scratch is None
}

/// A descriptor after an open that reported `c`: the geometry of `c` and a
/// zeroed scratch buffer of one block.
pub open spec fn opened_record(r: DeviceRecord, c: BlockDeviceConfig) -> bool {
    &&& r.block_size == c.block_size
    &&& r.block_count == c.block_count
    &&& r.part_size == c.part_size
    &&& r.part_offset == c.part_offset
    &&& r.scratch is Some
    &&& r.scratch->Some_0@ == Seq::new(c.block_size as nat, |i: int| 0u8)
}

/// The number of bytes in `count` blocks of `block_size` bytes.
pub open spec fn span_len(block_size: u32, count: u32) -> int {
    count as int * block_size as int
}

/// A storage backend wrapped for the engine: the device descriptor the
/// engine reads and the interface its callbacks reach.
pub struct BlockDevice<T: BlockDeviceInterface> {
    record: DeviceRecord,
    interface: T,
}

impl<T: BlockDeviceInterface> BlockDevice<T> {
    pub closed spec fn spec_record(&self) -> DeviceRecord {
        self.record
    }

    pub closed spec fn spec_interface(&self) -> T {
        self.interface
    }

    /// Wraps `interface` in a descriptor that has not been opened yet.
    pub fn new(interface: T) -> (r: BlockDevice<T>)
        ensures
            fresh_record(r.spec_record()),
            r.spec_interface() == interface,
    {
        let record = DeviceRecord {
            block_size: 0,
            block_count: 0,
            part_size: 0,
            part_offset: 0,
            scratch: None,
        };
        BlockDevice { record, interface }
    }

    /// The device descriptor.
    pub fn record(&self) -> (r: &DeviceRecord)
        ensures
            *r == self.spec_record(),
    {
        &self.record
    }

    /// Read access to the wrapped interface.
    pub fn interface(&self) -> (r: &T)
        ensures
            *r == self.spec_interface(),
    {
        &self.interface
    }

    /// Write access to the wrapped interface; the descriptor stays as it is.
    pub fn interface_mut(&mut self) -> (r: &mut T)
        ensures
            *r == old(self).spec_interface(),
            final(self).spec_interface() == *final(r),
            final(self).spec_record() == old(self).spec_record(),
    {
        &mut self.interface
    }

    /// Tears the device down: the scratch buffer is released and the
    /// interface handed back.
    pub fn into_interface(self) -> (r: T)
        ensures
            r == self.spec_interface(),
    {
        self.interface
    }

    /// Applies what the interface's `open` reported: on success the
    /// descriptor takes the geometry and a one-block scratch buffer, on
    /// failure it stays as it was. Returns the status code for the engine.
    pub fn apply_open(&mut self, opened: Result<BlockDeviceConfig, Error>) -> (r: i32)
        ensures
            final(self).spec_interface() == old(self).spec_interface(),
            match opened {
                Ok(c) => r == EOK && opened_record(final(self).spec_record(), c),
                Err(e) => r == spec_code(e) && final(self).spec_record() == old(self).spec_record(),
            },
    {
        match opened {
            Ok(c) => {
                let scratch: Vec<u8> = vec![0u8; c.block_size as usize];
                assert(scratch@ =~= Seq::new(c.block_size as nat, |i: int| 0u8));
                self.record = DeviceRecord {
                    block_size: c.block_size,
                    block_count: c.block_count,
                    part_size: c.part_size,
                    part_offset: c.part_offset,
                    scratch: Some(scratch),
                };
                EOK
            },
            Err(e) => e.code(),
        }
    }

    /// The engine's `open` callback: opens the interface and applies its
    /// geometry to the descriptor.
    pub fn open(&mut self) -> (r: i32)
        ensures
            match old(self).spec_interface().spec_open_result() {
                Ok(c) => r == EOK && opened_record(final(self).spec_record(), c),
                Err(e) => r == spec_code(e) && final(self).spec_record() == old(self).spec_record(),
            },
    {
        let opened = self.interface.open();
        self.apply_open(opened)
    }

    /// The engine's block-read callback: hands `buf`, which holds exactly
    /// `blk_cnt` blocks, with `blk_id` and `blk_cnt` to the interface's
    /// `read_block`, and reports its result as a status code.
    pub fn bread(&mut self, buf: &mut Vec<u8>, blk_id: u64, blk_cnt: u32) -> (r: i32)
        requires
            old(buf)@.len() == span_len(old(self).spec_record().block_size, blk_cnt),
        ensures
            final(buf)@.len() == old(buf)@.len(),
            final(self).spec_record() == old(self).spec_record(),
            r == spec_result_to_errno(
                old(self).spec_interface().spec_read_result(old(buf)@.len(), blk_id, blk_cnt),
            ),
            r == EOK ==> final(buf)@ == old(self).spec_interface().spec_read_bytes(
                old(buf)@.len(),
                blk_id,
                blk_cnt,
            ),
    {
        let res = self.interface.read_block(buf, blk_id, blk_cnt);
        result_to_errno(res)
    }

    /// The engine's block-write callback: hands `buf`, which holds exactly
    /// `blk_cnt` blocks, with `blk_id` and `blk_cnt` to the interface's
    /// `write_block`, and reports its result as a status code. After a
    /// success, reading the same blocks back yields `buf`.
    pub fn bwrite(&mut self, buf: &[u8], blk_id: u64, blk_cnt: u32) -> (r: i32)
        requires
            buf@.len() == span_len(old(self).spec_record().block_size, blk_cnt),
        ensures
            final(self).spec_record() == old(self).spec_record(),
            r == spec_result_to_errno(
                old(self).spec_interface().spec_write_result(buf@, blk_id, blk_cnt),
            ),
            r == EOK ==> final(self).spec_interface().spec_read_result(buf@.len(), blk_id, blk_cnt) is Ok,
            r == EOK ==> final(self).spec_interface().spec_read_bytes(buf@.len(), blk_id, blk_cnt)
                == buf@,
    {
        let res = self.interface.write_block(buf, blk_id, blk_cnt);
        result_to_errno(res)
    }

    /// The engine's `close` callback: the interface's `close`, as a status code.
    pub fn close(&mut self) -> (r: i32)
        ensures
            final(self).spec_record() == old(self).spec_record(),
            r == spec_result_to_errno(old(self).spec_interface().spec_close_result()),
    {
        let res = self.interface.close();
        result_to_errno(res)
    }

    /// The engine's `lock` callback: the interface's `lock`, as a status code.
    pub fn lock(&mut self) -> (r: i32)
        ensures
            final(self).spec_record() == old(self).spec_record(),
            r == spec_result_to_errno(old(self).spec_interface().spec_lock_result()),
    {
        let res = self.interface.lock();
        result_to_errno(res)
    }

    /// The engine's `unlock` callback: the interface's `unlock`, as a status code.
    pub fn unlock(&mut self) -> (r: i32)
        ensures
            final(self).spec_record() == old(self).spec_record(),
            r == spec_result_to_errno(old(self).spec_interface().spec_unlock_result()),
    {
        let res = self.interface.unlock();
        result_to_errno(res)
    }
}

/// A block range written through the write callback and then read through
/// the read callback, with no call in between, comes back unchanged. The
/// requirements are what `bwrite` ensures of the interface after it
/// reports success; the conclusion, through `bread`'s contract, is that the
/// read reports success and leaves the written bytes in its buffer.
pub proof fn lemma_callback_round_trip<T: BlockDeviceInterface>(after_write: BlockDevice<T>, bytes: Seq<u8>, blk_id: u64, blk_cnt: u32)
    requires
        after_write.spec_interface().spec_read_result(bytes.len(), blk_id, blk_cnt) is Ok,
        after_write.spec_interface().spec_read_bytes(bytes.len(), blk_id, blk_cnt) == bytes,
    ensures
        spec_result_to_errno(after_write.spec_interface().spec_read_result(bytes.len(), blk_id, blk_cnt)) == EOK,
        after_write.spec_interface().spec_read_bytes(bytes.len(), blk_id, blk_cnt) == bytes,
{
}

} // verus!
