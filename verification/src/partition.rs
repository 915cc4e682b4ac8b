//! Block-level layout of a child device.
//!
//! For a device with 512-byte blocks the layout is:
//!
//! ```text
//! 0              protective MBR
//! 1              primary GPT header
//! 2     .. 33    GPT entries
//! 34    .. 2047  unused
//! 2048  .. 10239 metadata reservation (4 MiB)
//! 10240 .. N-34  user data
//! N-33  .. N-2   copy of the GPT entries
//! N-1            secondary GPT header
//! ```
//!
//! All positions are derived from the block length; none is fixed.

use vstd::prelude::*;

verus! {

/// GPT partition table size in bytes.
pub const GPT_TABLE_SIZE: u64 = 128 * 128;

/// Offset for reserved metadata partition, in bytes.
pub const METADATA_RESERVATION_OFFSET: u64 = 1024 * 1024;

/// Reserved size for metadata partition, in bytes.
pub const METADATA_RESERVATION_SIZE: u64 = 4 * 1024 * 1024;

/// Start of data partition, in bytes.
pub const DATA_PARTITION_OFFSET: u64 = METADATA_RESERVATION_OFFSET + METADATA_RESERVATION_SIZE;

/// Number of blocks of `block_len` bytes needed to hold `size` bytes:
/// `size / block_len`, rounded up.
pub open spec fn aligned_blocks(size: nat, block_len: nat) -> nat
    recommends
        block_len > 0,
{
    ((size + block_len - 1) / (block_len as int)) as nat
}

/// `aligned_blocks(size, block_len)` blocks cover `size` bytes, and no
/// smaller number `n` of blocks does.
pub proof fn lemma_aligned_blocks_is_least_cover(size: nat, block_len: nat, n: nat)
    requires
        block_len > 0,
    ensures
        aligned_blocks(size, block_len) * block_len >= size,
        n * block_len >= size ==> aligned_blocks(size, block_len) <= n,
{
    let b = block_len as int;
    let s = size as int;
    let q = (s + b - 1) / b;
    let r = (s + b - 1) % b;
    assert(s + b - 1 == q * b + r && 0 <= r < b && q >= 0) by (nonlinear_arith)
        requires
            b > 0,
            s >= 0,
            q == (s + b - 1) / b,
            r == (s + b - 1) % b,
    ;
    assert(aligned_blocks(size, block_len) == q);
    if n * block_len >= size {
        assert(q <= n) by (nonlinear_arith)
            requires
                n * b >= s,
                s + b - 1 == q * b + r,
                0 <= r < b,
                b > 0,
        ;
    }
}

/// Rounding up agrees with the quotient, plus one where a remainder is left.
pub proof fn lemma_aligned_blocks_div_mod(size: nat, block_len: nat)
    requires
        block_len > 0,
    ensures
        aligned_blocks(size, block_len) == if size % block_len == 0 {
            size / block_len
        } else {
            size / block_len + 1
        },
        aligned_blocks(size, block_len) <= size,
        size > 0 ==> aligned_blocks(size, block_len) >= 1,
{
    let b = block_len as int;
    let s = size as int;
    let q = s / b;
    let r = s % b;
    assert(s == q * b + r && 0 <= r < b && 0 <= q <= s) by (nonlinear_arith)
        requires
            b > 0,
            s >= 0,
            q == s / b,
            r == s % b,
    ;
    let t = if r == 0 {
        q
    } else {
        q + 1
    };
    let rest = if r == 0 {
        b - 1
    } else {
        r - 1
    };
    assert((q + 1) * b == q * b + b) by (nonlinear_arith);
    assert((s + b - 1) / b == t) by (nonlinear_arith)
        requires
            b > 0,
            s + b - 1 == t * b + rest,
            0 <= rest < b,
    ;
    assert(q * b >= q) by (nonlinear_arith)
        requires
            q >= 0,
            b > 0,
    ;
    assert(q == 0 ==> q * b == 0) by (nonlinear_arith);
}

/// Converts an offset in bytes into offset in number of aligned blocks for
/// the given block size.
pub fn bytes_to_alinged_blocks(size: u64, block_len: u64) -> (blocks: u64)
    requires
        block_len > 0,
    ensures
        blocks == aligned_blocks(size as nat, block_len as nat),
{
    proof {
        lemma_aligned_blocks_div_mod(size as nat, block_len as nat);
    }
    let blocks: u64 = size / block_len;
    if size % block_len == 0 {
        blocks
    } else {
        blocks + 1
    }
}

/// An inclusive range of blocks.
pub struct BlockRange {
    pub first: nat,
    pub last: nat,
}

/// What a [`Partitions`] value stands for: the device's size and the three
/// block ranges laid out on it.
pub struct Layout {
    /// Total number of blocks.
    pub num_blocks: nat,
    /// Block size in bytes.
    pub block_len: nat,
    /// The reserved metadata region.
    pub meta: BlockRange,
    /// The user-addressable region.
    pub data: BlockRange,
    /// The full usable range, without the GPT reservations.
    pub lba: BlockRange,
}

impl Layout {
    /// The ranges follow one another and lie on the device: the metadata
    /// region opens the usable range, the data region starts right behind it
    /// and ends within the usable range, and every block is below
    /// `num_blocks`.
    pub open spec fn ordered(self) -> bool {
        &&& self.lba.first == self.meta.first
        &&& self.meta.first <= self.meta.last
        &&& self.meta.last + 1 == self.data.first
        &&& self.data.first <= self.data.last
        &&& self.data.last <= self.lba.last
        &&& self.lba.last < self.num_blocks
    }
}

/// Size and block length of a device, as far as the layout depends on them.
pub struct Geometry {
    pub num_blocks: nat,
    pub block_len: nat,
}

impl Geometry {
    /// The block length is positive and the device's size in bytes fits in
    /// 64 bits.
    pub open spec fn valid(self) -> bool {
        self.block_len > 0 && self.num_blocks * self.block_len <= u64::MAX
    }
}

/// The least number of blocks a device must have to hold the GPT
/// reservations, the metadata reservation and one block of data.
pub open spec fn min_num_blocks(block_len: nat) -> nat {
    aligned_blocks(METADATA_RESERVATION_OFFSET as nat, block_len) + aligned_blocks(
        METADATA_RESERVATION_SIZE as nat,
        block_len,
    ) + aligned_blocks(GPT_TABLE_SIZE as nat, block_len) + 2
}

/// The layout of a device of `num_blocks` blocks of `block_len` bytes on
/// which `req_size` bytes of data are asked for; zero asks for the whole
/// device. `None` where the device is too small for the reservations.
pub open spec fn layout(req_size: nat, num_blocks: nat, block_len: nat) -> Option<Layout>
    recommends
        block_len > 0,
{
    let gpt_blocks = aligned_blocks(GPT_TABLE_SIZE as nat, block_len);
    let lba_start = aligned_blocks(METADATA_RESERVATION_OFFSET as nat, block_len);
    let lba_end = num_blocks - gpt_blocks - 2;
    let meta_blocks = aligned_blocks(METADATA_RESERVATION_SIZE as nat, block_len);
    let data_start = lba_start + meta_blocks;
    let req_bytes = if req_size == 0 {
        num_blocks * block_len
    } else {
        req_size
    };
    let req_blocks = aligned_blocks(req_bytes, block_len);
    let data_end = if data_start + req_blocks - 1 <= lba_end {
        data_start + req_blocks - 1
    } else {
        lba_end
    };
    if data_start > lba_end {
        None
    } else {
        Some(
            Layout {
                num_blocks,
                block_len,
                meta: BlockRange { first: lba_start, last: (data_start - 1) as nat },
                data: BlockRange { first: data_start, last: data_end as nat },
                lba: BlockRange { first: lba_start, last: lba_end as nat },
            },
        )
    }
}

/// A device gets a layout exactly when it has `min_num_blocks` blocks, and
/// every layout is ordered.
pub proof fn lemma_layout_ordered(req_size: nat, num_blocks: nat, block_len: nat)
    requires
        block_len > 0,
    ensures
        layout(req_size, num_blocks, block_len) is Some <==> num_blocks >= min_num_blocks(block_len),
        layout(req_size, num_blocks, block_len) matches Some(l) ==> l.ordered() && l.num_blocks
            == num_blocks && l.block_len == block_len,
{
    lemma_aligned_blocks_div_mod(GPT_TABLE_SIZE as nat, block_len);
    lemma_aligned_blocks_div_mod(METADATA_RESERVATION_OFFSET as nat, block_len);
    lemma_aligned_blocks_div_mod(METADATA_RESERVATION_SIZE as nat, block_len);
    if num_blocks >= min_num_blocks(block_len) {
        let req_bytes = if req_size == 0 {
            num_blocks * block_len
        } else {
            req_size
        };
        assert(num_blocks * block_len > 0) by (nonlinear_arith)
            requires
                num_blocks > 0,
                block_len > 0,
        ;
        lemma_aligned_blocks_div_mod(req_bytes, block_len);
    }
}

/// Asking for zero bytes gives the whole usable range behind the metadata
/// reservation to the data region.
pub proof fn lemma_layout_whole_device(num_blocks: nat, block_len: nat)
    requires
        block_len > 0,
    ensures
        layout(0, num_blocks, block_len) matches Some(l) ==> l.data.last == l.lba.last
            && l.data.first == l.lba.first + aligned_blocks(
            METADATA_RESERVATION_SIZE as nat,
            block_len,
        ),
{
    lemma_layout_ordered(0, num_blocks, block_len);
    lemma_whole_device_blocks(num_blocks, block_len);
}

/// The bytes of a whole device make up exactly its blocks.
proof fn lemma_whole_device_blocks(num_blocks: nat, block_len: nat)
    requires
        block_len > 0,
    ensures
        aligned_blocks(num_blocks * block_len, block_len) == num_blocks,
{
    let b = block_len as int;
    let n = num_blocks as int;
    assert((n * b + b - 1) / b == n) by (nonlinear_arith)
        requires
            b > 0,
            n >= 0,
    ;
}

/// A request that the usable range cannot hold is cut down to that range; a
/// smaller one gets the blocks that it asks for.
pub proof fn lemma_layout_clamps_request(req_size: nat, num_blocks: nat, block_len: nat)
    requires
        block_len > 0,
        req_size > 0,
    ensures
        layout(req_size, num_blocks, block_len) matches Some(l) ==> {
            let asked = aligned_blocks(req_size, block_len);
            let room = l.lba.last - l.data.first + 1;
            l.data.last - l.data.first + 1 == if asked <= room {
                asked as int
            } else {
                room
            }
        },
{
    lemma_layout_ordered(req_size, num_blocks, block_len);
    lemma_aligned_blocks_div_mod(req_size, block_len);
}

/// Size and block length of a block device. The block length is positive and
/// the size in bytes fits in 64 bits.
#[derive(Debug, Clone, Copy, PartialEq, Eq)]
pub struct DeviceGeometry {
    num_blocks: u64,
    block_len: u64,
}

impl View for DeviceGeometry {
    type V = Geometry;

    closed spec fn view(&self) -> Geometry {
        Geometry { num_blocks: self.num_blocks as nat, block_len: self.block_len as nat }
    }
}

impl DeviceGeometry {
    #[verifier::type_invariant]
    spec fn inv(self) -> bool {
        self@.valid()
    }

    /// Describes a device of `num_blocks` blocks of `block_len` bytes.
    /// `None` where the block length is zero or the size in bytes does not
    /// fit in 64 bits.
    pub fn new(num_blocks: u64, block_len: u64) -> (dev: Option<Self>)
        ensures
            dev is Some <==> (Geometry {
                num_blocks: num_blocks as nat,
                block_len: block_len as nat,
            }).valid(),
            dev matches Some(d) ==> d@.num_blocks == num_blocks && d@.block_len == block_len,
    {
        if block_len == 0 {
            return None;
        }
        match num_blocks.checked_mul(block_len) {
            Some(_) => Some(Self { num_blocks, block_len }),
            None => None,
        }
    }

    /// Returns the total number of blocks.
    pub fn num_blocks(&self) -> (n: u64)
        ensures
            n == self@.num_blocks,
            self@.valid(),
    {
        proof {
            use_type_invariant(self);
        }
        self.num_blocks
    }

    /// Returns the block size in bytes.
    pub fn block_len(&self) -> (n: u64)
        ensures
            n == self@.block_len,
            self@.valid(),
    {
        proof {
            use_type_invariant(self);
        }
        self.block_len
    }

    /// Returns the size of the device in bytes.
    pub fn size_in_bytes(&self) -> (n: u64)
        ensures
            n == self@.num_blocks * self@.block_len,
    {
        proof {
            use_type_invariant(self);
        }
        self.num_blocks * self.block_len
    }
}

/// The partitions of a device: where the metadata reservation and the user
/// data lie, in blocks.
#[derive(Debug, Clone, Copy, PartialEq, Eq)]
pub struct Partitions {
    /// Total number of blocks.
    num_blocks: u64,
    /// Block size in bytes.
    block_len: u64,
    /// First and last blocks of the metadata partition.
    meta: (u64, u64),
    /// First and last blocks of the user-data partition.
    data: (u64, u64),
    /// First and last blocks of the usable LBA range.
    lba: (u64, u64),
}

impl View for Partitions {
    type V = Layout;

    closed spec fn view(&self) -> Layout {
        Layout {
            num_blocks: self.num_blocks as nat,
            block_len: self.block_len as nat,
            meta: BlockRange { first: self.meta.0 as nat, last: self.meta.1 as nat },
            data: BlockRange { first: self.data.0 as nat, last: self.data.1 as nat },
            lba: BlockRange { first: self.lba.0 as nat, last: self.lba.1 as nat },
        }
    }
}

impl Partitions {
    #[verifier::type_invariant]
    spec fn inv(self) -> bool {
        &&& self@.ordered()
        &&& self.block_len > 0
        &&& self.num_blocks * self.block_len <= u64::MAX
    }

    /// Calculates offsets of the first and last blocks of the device
    /// partitions for the given device size and block size.
    ///
    /// # Arguments
    /// * `req_size`: Requested data partition size in bytes. If zero, use the
    ///   entire block range.
    /// * `num_blocks`: Size of the device in blocks.
    /// * `block_len`: Block size in bytes.
    ///
    /// # Return
    /// `None` if the device is too small to accommodate the required data
    /// layout.
    pub fn calculate(req_size: u64, num_blocks: u64, block_len: u64) -> (parts: Option<Self>)
        requires
            block_len > 0,
            num_blocks * block_len <= u64::MAX,
        ensures
            match parts {
                Some(p) => layout(req_size as nat, num_blocks as nat, block_len as nat) == Some(p@),
                None => layout(req_size as nat, num_blocks as nat, block_len as nat) is None,
            },
            parts is Some <==> num_blocks >= min_num_blocks(block_len as nat),
            parts matches Some(p) ==> p@.ordered() && p@.num_blocks == num_blocks && p@.block_len
                == block_len,
    {
        proof {
            lemma_layout_ordered(req_size as nat, num_blocks as nat, block_len as nat);
            lemma_aligned_blocks_div_mod(GPT_TABLE_SIZE as nat, block_len as nat);
            lemma_aligned_blocks_div_mod(METADATA_RESERVATION_OFFSET as nat, block_len as nat);
            lemma_aligned_blocks_div_mod(METADATA_RESERVATION_SIZE as nat, block_len as nat);
        }
        // Number of blocks occupied by GPT tables.
        let gpt_blocks: u64 = bytes_to_alinged_blocks(GPT_TABLE_SIZE, block_len);

        // First block of metadata reservation.
        let lba_start: u64 = bytes_to_alinged_blocks(METADATA_RESERVATION_OFFSET, block_len);

        // Blocks used by metadata reservation.
        let meta_blocks: u64 = bytes_to_alinged_blocks(METADATA_RESERVATION_SIZE, block_len);

        // First block of data.
        let data_start: u64 = lba_start + meta_blocks;

        if num_blocks < gpt_blocks + 2 {
            // Not even the GPT reservations fit.
            return None;
        }
        // Last usable device block.

        let lba_end: u64 = num_blocks - gpt_blocks - 2;
        if data_start > lba_end {
            // Device is too small to accommodate Metadata reservation.
            return None;
        }
        // Number of requested data blocks.

        let req_blocks: u64 = if req_size == 0 {
            proof {
                lemma_whole_device_blocks(num_blocks as nat, block_len as nat);
            }
            num_blocks
        } else {
            proof {
                lemma_aligned_blocks_div_mod(req_size as nat, block_len as nat);
            }
            bytes_to_alinged_blocks(req_size, block_len)
        };

        // Last data block: the request, cut down to the usable range.
        let data_end: u64 = if req_blocks - 1 <= lba_end - data_start {
            data_start + (req_blocks - 1)
        } else {
            lba_end
        };

        Some(
            Self {
                num_blocks,
                block_len,
                meta: (lba_start, data_start - 1),
                data: (data_start, data_end),
                lba: (lba_start, lba_end),
            },
        )
    }

    /// Calculates offsets of the first and last blocks of the device
    /// partitions for the given device, with the whole usable range given to
    /// the data partition.
    pub fn calculate_for_device(dev: &DeviceGeometry) -> (parts: Option<Self>)
        ensures
            match parts {
                Some(p) => layout(0, dev@.num_blocks, dev@.block_len) == Some(p@),
                None => layout(0, dev@.num_blocks, dev@.block_len) is None,
            },
            parts is Some <==> dev@.num_blocks >= min_num_blocks(dev@.block_len),
            parts matches Some(p) ==> p@.ordered() && p@.num_blocks == dev@.num_blocks
                && p@.block_len == dev@.block_len,
    {
        Self::calculate(0, dev.num_blocks(), dev.block_len())
    }

    /// Returns the total number of blocks.
    pub fn num_blocks(&self) -> (n: u64)
        ensures
            n == self@.num_blocks,
    {
        self.num_blocks
    }

    /// Returns the block size in bytes.
    pub fn block_len(&self) -> (n: u64)
        ensures
            n == self@.block_len,
    {
        self.block_len
    }

    /// Returns the first block of the metadata partition.
    pub fn meta_start_blk(&self) -> (blk: u64)
        ensures
            blk == self@.meta.first,
    {
        self.meta.0
    }

    /// Returns the offset of the metadata partition start in bytes.
    pub fn meta_start_offset(&self) -> (offset: u64)
        ensures
            offset == self@.meta.first * self@.block_len,
    {
        proof {
            use_type_invariant(self);
            lemma_bytes_fit(self.meta.0 as nat, self.num_blocks as nat, self.block_len as nat);
        }
        self.meta.0 * self.block_len
    }

    /// Returns the last block of the metadata partition.
    pub fn meta_end_blk(&self) -> (blk: u64)
        ensures
            blk == self@.meta.last,
    {
        self.meta.1
    }

    /// Returns the total number of blocks of the metadata partition.
    pub fn meta_blocks(&self) -> (n: u64)
        ensures
            n == self@.meta.last - self@.meta.first + 1,
            n >= 1,
    {
        proof {
            use_type_invariant(self);
        }
        self.meta_end_blk() - self.meta_start_blk() + 1
    }

    /// Returns the size of the metadata partition in bytes.
    pub fn meta_size(&self) -> (size: u64)
        ensures
            size == (self@.meta.last - self@.meta.first + 1) * self@.block_len,
    {
        proof {
            use_type_invariant(self);
            lemma_bytes_fit(
                (self.meta.1 - self.meta.0 + 1) as nat,
                self.num_blocks as nat,
                self.block_len as nat,
            );
        }
        self.meta_blocks() * self.block_len
    }

    /// Returns the first block of the user-data partition.
    pub fn data_start_blk(&self) -> (blk: u64)
        ensures
            blk == self@.data.first,
    {
        self.data.0
    }

    /// Returns the offset of the user-data partition start in bytes.
    pub fn data_start_offset(&self) -> (offset: u64)
        ensures
            offset == self@.data.first * self@.block_len,
    {
        proof {
            use_type_invariant(self);
            lemma_bytes_fit(self.data.0 as nat, self.num_blocks as nat, self.block_len as nat);
        }
        self.data.0 * self.block_len
    }

    /// Returns the last block of the user-data partition.
    pub fn data_end_blk(&self) -> (blk: u64)
        ensures
            blk == self@.data.last,
    {
        self.data.1
    }

    /// Returns the total number of blocks of the user-data partition.
    pub fn data_blocks(&self) -> (n: u64)
        ensures
            n == self@.data.last - self@.data.first + 1,
            n >= 1,
    {
        proof {
            use_type_invariant(self);
        }
        self.data_end_blk() - self.data_start_blk() + 1
    }

    /// Returns the size of the user-data partition in bytes.
    pub fn data_size(&self) -> (size: u64)
        ensures
            size == (self@.data.last - self@.data.first + 1) * self@.block_len,
    {
        proof {
            use_type_invariant(self);
            lemma_bytes_fit(
                (self.data.1 - self.data.0 + 1) as nat,
                self.num_blocks as nat,
                self.block_len as nat,
            );
        }
        self.data_blocks() * self.block_len
    }

    /// Returns the first block of the usable LBA range.
    pub fn lba_start_blk(&self) -> (blk: u64)
        ensures
            blk == self@.lba.first,
    {
        self.lba.0
    }

    /// Returns the last block of the usable LBA range.
    pub fn lba_end_blk(&self) -> (blk: u64)
        ensures
            blk == self@.lba.last,
    {
        self.lba.1
    }

    /// Returns the total number of blocks of the usable LBA range.
    pub fn lba_blocks(&self) -> (n: u64)
        ensures
            n == self@.lba.last - self@.lba.first + 1,
            n >= 2,
    {
        proof {
            use_type_invariant(self);
        }
        self.lba_end_blk() - self.lba_start_blk() + 1
    }
}

/// A count of blocks that the device holds takes no more bytes than the
/// device.
proof fn lemma_bytes_fit(blocks: nat, num_blocks: nat, block_len: nat)
    requires
        blocks <= num_blocks,
    ensures
        blocks * block_len <= num_blocks * block_len,
{
    assert(blocks * block_len <= num_blocks * block_len) by (nonlinear_arith)
        requires
            blocks <= num_blocks,
    ;
}

} // verus!
