//! Where and how much to read and write on a child device.
//!
//! The metadata of a child lies at the start of its metadata partition.
//! Reading takes two transfers: the first header, which tells how long the
//! envelope is, and then the whole envelope. Writing takes one. The
//! transfers themselves are the caller's; this module says what to transfer
//! and what to make of the bytes that came back.

use crate::envelope::{
    envelope, envelope_header, lemma_envelope_holds_payload, lemma_envelope_parses_to_record,
    lemma_header_bytes_round_trip, max_payload_len, parse_envelope, parsed, Buffer, Header,
    HeaderView, HEADER_SIZE,
};
use crate::metadata::{decoded, Error, Metadata, MetadataView};
use crate::partition::{layout, DeviceGeometry, Geometry, Partitions};
use vstd::prelude::*;
use vstd::slice::slice_subrange;

verus! {

/// A transfer to or from a device: `len` bytes at the byte `offset`.
#[derive(Debug, Clone, Copy, PartialEq, Eq, Structural)]
pub struct Transfer {
    pub offset: u64,
    pub len: u64,
}

/// Where the metadata partition of a device starts and how long it is, in
/// bytes; `None` for a device without partitions.
pub open spec fn metadata_region(dev: Geometry) -> Option<Transfer> {
    match layout(0, dev.num_blocks, dev.block_len) {
        Some(l) => Some(
            Transfer {
                offset: (l.meta.first * l.block_len) as u64,
                len: ((l.meta.last - l.meta.first + 1) * l.block_len) as u64,
            },
        ),
        None => None,
    }
}

/// Finds the metadata partition of a device. Fails with `BadPartitions`
/// where the device is too small to have one.
pub fn locate_metadata(dev: &DeviceGeometry) -> (region: Result<Transfer, Error>)
    ensures
        match region {
            Ok(r) => metadata_region(dev@) == Some(r),
            Err(e) => e == Error::BadPartitions && metadata_region(dev@) is None,
        },
{
    match Partitions::calculate_for_device(dev) {
        Some(parts) => Ok(Transfer { offset: parts.meta_start_offset(), len: parts.meta_size() }),
        None => Err(Error::BadPartitions),
    }
}

/// A read of metadata that waits for the first header.
#[derive(Debug, Clone, Copy, PartialEq, Eq, Structural)]
pub struct HeaderRead {
    /// The metadata partition.
    pub region: Transfer,
}

/// A read of metadata that waits for the whole envelope.
#[derive(Debug, Clone, Copy, PartialEq, Eq, Structural)]
pub struct EnvelopeRead {
    /// Where the envelope starts.
    pub offset: u64,
    /// The length that the first header gave.
    pub length: u32,
}

/// What follows from the bytes of a first header, for a metadata partition
/// of `region.len` bytes: the length of the envelope to read, or
/// `InvalidHeader` where there are fewer than 32 bytes, the first 32 are no
/// header of this format, or the length that they give is less than two
/// headers or more than the partition.
pub open spec fn envelope_length(region: Transfer, bytes: Seq<u8>) -> Result<u32, Error> {
    if bytes.len() < HEADER_SIZE {
        Err(Error::InvalidHeader)
    } else {
        match HeaderView::parse(bytes.subrange(0, HEADER_SIZE as int)) {
            None => Err(Error::InvalidHeader),
            Some(header) => if header.length < 2 * HEADER_SIZE || header.length > region.len {
                Err(Error::InvalidHeader)
            } else {
                Ok(header.length)
            },
        }
    }
}

/// What follows from the bytes read for an envelope of `length` bytes: the
/// record in the first `length` of them, or what is wrong with them;
/// `InvalidHeader` where fewer than `length` came back.
pub open spec fn envelope_record(length: u32, bytes: Seq<u8>) -> Result<MetadataView, Error> {
    if bytes.len() < length {
        Err(Error::InvalidHeader)
    } else {
        parsed(bytes.subrange(0, length as int))
    }
}

impl HeaderRead {
    /// The transfer to make: the 32 bytes of the first header.
    pub fn transfer(&self) -> (t: Transfer)
        ensures
            t == (Transfer { offset: self.region.offset, len: HEADER_SIZE as u64 }),
    {
        Transfer { offset: self.region.offset, len: HEADER_SIZE as u64 }
    }

    /// Takes the bytes that the transfer brought, and goes on to the read of
    /// the whole envelope.
    pub fn complete(self, data: &[u8]) -> (next: Result<EnvelopeRead, Error>)
        ensures
            match next {
                Ok(n) => envelope_length(self.region, data@) == Ok::<u32, Error>(n.length)
                    && n.offset == self.region.offset,
                Err(e) => envelope_length(self.region, data@) == Err::<u32, Error>(e),
            },
    {
        if data.len() < HEADER_SIZE {
            return Err(Error::InvalidHeader);
        }
        let header = match Header::from_slice(slice_subrange(data, 0, HEADER_SIZE)) {
            Ok(header) => header,
            Err(e) => {
                return Err(e);
            },
        };
        if header.length < 2 * HEADER_SIZE as u32 || header.length as u64 > self.region.len {
            return Err(Error::InvalidHeader);
        }
        Ok(EnvelopeRead { offset: self.region.offset, length: header.length })
    }
}

impl EnvelopeRead {
    /// The transfer to make: the whole envelope.
    pub fn transfer(&self) -> (t: Transfer)
        ensures
            t == (Transfer { offset: self.offset, len: self.length as u64 }),
    {
        Transfer { offset: self.offset, len: self.length as u64 }
    }

    /// Takes the bytes that the transfer brought, and reads the record out
    /// of them.
    pub fn complete(self, data: &[u8]) -> (md: Result<Metadata, Error>)
        ensures
            match md {
                Ok(m) => envelope_record(self.length, data@) == Ok::<MetadataView, Error>(m@),
                Err(e) => envelope_record(self.length, data@) == Err::<MetadataView, Error>(e),
            },
    {
        let length = self.length as usize;
        if data.len() < length {
            return Err(Error::InvalidHeader);
        }
        parse_envelope(slice_subrange(data, 0, length))
    }
}

impl Buffer {
    /// Starts reading metadata from the device's metadata partition. Fails
    /// with `BadPartitions` where the device is too small to have one.
    pub fn read(dev: &DeviceGeometry) -> (first: Result<HeaderRead, Error>)
        ensures
            match first {
                Ok(r) => metadata_region(dev@) == Some(r.region),
                Err(e) => e == Error::BadPartitions && metadata_region(dev@) is None,
            },
    {
        match locate_metadata(dev) {
            Ok(region) => Ok(HeaderRead { region }),
            Err(e) => Err(e),
        }
    }

    /// Says where to write the envelope on the device: all of it, in one
    /// transfer, at the start of the metadata partition. Fails with
    /// `BadPartitions` where the device is too small to have one, and with
    /// `NoSpace` where the envelope is larger than the partition.
    pub fn write(&self, dev: &DeviceGeometry) -> (t: Result<Transfer, Error>)
        ensures
            match metadata_region(dev@) {
                None => t == Err::<Transfer, Error>(Error::BadPartitions),
                Some(region) => if self@.len() > region.len {
                    t == Err::<Transfer, Error>(Error::NoSpace)
                } else {
                    t == Ok::<Transfer, Error>(
                        Transfer { offset: region.offset, len: self@.len() as u64 },
                    )
                },
            },
    {
        let region = match locate_metadata(dev) {
            Ok(region) => region,
            Err(e) => {
                return Err(e);
            },
        };
        if self.len() as u64 > region.len {
            return Err(Error::NoSpace);
        }
        Ok(Transfer { offset: region.offset, len: self.len() as u64 })
    }
}

/// Reading back an envelope that was written gives the length of that
/// envelope at the first step, and at the second the record that its payload
/// decodes to.
pub proof fn lemma_read_follows_write(region: Transfer, payload: Seq<u8>)
    requires
        payload.len() <= max_payload_len(),
        envelope(payload).len() <= region.len,
    ensures
        envelope_length(region, envelope(payload).subrange(0, HEADER_SIZE as int)) == Ok::<
            u32,
            Error,
        >(envelope(payload).len() as u32),
        envelope_record(envelope(payload).len() as u32, envelope(payload)) == match decoded(
            payload,
        ) {
            Some(md) => Ok::<MetadataView, Error>(md),
            None => Err::<MetadataView, Error>(Error::DecodeFailed),
        },
{
    lemma_first_header_gives_length(region, payload);
    lemma_whole_envelope_gives_record(payload);
}

/// The first header of an envelope that fits the partition gives the length
/// of the envelope.
proof fn lemma_first_header_gives_length(region: Transfer, payload: Seq<u8>)
    requires
        payload.len() <= max_payload_len(),
        envelope(payload).len() <= region.len,
    ensures
        envelope_length(region, envelope(payload).subrange(0, HEADER_SIZE as int)) == Ok::<
            u32,
            Error,
        >(envelope(payload).len() as u32),
{
    let header = envelope_header(payload);
    let first = envelope(payload).subrange(0, HEADER_SIZE as int);
    lemma_header_bytes_round_trip(header, header.bytes());
    lemma_envelope_holds_payload(payload);
    assert(first =~= header.bytes());
    assert(first.subrange(0, HEADER_SIZE as int) =~= first);
    assert(HeaderView::parse(first) == Some(header));
}

/// The bytes of an envelope, read in its whole length, give the record that
/// its payload decodes to.
proof fn lemma_whole_envelope_gives_record(payload: Seq<u8>)
    requires
        payload.len() <= max_payload_len(),
    ensures
        envelope_record(envelope(payload).len() as u32, envelope(payload)) == match decoded(
            payload,
        ) {
            Some(md) => Ok::<MetadataView, Error>(md),
            None => Err::<MetadataView, Error>(Error::DecodeFailed),
        },
{
    let bytes = envelope(payload);
    lemma_envelope_holds_payload(payload);
    lemma_envelope_parses_to_record(payload);
    assert(bytes.subrange(0, bytes.len() as int) =~= bytes);
}

} // verus!
