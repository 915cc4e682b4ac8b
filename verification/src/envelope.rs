//! The envelope in which a payload is stored on a device.
//!
//! An envelope is a header of 32 bytes, the payload, and the same header
//! once more. All numbers are little-endian.
//!
//! | bytes  | field       |                                           |
//! |--------|-------------|-------------------------------------------|
//! | 0..8   | magic       | identifies the format                     |
//! | 8..12  | version     | version of the format                     |
//! | 12..16 | length      | length of the envelope, both headers in   |
//! | 16..20 | md_offset   | where the payload starts in the envelope  |
//! | 20..24 | md_length   | length of the payload                     |
//! | 24..32 | md_checksum | checksum of the payload                   |

use crate::checksum::{checksum_of, fnv1a_64, lemma_checksum_detects_changed_byte};
use crate::metadata::{decoded, encoded, Error, Metadata, MetadataView};
use vstd::bytes::{
    lemma_auto_spec_u32_to_from_le_bytes, lemma_auto_spec_u64_to_from_le_bytes,
    spec_u32_from_le_bytes, spec_u32_to_le_bytes, spec_u64_from_le_bytes, spec_u64_to_le_bytes,
    u32_from_le_bytes, u32_to_le_bytes, u64_from_le_bytes, u64_to_le_bytes,
};
use vstd::prelude::*;
use vstd::slice::slice_subrange;

verus! {

/// The bytes that open a header: `NEXUSMD0`.
pub const HEADER_MAGIC: [u8; 8] = [0x4e, 0x45, 0x58, 0x55, 0x53, 0x4d, 0x44, 0x30];

/// The version of the format.
pub const HEADER_VERSION: u32 = 1000;

/// The length of a header in bytes.
pub const HEADER_SIZE: usize = 32;

/// The header of an envelope.
#[derive(Debug, Clone, Copy, PartialEq, Eq)]
pub struct Header {
    /// Header magic number.
    pub magic: [u8; 8],
    /// Header version.
    pub version: u32,
    /// Length of the entire data, including the headers.
    pub length: u32,
    /// Start of the metadata buffer.
    pub md_offset: u32,
    /// Length of the metadata buffer.
    pub md_length: u32,
    /// Checksum of the metadata buffer.
    pub md_checksum: u64,
}

/// What a [`Header`] holds.
pub struct HeaderView {
    pub magic: Seq<u8>,
    pub version: u32,
    pub length: u32,
    pub md_offset: u32,
    pub md_length: u32,
    pub md_checksum: u64,
}

impl View for Header {
    type V = HeaderView;

    open spec fn view(&self) -> HeaderView {
        HeaderView {
            magic: self.magic@,
            version: self.version,
            length: self.length,
            md_offset: self.md_offset,
            md_length: self.md_length,
            md_checksum: self.md_checksum,
        }
    }
}

impl HeaderView {
    /// The header has the magic and the version of this format.
    pub open spec fn recognized(self) -> bool {
        self.magic == HEADER_MAGIC@ && self.version == HEADER_VERSION
    }

    /// The 32 bytes of the header.
    pub open spec fn bytes(self) -> Seq<u8> {
        self.magic + spec_u32_to_le_bytes(self.version) + spec_u32_to_le_bytes(self.length)
            + spec_u32_to_le_bytes(self.md_offset) + spec_u32_to_le_bytes(self.md_length)
            + spec_u64_to_le_bytes(self.md_checksum)
    }

    /// The header whose fields are read from 32 bytes.
    pub open spec fn of_bytes(bytes: Seq<u8>) -> HeaderView
        recommends
            bytes.len() == HEADER_SIZE,
    {
        HeaderView {
            magic: bytes.subrange(0, 8),
            version: spec_u32_from_le_bytes(bytes.subrange(8, 12)),
            length: spec_u32_from_le_bytes(bytes.subrange(12, 16)),
            md_offset: spec_u32_from_le_bytes(bytes.subrange(16, 20)),
            md_length: spec_u32_from_le_bytes(bytes.subrange(20, 24)),
            md_checksum: spec_u64_from_le_bytes(bytes.subrange(24, 32)),
        }
    }

    /// The header that the bytes hold: they are 32, and open with the magic
    /// and the version of this format.
    pub open spec fn parse(bytes: Seq<u8>) -> Option<HeaderView> {
        if bytes.len() == HEADER_SIZE && Self::of_bytes(bytes).recognized() {
            Some(Self::of_bytes(bytes))
        } else {
            None
        }
    }
}

/// A header with a magic of 8 bytes is read back from its bytes, and 32
/// bytes are the bytes of the header read from them.
pub proof fn lemma_header_bytes_round_trip(header: HeaderView, bytes: Seq<u8>)
    ensures
        header.magic.len() == 8 ==> header.bytes().len() == HEADER_SIZE && HeaderView::of_bytes(
            header.bytes(),
        ) == header,
        bytes.len() == HEADER_SIZE ==> HeaderView::of_bytes(bytes).bytes() == bytes,
{
    lemma_auto_spec_u32_to_from_le_bytes();
    lemma_auto_spec_u64_to_from_le_bytes();
    if header.magic.len() == 8 {
        let b = header.bytes();
        assert(b.subrange(0, 8) =~= header.magic);
        assert(b.subrange(8, 12) =~= spec_u32_to_le_bytes(header.version));
        assert(b.subrange(12, 16) =~= spec_u32_to_le_bytes(header.length));
        assert(b.subrange(16, 20) =~= spec_u32_to_le_bytes(header.md_offset));
        assert(b.subrange(20, 24) =~= spec_u32_to_le_bytes(header.md_length));
        assert(b.subrange(24, 32) =~= spec_u64_to_le_bytes(header.md_checksum));
    }
    if bytes.len() == HEADER_SIZE {
        let h = HeaderView::of_bytes(bytes);
        assert(spec_u32_to_le_bytes(h.version) == bytes.subrange(8, 12));
        assert(spec_u32_to_le_bytes(h.length) == bytes.subrange(12, 16));
        assert(spec_u32_to_le_bytes(h.md_offset) == bytes.subrange(16, 20));
        assert(spec_u32_to_le_bytes(h.md_length) == bytes.subrange(20, 24));
        assert(spec_u64_to_le_bytes(h.md_checksum) == bytes.subrange(24, 32));
        assert(h.bytes() =~= bytes);
    }
}

impl Header {
    /// Returns the 32 bytes of the header.
    pub fn to_vec(&self) -> (bytes: Vec<u8>)
        ensures
            bytes@ == self@.bytes(),
            bytes.len() == HEADER_SIZE,
    {
        proof {
            lemma_auto_spec_u32_to_from_le_bytes();
            lemma_auto_spec_u64_to_from_le_bytes();
        }
        let mut bytes: Vec<u8> = Vec::new();
        let mut i: usize = 0;
        while i < 8
            invariant
                i <= 8,
                bytes@ == self.magic@.take(i as int),
            decreases 8 - i,
        {
            bytes.push(self.magic[i]);
            proof {
                assert(bytes@ =~= self.magic@.take(i + 1));
            }
            i += 1;
        }
        proof {
            assert(self.magic@.take(8) =~= self.magic@);
        }
        let mut version = u32_to_le_bytes(self.version);
        bytes.append(&mut version);
        let mut length = u32_to_le_bytes(self.length);
        bytes.append(&mut length);
        let mut md_offset = u32_to_le_bytes(self.md_offset);
        bytes.append(&mut md_offset);
        let mut md_length = u32_to_le_bytes(self.md_length);
        bytes.append(&mut md_length);
        let mut md_checksum = u64_to_le_bytes(self.md_checksum);
        bytes.append(&mut md_checksum);
        bytes
    }

    /// Reads a header from its 32 bytes. Fails with `InvalidHeader` where
    /// the bytes are not 32, or do not open with the magic and the version of
    /// this format.
    pub fn from_slice(buf: &[u8]) -> (header: Result<Header, Error>)
        ensures
            match header {
                Ok(h) => HeaderView::parse(buf@) == Some(h@),
                Err(e) => e == Error::InvalidHeader && HeaderView::parse(buf@) is None,
            },
    {
        if buf.len() != HEADER_SIZE {
            return Err(Error::InvalidHeader);
        }
        let ghost view = HeaderView::of_bytes(buf@);
        let mut i: usize = 0;
        while i < 8
            invariant
                i <= 8,
                buf.len() == HEADER_SIZE,
                forall|k: int| 0 <= k < i ==> buf@[k] == HEADER_MAGIC@[k],
            decreases 8 - i,
        {
            if buf[i] != HEADER_MAGIC[i] {
                proof {
                    assert(buf@.subrange(0, 8)[i as int] == buf@[i as int]);
                }
                return Err(Error::InvalidHeader);
            }
            i += 1;
        }
        proof {
            assert(buf@.subrange(0, 8) =~= HEADER_MAGIC@);
        }
        let version = u32_from_le_bytes(slice_subrange(buf, 8, 12));
        if version != HEADER_VERSION {
            return Err(Error::InvalidHeader);
        }
        Ok(
            Header {
                magic: HEADER_MAGIC,
                version,
                length: u32_from_le_bytes(slice_subrange(buf, 12, 16)),
                md_offset: u32_from_le_bytes(slice_subrange(buf, 16, 20)),
                md_length: u32_from_le_bytes(slice_subrange(buf, 20, 24)),
                md_checksum: u64_from_le_bytes(slice_subrange(buf, 24, 32)),
            },
        )
    }
}

/// The longest payload that an envelope can hold: its length, with both
/// headers, must fit in 32 bits.
pub open spec fn max_payload_len() -> nat {
    (u32::MAX - 2 * HEADER_SIZE) as nat
}

/// The header of the envelope of `payload`.
pub open spec fn envelope_header(payload: Seq<u8>) -> HeaderView
    recommends
        payload.len() <= max_payload_len(),
{
    HeaderView {
        magic: HEADER_MAGIC@,
        version: HEADER_VERSION,
        length: (2 * HEADER_SIZE + payload.len()) as u32,
        md_offset: HEADER_SIZE as u32,
        md_length: payload.len() as u32,
        md_checksum: checksum_of(payload),
    }
}

/// The envelope of `payload`: its header, the payload, and the header again.
pub open spec fn envelope(payload: Seq<u8>) -> Seq<u8>
    recommends
        payload.len() <= max_payload_len(),
{
    envelope_header(payload).bytes() + payload + envelope_header(payload).bytes()
}

/// The payload that the envelope at the start of `bytes` holds, or what is
/// wrong with it.
///
/// `InvalidHeader`: there are fewer than 32 bytes; the first 32 do not open
/// with the magic and the version; the length that they give is less than two
/// headers or more than there are bytes; the 32 bytes at the end of that
/// length are not the same as the first 32; or the payload that they
/// describe does not lie between the two. `ChecksumMismatch`: the payload
/// does not have the checksum that the header gives.
pub open spec fn envelope_payload(bytes: Seq<u8>) -> Result<Seq<u8>, Error> {
    if bytes.len() < HEADER_SIZE {
        Err(Error::InvalidHeader)
    } else {
        match HeaderView::parse(bytes.subrange(0, HEADER_SIZE as int)) {
            None => Err(Error::InvalidHeader),
            Some(header) => {
                let length = header.length as int;
                let start = header.md_offset as int;
                let end = header.md_offset + header.md_length;
                if length < 2 * HEADER_SIZE || length > bytes.len() {
                    Err(Error::InvalidHeader)
                } else if bytes.subrange(length - HEADER_SIZE, length) != bytes.subrange(
                    0,
                    HEADER_SIZE as int,
                ) {
                    Err(Error::InvalidHeader)
                } else if start < HEADER_SIZE || end > length - HEADER_SIZE {
                    Err(Error::InvalidHeader)
                } else if checksum_of(bytes.subrange(start, end)) != header.md_checksum {
                    Err(Error::ChecksumMismatch)
                } else {
                    Ok(bytes.subrange(start, end))
                }
            },
        }
    }
}

/// The record that the envelope at the start of `bytes` holds, or what is
/// wrong with it: what is wrong with the envelope, or `DecodeFailed` where
/// its payload is not that of a record.
pub open spec fn parsed(bytes: Seq<u8>) -> Result<MetadataView, Error> {
    match envelope_payload(bytes) {
        Err(e) => Err(e),
        Ok(payload) => match decoded(payload) {
            Some(md) => Ok(md),
            None => Err(Error::DecodeFailed),
        },
    }
}

/// An envelope holds its payload.
pub proof fn lemma_envelope_holds_payload(payload: Seq<u8>)
    requires
        payload.len() <= max_payload_len(),
    ensures
        envelope(payload).len() == payload.len() + 2 * HEADER_SIZE,
        envelope_payload(envelope(payload)) == Ok::<Seq<u8>, Error>(payload),
{
    let header = envelope_header(payload);
    let bytes = envelope(payload);
    lemma_header_bytes_round_trip(header, header.bytes());
    assert(bytes.subrange(0, HEADER_SIZE as int) =~= header.bytes());
    assert(bytes.subrange(bytes.len() - HEADER_SIZE, bytes.len() as int) =~= header.bytes());
    assert(bytes.subrange(HEADER_SIZE as int, HEADER_SIZE + payload.len()) =~= payload);
}

/// The envelope of a payload parses to the record that the payload decodes
/// to, and fails with `DecodeFailed` where the payload decodes to none.
pub proof fn lemma_envelope_parses_to_record(payload: Seq<u8>)
    requires
        payload.len() <= max_payload_len(),
    ensures
        parsed(envelope(payload)) == match decoded(payload) {
            Some(md) => Ok::<MetadataView, Error>(md),
            None => Err::<MetadataView, Error>(Error::DecodeFailed),
        },
{
    lemma_envelope_holds_payload(payload);
}

/// An envelope in whose payload one byte was changed is found out: its
/// checksum no longer matches.
pub proof fn lemma_changed_payload_byte_is_detected(payload: Seq<u8>, at: int, byte: u8)
    requires
        payload.len() <= max_payload_len(),
        0 <= at < payload.len(),
        byte != payload[at],
    ensures
        envelope_payload(envelope(payload).update(HEADER_SIZE + at, byte)) == Err::<
            Seq<u8>,
            Error,
        >(Error::ChecksumMismatch),
        parsed(envelope(payload).update(HEADER_SIZE + at, byte)) == Err::<MetadataView, Error>(
            Error::ChecksumMismatch,
        ),
{
    let header = envelope_header(payload);
    let bytes = envelope(payload).update(HEADER_SIZE + at, byte);
    lemma_header_bytes_round_trip(header, header.bytes());
    assert(bytes.subrange(0, HEADER_SIZE as int) =~= header.bytes());
    assert(bytes.subrange(bytes.len() - HEADER_SIZE, bytes.len() as int) =~= header.bytes());
    assert(bytes.subrange(HEADER_SIZE as int, HEADER_SIZE + payload.len()) =~= payload.update(
        at,
        byte,
    ));
    lemma_checksum_detects_changed_byte(payload, at, byte);
}

/// An envelope in which one byte was changed, wherever, is found out. In
/// the payload the checksum no longer matches; in either header, the headers
/// no longer are two copies of a header of this format that describes what
/// lies between them.
pub proof fn lemma_changed_byte_is_detected(payload: Seq<u8>, at: int, byte: u8)
    requires
        payload.len() <= max_payload_len(),
        0 <= at < envelope(payload).len(),
        byte != envelope(payload)[at],
    ensures
        envelope_payload(envelope(payload).update(at, byte)) == Err::<Seq<u8>, Error>(
            if HEADER_SIZE <= at < HEADER_SIZE + payload.len() {
                Error::ChecksumMismatch
            } else {
                Error::InvalidHeader
            },
        ),
{
    let header = envelope_header(payload);
    let hb = header.bytes();
    let whole = envelope(payload);
    let n = whole.len() as int;
    let changed = whole.update(at, byte);
    lemma_envelope_holds_payload(payload);
    lemma_header_bytes_round_trip(header, hb);
    assert(whole.subrange(0, HEADER_SIZE as int) =~= hb);
    assert(whole.subrange(n - HEADER_SIZE, n) =~= hb);
    if HEADER_SIZE <= at < HEADER_SIZE + payload.len() {
        assert(whole[at] == payload[at - HEADER_SIZE]);
        lemma_changed_payload_byte_is_detected(payload, at - HEADER_SIZE, byte);
    } else if at >= HEADER_SIZE {
        // The header at the end was changed.
        let last = changed.subrange(n - HEADER_SIZE, n);
        assert(changed.subrange(0, HEADER_SIZE as int) =~= hb);
        assert(last[at - (n - HEADER_SIZE)] == byte);
        assert(hb[at - (n - HEADER_SIZE)] == whole[at]);
    } else {
        // The header at the start was changed.
        let first = changed.subrange(0, HEADER_SIZE as int);
        assert(first =~= hb.update(at, byte));
        assert(first[at] != hb[at]);
        assert(changed.subrange(n - HEADER_SIZE, n) =~= hb);
        if HeaderView::parse(first) is Some {
            let found = HeaderView::of_bytes(first);
            if 2 * HEADER_SIZE <= found.length < n {
                if !(12 <= at < 16) {
                    assert(first.subrange(12, 16) =~= hb.subrange(12, 16));
                }
                assert(first.subrange(16, 20) =~= hb.subrange(16, 20));
                assert(first.subrange(20, 24) =~= hb.subrange(20, 24));
            }
        }
    }
}

/// Takes the payload out of the envelope at the start of `bytes`.
pub fn open_envelope(bytes: &[u8]) -> (payload: Result<&[u8], Error>)
    ensures
        match payload {
            Ok(p) => envelope_payload(bytes@) == Ok::<Seq<u8>, Error>(p@),
            Err(e) => envelope_payload(bytes@) == Err::<Seq<u8>, Error>(e),
        },
{
    if bytes.len() < HEADER_SIZE {
        return Err(Error::InvalidHeader);
    }
    let first = slice_subrange(bytes, 0, HEADER_SIZE);
    let header = match Header::from_slice(first) {
        Ok(header) => header,
        Err(e) => {
            return Err(e);
        },
    };
    let length = header.length as usize;
    if length < 2 * HEADER_SIZE || length > bytes.len() {
        return Err(Error::InvalidHeader);
    }
    // The header at the end must be the same as the first, byte for byte.
    let last = slice_subrange(bytes, length - HEADER_SIZE, length);
    let mut i: usize = 0;
    while i < HEADER_SIZE
        invariant
            i <= HEADER_SIZE,
            first@.len() == HEADER_SIZE,
            last@.len() == HEADER_SIZE,
            2 * HEADER_SIZE <= length <= bytes.len(),
            length == header.length,
            HeaderView::parse(first@) == Some(header@),
            first@ == bytes@.subrange(0, HEADER_SIZE as int),
            last@ == bytes@.subrange(length - HEADER_SIZE, length as int),
            forall|k: int| 0 <= k < i ==> first@[k] == last@[k],
        decreases HEADER_SIZE - i,
    {
        if first[i] != last[i] {
            proof {
                assert(first@[i as int] != last@[i as int]);
            }
            return Err(Error::InvalidHeader);
        }
        i += 1;
    }
    proof {
        assert(first@ =~= last@);
    }
    let start = header.md_offset as usize;
    if start < HEADER_SIZE || start > length - HEADER_SIZE || header.md_length as usize > length
        - HEADER_SIZE - start {
        return Err(Error::InvalidHeader);
    }
    let end = start + header.md_length as usize;
    let payload = slice_subrange(bytes, start, end);
    if fnv1a_64(payload) != header.md_checksum {
        return Err(Error::ChecksumMismatch);
    }
    Ok(payload)
}

/// Reads the record out of the envelope at the start of `bytes`: checks the
/// header, its copy at the end and the checksum, then decodes the payload.
pub fn parse_envelope(bytes: &[u8]) -> (md: Result<Metadata, Error>)
    ensures
        match md {
            Ok(m) => parsed(bytes@) == Ok::<MetadataView, Error>(m@),
            Err(e) => parsed(bytes@) == Err::<MetadataView, Error>(e),
        },
{
    match open_envelope(bytes) {
        Ok(payload) => Metadata::decode(payload),
        Err(e) => Err(e),
    }
}

/// An envelope, ready to be written to a device.
#[derive(Debug, PartialEq, Eq)]
pub struct Buffer {
    buf: Vec<u8>,
}

impl View for Buffer {
    type V = Seq<u8>;

    closed spec fn view(&self) -> Seq<u8> {
        self.buf@
    }
}

impl Buffer {
    #[verifier::type_invariant]
    spec fn inv(self) -> bool {
        &&& 2 * HEADER_SIZE <= self.buf@.len() <= u32::MAX
        &&& self.buf@ == envelope(self.payload())
    }

    /// The payload that the envelope holds.
    pub closed spec fn payload(self) -> Seq<u8> {
        self.buf@.subrange(HEADER_SIZE as int, self.buf@.len() - HEADER_SIZE)
    }

    /// Puts a payload into an envelope. `None` where the payload is longer
    /// than an envelope can hold.
    pub fn from_payload(payload: &[u8]) -> (buffer: Option<Buffer>)
        ensures
            match buffer {
                Some(b) => payload@.len() <= max_payload_len() && b@ == envelope(payload@)
                    && b.payload() == payload@,
                None => payload@.len() > max_payload_len(),
            },
    {
        if payload.len() > 0xffff_ffff - 2 * HEADER_SIZE {
            return None;
        }
        let hdr = Header {
            magic: HEADER_MAGIC,
            version: HEADER_VERSION,
            length: (HEADER_SIZE * 2 + payload.len()) as u32,
            md_offset: HEADER_SIZE as u32,
            md_length: payload.len() as u32,
            md_checksum: Self::checksum(payload),
        };
        let mut buf = hdr.to_vec();
        buf.extend_from_slice(payload);
        let mut copy = hdr.to_vec();
        buf.append(&mut copy);
        proof {
            assert(hdr@ == envelope_header(payload@));
            assert(buf@ =~= envelope(payload@));
            assert(buf@.subrange(HEADER_SIZE as int, buf@.len() - HEADER_SIZE) =~= payload@);
        }
        Some(Buffer { buf })
    }

    /// Encodes a record and puts it into an envelope. Fails with
    /// `EncodeFailed` where the encoder does, or where the payload is longer
    /// than an envelope can hold.
    pub fn from_meta(md: &Metadata) -> (buffer: Result<Buffer, Error>)
        ensures
            match buffer {
                Ok(b) => encoded(md@) matches Some(payload) && payload.len() <= max_payload_len()
                    && b@ == envelope(payload) && b.payload() == payload,
                Err(e) => e == Error::EncodeFailed && (encoded(md@) matches Some(payload)
                    ==> payload.len() > max_payload_len()),
            },
    {
        let md_buf = match md.encode() {
            Ok(md_buf) => md_buf,
            Err(e) => {
                return Err(e);
            },
        };
        match Self::from_payload(md_buf.as_slice()) {
            Some(buffer) => Ok(buffer),
            None => Err(Error::EncodeFailed),
        }
    }

    /// The checksum of a payload.
    pub fn checksum(buf: &[u8]) -> (sum: u64)
        ensures
            sum == checksum_of(buf@),
    {
        fnv1a_64(buf)
    }

    /// The bytes of the envelope.
    pub fn as_slice(&self) -> (bytes: &[u8])
        ensures
            bytes@ == self@,
            self@ == envelope(self.payload()),
            self.payload().len() <= max_payload_len(),
    {
        proof {
            use_type_invariant(self);
        }
        self.buf.as_slice()
    }

    /// The length of the envelope in bytes: that of the payload and of two
    /// headers.
    pub fn len(&self) -> (n: usize)
        ensures
            n == self@.len(),
            n == self.payload().len() + 2 * HEADER_SIZE,
    {
        proof {
            use_type_invariant(self);
        }
        self.buf.len()
    }
}

} // verus!
