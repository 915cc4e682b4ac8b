use io_engine::envelope::{Buffer, HEADER_SIZE};
use io_engine::metadata::{Child, Error, Metadata, Nexus, State, Timestamp};
use io_engine::partition::{DeviceGeometry, Partitions};
use io_engine::store::{locate_metadata, EnvelopeRead, HeaderRead, Transfer};

const MIB: u64 = 1024 * 1024;

fn record(children: usize) -> Metadata {
    Metadata::V1(Nexus {
        timestamp: Timestamp { secs: 1_700_000_123, nanos: 456 },
        state: State::Open,
        name: "nexus0".to_string(),
        nexus_uuid: "cdc2a7db-3ac3-403a-af80-7fadc1581c47".to_string(),
        bdev_uuid: "65acdaac-14c4-41d8-a55e-d03bfd7185a4".to_string(),
        requested_size: 1 << 30,
        children: (0..children)
            .map(|i| Child {
                timestamp: Timestamp { secs: 1_700_000_123, nanos: 456 },
                state: State::Open,
                name: format!("child-{i}"),
                device_name: Some(format!("dev{i}")),
                device_uuid: Some(format!("uuid-{i}")),
            })
            .collect(),
    })
}

/// The metadata partition of a device, in memory.
struct Disk {
    dev: DeviceGeometry,
    meta: Vec<u8>,
    meta_offset: u64,
}

impl Disk {
    fn new(num_blocks: u64, block_len: u64) -> Disk {
        let dev = DeviceGeometry::new(num_blocks, block_len).unwrap();
        let parts = Partitions::calculate_for_device(&dev).unwrap();
        Disk { dev, meta: vec![0; parts.meta_size() as usize], meta_offset: parts.meta_start_offset() }
    }

    fn write(&mut self, t: Transfer, bytes: &[u8]) {
        assert_eq!(t.len as usize, bytes.len());
        let at = (t.offset - self.meta_offset) as usize;
        self.meta[at..at + bytes.len()].copy_from_slice(bytes);
    }

    fn read(&self, t: Transfer) -> Vec<u8> {
        let at = (t.offset - self.meta_offset) as usize;
        self.meta[at..at + t.len as usize].to_vec()
    }

    fn store(&mut self, md: &Metadata) -> Result<(), Error> {
        let buffer = Buffer::from_meta(md)?;
        let t = buffer.write(&self.dev)?;
        self.write(t, buffer.as_slice());
        Ok(())
    }

    fn load(&self) -> Result<Metadata, Error> {
        let first = Buffer::read(&self.dev)?;
        let next = first.complete(&self.read(first.transfer()))?;
        next.complete(&self.read(next.transfer()))
    }
}

#[test]
fn metadata_partition_of_a_device() {
    let dev = DeviceGeometry::new(131072, 512).unwrap();
    assert_eq!(locate_metadata(&dev), Ok(Transfer { offset: MIB, len: 4 * MIB }));
    let dev = DeviceGeometry::new(100_000, 4096).unwrap();
    assert_eq!(locate_metadata(&dev), Ok(Transfer { offset: MIB, len: 4 * MIB }));
    let dev = DeviceGeometry::new(50_000, 1000).unwrap();
    assert_eq!(locate_metadata(&dev), Ok(Transfer { offset: 1_049_000, len: 4_195_000 }));
}

#[test]
fn device_without_partitions() {
    let dev = DeviceGeometry::new(10273, 512).unwrap();
    assert_eq!(locate_metadata(&dev), Err(Error::BadPartitions));
    assert_eq!(Buffer::read(&dev), Err(Error::BadPartitions));
    let buffer = Buffer::from_meta(&record(1)).unwrap();
    assert_eq!(buffer.write(&dev), Err(Error::BadPartitions));
    let dev = DeviceGeometry::new(0, 512).unwrap();
    assert_eq!(Buffer::read(&dev), Err(Error::BadPartitions));
}

#[test]
fn write_is_one_transfer_at_the_start_of_the_partition() {
    let dev = DeviceGeometry::new(131072, 512).unwrap();
    let buffer = Buffer::from_meta(&record(2)).unwrap();
    assert_eq!(buffer.write(&dev), Ok(Transfer { offset: MIB, len: buffer.len() as u64 }));
}

#[test]
fn envelope_larger_than_the_partition() {
    let dev = DeviceGeometry::new(131072, 512).unwrap();
    // The payload leaves room for the two headers, to the byte.
    let fits = Buffer::from_payload(&vec![0u8; 4 * MIB as usize - 64]).unwrap();
    assert_eq!(fits.write(&dev), Ok(Transfer { offset: MIB, len: 4 * MIB }));
    let too_long = Buffer::from_payload(&vec![0u8; 4 * MIB as usize - 63]).unwrap();
    assert_eq!(too_long.write(&dev), Err(Error::NoSpace));
}

#[test]
fn record_too_long_for_the_partition() {
    let mut md = record(1);
    if let Metadata::V1(n) = &mut md {
        n.name = "x".repeat(5 * MIB as usize);
    }
    let mut disk = Disk::new(131072, 512);
    assert_eq!(disk.store(&md), Err(Error::NoSpace));
}

#[test]
fn read_starts_with_the_first_header() {
    let dev = DeviceGeometry::new(131072, 512).unwrap();
    let first = Buffer::read(&dev).unwrap();
    assert_eq!(first, HeaderRead { region: Transfer { offset: MIB, len: 4 * MIB } });
    assert_eq!(first.transfer(), Transfer { offset: MIB, len: HEADER_SIZE as u64 });
}

#[test]
fn read_goes_on_with_the_whole_envelope() {
    let dev = DeviceGeometry::new(131072, 512).unwrap();
    let buffer = Buffer::from_meta(&record(2)).unwrap();
    let first = Buffer::read(&dev).unwrap();
    let next = first.complete(&buffer.as_slice()[..HEADER_SIZE]).unwrap();
    assert_eq!(next, EnvelopeRead { offset: MIB, length: buffer.len() as u32 });
    assert_eq!(next.transfer(), Transfer { offset: MIB, len: buffer.len() as u64 });
    assert_eq!(next.complete(buffer.as_slice()), Ok(record(2)));
}

#[test]
fn read_takes_more_bytes_than_it_asked_for() {
    let dev = DeviceGeometry::new(131072, 512).unwrap();
    let buffer = Buffer::from_meta(&record(2)).unwrap();
    let mut block = buffer.as_slice().to_vec();
    block.resize(4096, 0);
    let next = Buffer::read(&dev).unwrap().complete(&block).unwrap();
    assert_eq!(next.length as usize, buffer.len());
    assert_eq!(next.complete(&block), Ok(record(2)));
}

#[test]
fn read_of_a_header_that_is_none() {
    let dev = DeviceGeometry::new(131072, 512).unwrap();
    let first = Buffer::read(&dev).unwrap();
    assert_eq!(first.complete(&[0u8; 32]), Err(Error::InvalidHeader));
    assert_eq!(first.complete(&[0u8; 31]), Err(Error::InvalidHeader));
    assert_eq!(first.complete(&[]), Err(Error::InvalidHeader));
}

#[test]
fn read_of_a_header_with_a_length_out_of_bounds() {
    let dev = DeviceGeometry::new(131072, 512).unwrap();
    let first = Buffer::read(&dev).unwrap();
    let good = Buffer::from_payload(b"").unwrap().as_slice().to_vec();
    assert_eq!(first.complete(&good).map(|n| n.length), Ok(64));
    for length in [0u32, 63, 4 * MIB as u32 + 1, u32::MAX] {
        let mut bytes = good.clone();
        bytes[12..16].copy_from_slice(&length.to_le_bytes());
        assert_eq!(first.complete(&bytes), Err(Error::InvalidHeader));
    }
    // Up to the whole partition.
    let mut bytes = good.clone();
    bytes[12..16].copy_from_slice(&(4 * MIB as u32).to_le_bytes());
    assert_eq!(first.complete(&bytes).map(|n| n.length), Ok(4 * MIB as u32));
}

#[test]
fn read_of_fewer_bytes_than_the_envelope() {
    let buffer = Buffer::from_meta(&record(2)).unwrap();
    let next = EnvelopeRead { offset: MIB, length: buffer.len() as u32 };
    let bytes = buffer.as_slice();
    assert_eq!(next.complete(&bytes[..bytes.len() - 1]), Err(Error::InvalidHeader));
    assert_eq!(next.complete(&[]), Err(Error::InvalidHeader));
}

#[test]
fn read_of_an_envelope_longer_than_the_first_header_said() {
    let buffer = Buffer::from_meta(&record(2)).unwrap();
    let next = EnvelopeRead { offset: MIB, length: buffer.len() as u32 - 1 };
    assert_eq!(next.complete(buffer.as_slice()), Err(Error::InvalidHeader));
}

#[test]
fn read_of_a_device_without_metadata() {
    let disk = Disk::new(131072, 512);
    assert_eq!(disk.load(), Err(Error::InvalidHeader));
}

#[test]
fn read_returns_what_was_written() {
    for (num_blocks, block_len) in [(131072u64, 512u64), (100_000, 4096), (50_000, 1000), (10, 8 * MIB)] {
        let mut disk = Disk::new(num_blocks, block_len);
        for children in [0usize, 1, 8] {
            let md = record(children);
            assert_eq!(disk.store(&md), Ok(()));
            let back = disk.load().unwrap();
            assert_eq!(back, md);
            if let (Metadata::V1(a), Metadata::V1(b)) = (&back, &md) {
                assert_eq!(a.timestamp, b.timestamp);
                assert_eq!(a.children, b.children);
            }
        }
    }
}

#[test]
fn read_returns_the_last_that_was_written() {
    let mut disk = Disk::new(131072, 512);
    disk.store(&record(8)).unwrap();
    disk.store(&record(1)).unwrap();
    assert_eq!(disk.load(), Ok(record(1)));
    disk.store(&Metadata::Absent).unwrap();
    assert_eq!(disk.load(), Ok(Metadata::Absent));
}

#[test]
fn read_finds_a_byte_changed_on_the_device() {
    let mut disk = Disk::new(131072, 512);
    disk.store(&record(2)).unwrap();
    let len = Buffer::from_meta(&record(2)).unwrap().len();
    disk.meta[HEADER_SIZE + 10] ^= 0x40;
    assert_eq!(disk.load(), Err(Error::ChecksumMismatch));
    disk.meta[HEADER_SIZE + 10] ^= 0x40;
    assert_eq!(disk.load(), Ok(record(2)));
    disk.meta[len - 1] ^= 0x01;
    assert_eq!(disk.load(), Err(Error::InvalidHeader));
    disk.meta[len - 1] ^= 0x01;
    disk.meta[0] = b'n';
    assert_eq!(disk.load(), Err(Error::InvalidHeader));
}
