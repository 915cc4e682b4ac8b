//! Arrays of devices.
//!
//! An array device is a block device of which only the data partition is
//! used. A span array is made of one or more array devices, all with the
//! same block length and the same number of data blocks.

use crate::partition::{layout, DeviceGeometry, Geometry, Layout, Partitions};
use vstd::prelude::*;
use vstd::std_specs::convert::FromSpecImpl;

verus! {

/// The error number for an invalid argument.
pub const EINVAL: i32 = 22;

/// The state of an array or of one of its devices.
#[derive(Debug, Copy, Clone, PartialEq, Eq, PartialOrd, Structural)]
pub enum ArrayState {
    Online,
    Closed,
}

/// What can go wrong with an array. `source` is the error number that the
/// system gave.
#[derive(Debug, Clone, PartialEq, Eq)]
pub enum ArrayError {
    /// Async operation canceled.
    Canceled { name: String },
    /// Block device not found.
    BdevNotFound { name: String },
    /// Failed to open descriptor for block device.
    BdevDescOpenFailed { source: i32, name: String },
    /// Failed to open device.
    DeviceOpenFailed { source: i32, name: String },
    /// Failed to close device.
    DeviceCloseFailed { source: i32, name: String },
    /// Failed to create block device.
    BdevCreateFailed { source: i32, name: String },
    /// Failed to destroy block device.
    BdevDestroyFailed { source: i32, name: String },
    /// Not enough devices for this array.
    NotEnoughDevices { array_name: String },
    /// Device block length mismatch.
    DeviceBlockLengthMismatch { name: String },
    /// Device size mismatch.
    DeviceSizeMismatch { name: String },
}

/// What can go wrong with a block device, as its users see it.
#[derive(Debug, Clone, PartialEq, Eq)]
pub enum BdevError {
    /// The command was canceled.
    BdevCommandCanceled { name: String },
    /// No block device of this name.
    BdevNotFound { name: String },
    /// The parameters of the block device to create are invalid.
    CreateBdevInvalidParams { source: i32, name: String },
    /// The block device could not be created.
    CreateBdevFailed { source: i32, name: String },
    /// The block device could not be destroyed.
    DestroyBdevFailed { source: i32, name: String },
}

/// What an error of an array is to the users of the block device: whatever
/// fails while the array and its devices are opened is a failure to create
/// the block device, and an array of devices that do not fit together has
/// invalid parameters.
pub open spec fn bdev_error(value: ArrayError) -> BdevError {
    match value {
        ArrayError::Canceled { name } => BdevError::BdevCommandCanceled { name },
        ArrayError::BdevNotFound { name } => BdevError::BdevNotFound { name },
        ArrayError::BdevDescOpenFailed { source, name } => BdevError::CreateBdevFailed {
            source,
            name,
        },
        ArrayError::DeviceOpenFailed { source, name } => BdevError::CreateBdevFailed {
            source,
            name,
        },
        ArrayError::DeviceCloseFailed { source, name } => BdevError::CreateBdevFailed {
            source,
            name,
        },
        ArrayError::BdevCreateFailed { source, name } => BdevError::CreateBdevFailed {
            source,
            name,
        },
        ArrayError::BdevDestroyFailed { source, name } => BdevError::DestroyBdevFailed {
            source,
            name,
        },
        ArrayError::NotEnoughDevices { array_name } => BdevError::CreateBdevInvalidParams {
            source: EINVAL,
            name: array_name,
        },
        ArrayError::DeviceBlockLengthMismatch { name } => BdevError::CreateBdevInvalidParams {
            source: EINVAL,
            name,
        },
        ArrayError::DeviceSizeMismatch { name } => BdevError::CreateBdevInvalidParams {
            source: EINVAL,
            name,
        },
    }
}

impl From<ArrayError> for BdevError {
    fn from(value: ArrayError) -> (error: BdevError) {
        match value {
            ArrayError::Canceled { name } => BdevError::BdevCommandCanceled { name },
            ArrayError::BdevNotFound { name } => BdevError::BdevNotFound { name },
            ArrayError::BdevDescOpenFailed { source, name } => BdevError::CreateBdevFailed {
                source,
                name,
            },
            ArrayError::DeviceOpenFailed { source, name } => BdevError::CreateBdevFailed {
                source,
                name,
            },
            ArrayError::DeviceCloseFailed { source, name } => BdevError::CreateBdevFailed {
                source,
                name,
            },
            ArrayError::BdevCreateFailed { source, name } => BdevError::CreateBdevFailed {
                source,
                name,
            },
            ArrayError::BdevDestroyFailed { source, name } => BdevError::DestroyBdevFailed {
                source,
                name,
            },
            ArrayError::NotEnoughDevices { array_name } => BdevError::CreateBdevInvalidParams {
                source: EINVAL,
                name: array_name,
            },
            ArrayError::DeviceBlockLengthMismatch { name } => BdevError::CreateBdevInvalidParams {
                source: EINVAL,
                name,
            },
            ArrayError::DeviceSizeMismatch { name } => BdevError::CreateBdevInvalidParams {
                source: EINVAL,
                name,
            },
        }
    }
}

impl FromSpecImpl<ArrayError> for BdevError {
    open spec fn obeys_from_spec() -> bool {
        true
    }

    open spec fn from_spec(value: ArrayError) -> BdevError {
        bdev_error(value)
    }
}

/// A device of an array: a block device, of which the array uses the data
/// partition.
#[derive(Debug, PartialEq, Eq)]
pub struct ArrayDevice {
    name: String,
    state: ArrayState,
    part: Partitions,
}

/// What an [`ArrayDevice`] holds.
pub struct ArrayDeviceView {
    pub name: Seq<char>,
    pub state: ArrayState,
    /// Block size in bytes.
    pub block_len: u32,
    /// Number of blocks of the data partition.
    pub num_blocks: u64,
    /// The partitions of the block device.
    pub layout: Layout,
}

impl View for ArrayDevice {
    type V = ArrayDeviceView;

    closed spec fn view(&self) -> ArrayDeviceView {
        ArrayDeviceView {
            name: self.name@,
            state: self.state,
            block_len: self.part@.block_len as u32,
            num_blocks: (self.part@.data.last - self.part@.data.first + 1) as u64,
            layout: self.part@,
        }
    }
}

/// The number of data blocks of a device of `num_blocks` blocks of
/// `block_len` bytes; `None` where such a device has no partitions.
pub open spec fn data_blocks(num_blocks: u64, block_len: u32) -> Option<u64> {
    if (Geometry { num_blocks: num_blocks as nat, block_len: block_len as nat }).valid() {
        match layout(0, num_blocks as nat, block_len as nat) {
            Some(l) => Some((l.data.last - l.data.first + 1) as u64),
            None => None,
        }
    } else {
        None
    }
}

impl ArrayDevice {
    #[verifier::type_invariant]
    spec fn inv(self) -> bool {
        self.part@.block_len <= u32::MAX
    }

    /// Makes the block device `name`, of `num_blocks` blocks of `block_len`
    /// bytes, a device of an array. Fails with `DeviceOpenFailed` and
    /// `EINVAL` where such a device has no partitions.
    pub fn open(name: &str, num_blocks: u64, block_len: u32) -> (dev: Result<Self, ArrayError>)
        ensures
            match dev {
                Ok(d) => data_blocks(num_blocks, block_len) == Some(d@.num_blocks) && d@.block_len
                    == block_len && d@.name == name@ && d@.state == ArrayState::Online && layout(
                    0,
                    num_blocks as nat,
                    block_len as nat,
                ) == Some(d@.layout),
                Err(e) => {
                    &&& data_blocks(num_blocks, block_len) is None
                    &&& e matches ArrayError::DeviceOpenFailed { source, name: n }
                    &&& source == EINVAL
                    &&& n@ == name@
                },
            },
    {
        let part = match DeviceGeometry::new(num_blocks, block_len as u64) {
            Some(geometry) => Partitions::calculate_for_device(&geometry),
            None => None,
        };
        match part {
            Some(part) => {
                let dev = ArrayDevice { name: name.to_owned(), state: ArrayState::Online, part };
                Ok(dev)
            },
            None => Err(ArrayError::DeviceOpenFailed { source: EINVAL, name: name.to_owned() }),
        }
    }

    /// Closes the device.
    pub fn close(&mut self)
        ensures
            final(self)@ == (ArrayDeviceView { state: ArrayState::Closed, ..old(self)@ }),
    {
        proof {
            use_type_invariant(&*self);
        }
        self.state = ArrayState::Closed;
    }

    /// Returns the name of the device.
    pub fn name(&self) -> (name: &str)
        ensures
            name@ == self@.name,
    {
        self.name.as_str()
    }

    /// Returns the state of the device.
    pub fn state(&self) -> (state: ArrayState)
        ensures
            state == self@.state,
    {
        self.state
    }

    /// Returns the block size in bytes.
    pub fn block_len(&self) -> (n: u32)
        ensures
            n == self@.block_len,
    {
        proof {
            use_type_invariant(self);
        }
        self.part.block_len() as u32
    }

    /// Returns the number of blocks that the array can use.
    pub fn num_blocks(&self) -> (n: u64)
        ensures
            n == self@.num_blocks,
    {
        self.part.data_blocks()
    }
}

/// The devices of an array, under the name of the array.
#[derive(Debug, PartialEq, Eq)]
pub struct ArrayDeviceGroup {
    name: String,
    devices: Vec<ArrayDevice>,
}

/// What an [`ArrayDeviceGroup`] holds.
pub struct ArrayDeviceGroupView {
    pub name: Seq<char>,
    pub devices: Seq<ArrayDeviceView>,
}

impl View for ArrayDeviceGroup {
    type V = ArrayDeviceGroupView;

    closed spec fn view(&self) -> ArrayDeviceGroupView {
        ArrayDeviceGroupView {
            name: self.name@,
            devices: self.devices@.map_values(|d: ArrayDevice| d@),
        }
    }
}

impl ArrayDeviceGroup {
    /// Makes a group of the devices that were opened for the array
    /// `group_name`. Fails with `NotEnoughDevices` where there is none.
    pub fn open(group_name: &str, devices: Vec<ArrayDevice>) -> (group: Result<
        ArrayDeviceGroup,
        ArrayError,
    >)
        ensures
            match group {
                Ok(g) => devices@.len() > 0 && g@.name == group_name@ && g@.devices
                    == devices@.map_values(|d: ArrayDevice| d@),
                Err(e) => {
                    &&& devices@.len() == 0
                    &&& e matches ArrayError::NotEnoughDevices { array_name }
                    &&& array_name@ == group_name@
                },
            },
    {
        if devices.len() == 0 {
            return Err(ArrayError::NotEnoughDevices { array_name: group_name.to_owned() });
        }
        Ok(ArrayDeviceGroup { name: group_name.to_owned(), devices })
    }

    /// Takes the devices out of the group, in their order and each in the
    /// closed state, and leaves the group empty.
    pub fn close(&mut self) -> (closed: Vec<ArrayDevice>)
        ensures
            final(self)@.name == old(self)@.name,
            final(self)@.devices.len() == 0,
            closed@.len() == old(self)@.devices.len(),
            forall|i: int|
                0 <= i < closed@.len() ==> (#[trigger] closed@[i])@ == (ArrayDeviceView {
                    state: ArrayState::Closed,
                    ..old(self)@.devices[i]
                }),
    {
        let mut i: usize = 0;
        while i < self.devices.len()
            invariant
                self.name == old(self).name,
                self.devices.len() == old(self).devices.len(),
                i <= self.devices.len(),
                forall|k: int|
                    0 <= k < i ==> (#[trigger] self.devices@[k])@ == (ArrayDeviceView {
                        state: ArrayState::Closed,
                        ..old(self).devices@[k]@
                    }),
                forall|k: int|
                    i <= k < self.devices.len() ==> #[trigger] self.devices@[k] == old(
                        self,
                    ).devices@[k],
            decreases self.devices.len() - i,
        {
            self.devices[i].close();
            i += 1;
        }
        let mut closed: Vec<ArrayDevice> = Vec::new();
        core::mem::swap(&mut closed, &mut self.devices);
        closed
    }

    /// Returns the name of the array.
    pub fn name(&self) -> (name: &str)
        ensures
            name@ == self@.name,
    {
        self.name.as_str()
    }

    /// Returns the number of devices.
    pub fn len(&self) -> (n: usize)
        ensures
            n == self@.devices.len(),
    {
        self.devices.len()
    }

    /// Returns the device at `at`, if there is one.
    pub fn get(&self, at: usize) -> (dev: Option<&ArrayDevice>)
        ensures
            match dev {
                Some(d) => at < self@.devices.len() && d@ == self@.devices[at as int],
                None => at >= self@.devices.len(),
            },
    {
        if at < self.devices.len() {
            Some(&self.devices[at])
        } else {
            None
        }
    }

    /// Returns the names of the devices, in their order.
    pub fn device_names(&self) -> (names: Vec<String>)
        ensures
            names@.len() == self@.devices.len(),
            forall|i: int| 0 <= i < names@.len() ==> (#[trigger] names@[i])@ == self@.devices[i].name,
    {
        let mut names: Vec<String> = Vec::new();
        let mut i: usize = 0;
        while i < self.devices.len()
            invariant
                i <= self.devices.len(),
                names.len() == i,
                forall|k: int| 0 <= k < i ==> (#[trigger] names@[k])@ == self@.devices[k].name,
            decreases self.devices.len() - i,
        {
            names.push(self.devices[i].name().to_owned());
            i += 1;
        }
        names
    }
}

/// What an array is made from.
#[derive(Debug, PartialEq, Eq)]
pub struct ArrayParams {
    pub name: String,
    pub uuid: u128,
    pub devices: ArrayDeviceGroup,
}

/// The device at `at` is the first that does not fit the first device of
/// the array in block length or size.
pub open spec fn is_first_misfit(devices: Seq<ArrayDeviceView>, at: int) -> bool {
    &&& 0 < at < devices.len()
    &&& devices[at].block_len != devices[0].block_len || devices[at].num_blocks
        != devices[0].num_blocks
    &&& forall|i: int|
        0 <= i < at ==> (#[trigger] devices[i]).block_len == devices[0].block_len
            && devices[i].num_blocks == devices[0].num_blocks
}

/// What the devices of the array `array_name` come to: the block length and
/// the number of blocks that they all have, or what is wrong with them.
/// `NotEnoughDevices` where there is none; else, for the first device that
/// does not fit the first of all, `DeviceBlockLengthMismatch` where it has
/// another block length, and `DeviceSizeMismatch` where it has the same
/// block length and another size.
pub open spec fn devices_fit(
    array_name: Seq<char>,
    devices: Seq<ArrayDeviceView>,
    outcome: Result<(u32, u64), ArrayError>,
) -> bool {
    match outcome {
        Ok((block_len, num_blocks)) => {
            &&& devices.len() > 0
            &&& forall|i: int|
                0 <= i < devices.len() ==> (#[trigger] devices[i]).block_len == block_len
                    && devices[i].num_blocks == num_blocks
        },
        Err(ArrayError::NotEnoughDevices { array_name: name }) => devices.len() == 0 && name@
            == array_name,
        Err(ArrayError::DeviceBlockLengthMismatch { name }) => exists|at: int|
            #[trigger] is_first_misfit(devices, at) && devices[at].block_len
                != devices[0].block_len && name@ == devices[at].name,
        Err(ArrayError::DeviceSizeMismatch { name }) => exists|at: int|
            #[trigger] is_first_misfit(devices, at) && devices[at].block_len
                == devices[0].block_len && name@ == devices[at].name,
        Err(_) => false,
    }
}

/// A span array: its devices one after the other.
#[derive(Debug, PartialEq, Eq)]
pub struct ArraySpan {
    params: ArrayParams,
    block_len: u32,
    num_blocks: u64,
    required_alignment: u8,
}

impl ArraySpan {
    /// The parameters that the array was made from.
    pub closed spec fn params(self) -> ArrayParams {
        self.params
    }

    /// The block length of the array.
    pub closed spec fn spec_block_len(self) -> u32 {
        self.block_len
    }

    /// The number of blocks of the array.
    pub closed spec fn spec_num_blocks(self) -> u64 {
        self.num_blocks
    }

    /// The alignment that the array asks of its buffers, as a power of two.
    pub closed spec fn spec_required_alignment(self) -> u8 {
        self.required_alignment
    }

    /// Makes a span array from its parameters. Fails where the devices do
    /// not fit together.
    pub fn create_array(params: ArrayParams) -> (array: Result<ArraySpan, ArrayError>)
        ensures
            match array {
                Ok(a) => devices_fit(
                    params.name@,
                    params.devices@.devices,
                    Ok((a.spec_block_len(), a.spec_num_blocks())),
                ) && a.params() == params && a.spec_required_alignment() == 9,
                Err(e) => devices_fit(params.name@, params.devices@.devices, Err(e)),
            },
    {
        match Self::validate_devices(&params) {
            Ok((block_len, num_blocks)) => Ok(
                ArraySpan { params, block_len, num_blocks, required_alignment: 9 },
            ),
            Err(e) => Err(e),
        }
    }

    /// Checks that the array has a device and that all its devices have
    /// the block length and the size of the first.
    pub fn validate_devices(params: &ArrayParams) -> (geometry: Result<(u32, u64), ArrayError>)
        ensures
            devices_fit(params.name@, params.devices@.devices, geometry),
    {
        let ghost devices = params.devices@.devices;
        let first_dev = match params.devices.get(0) {
            Some(first_dev) => first_dev,
            None => {
                return Err(ArrayError::NotEnoughDevices { array_name: params.name.clone() });
            },
        };
        let block_len = first_dev.block_len();
        let num_blocks = first_dev.num_blocks();
        let mut i: usize = 1;
        while i < params.devices.len()
            invariant
                1 <= i <= devices.len(),
                devices == params.devices@.devices,
                block_len == devices[0].block_len,
                num_blocks == devices[0].num_blocks,
                forall|k: int|
                    0 <= k < i ==> (#[trigger] devices[k]).block_len == block_len
                        && devices[k].num_blocks == num_blocks,
            decreases devices.len() - i,
        {
            let dev = params.devices.get(i).unwrap();
            if block_len != dev.block_len() {
                proof {
                    assert(is_first_misfit(devices, i as int));
                }
                return Err(ArrayError::DeviceBlockLengthMismatch { name: dev.name().to_owned() });
            }
            if num_blocks != dev.num_blocks() {
                proof {
                    assert(is_first_misfit(devices, i as int));
                }
                return Err(ArrayError::DeviceSizeMismatch { name: dev.name().to_owned() });
            }
            i += 1;
        }
        Ok((block_len, num_blocks))
    }

    /// Takes the array apart: hands its devices back, closed, and leaves
    /// it without blocks.
    pub fn destroy(&mut self) -> (closed: Vec<ArrayDevice>)
        ensures
            final(self).spec_block_len() == 0,
            final(self).spec_num_blocks() == 0,
            final(self).spec_required_alignment() == 0,
            final(self).params().name == old(self).params().name,
            final(self).params().uuid == old(self).params().uuid,
            final(self).params().devices@.devices.len() == 0,
            closed@.len() == old(self).params().devices@.devices.len(),
            forall|i: int|
                0 <= i < closed@.len() ==> (#[trigger] closed@[i])@ == (ArrayDeviceView {
                    state: ArrayState::Closed,
                    ..old(self).params().devices@.devices[i]
                }),
    {
        let closed = self.params.devices.close();
        self.block_len = 0;
        self.num_blocks = 0;
        self.required_alignment = 0;
        closed
    }

    /// Returns the name of the array.
    pub fn name(&self) -> (name: &str)
        ensures
            name@ == self.params().name@,
    {
        self.params.name.as_str()
    }

    /// Returns the UUID of the array.
    pub fn uuid(&self) -> (uuid: u128)
        ensures
            uuid == self.params().uuid,
    {
        self.params.uuid
    }

    /// Returns the block size in bytes.
    pub fn block_len(&self) -> (n: u32)
        ensures
            n == self.spec_block_len(),
    {
        self.block_len
    }

    /// Returns the number of blocks.
    pub fn num_blocks(&self) -> (n: u64)
        ensures
            n == self.spec_num_blocks(),
    {
        self.num_blocks
    }

    /// Returns the alignment that the array asks of its buffers, as a
    /// power of two.
    pub fn required_alignment(&self) -> (n: u8)
        ensures
            n == self.spec_required_alignment(),
    {
        self.required_alignment
    }
}

} // verus!
