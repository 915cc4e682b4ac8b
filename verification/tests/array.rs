use io_engine::array::{
    ArrayDevice, ArrayDeviceGroup, ArrayError, ArrayParams, ArraySpan, ArrayState, BdevError, EINVAL,
};

fn device(name: &str, num_blocks: u64, block_len: u32) -> ArrayDevice {
    ArrayDevice::open(name, num_blocks, block_len).unwrap()
}

fn params(name: &str, devices: Vec<ArrayDevice>) -> ArrayParams {
    ArrayParams {
        name: name.to_string(),
        uuid: 0x65acdaac_14c4_41d8_a55e_d03bfd7185a4,
        devices: ArrayDeviceGroup::open(name, devices).unwrap(),
    }
}

#[test]
fn array_states_are_ordered() {
    assert!(ArrayState::Online < ArrayState::Closed);
    assert_ne!(ArrayState::Online, ArrayState::Closed);
    assert_eq!(EINVAL, 22);
}

#[test]
fn array_device_uses_the_data_partition() {
    let dev = device("disk0", 131072, 512);
    assert_eq!(dev.name(), "disk0");
    assert_eq!(dev.state(), ArrayState::Online);
    assert_eq!(dev.block_len(), 512);
    assert_eq!(dev.num_blocks(), 131072 - 34 - 10240 + 1);
    let dev = device("disk1", 100_000, 4096);
    assert_eq!(dev.block_len(), 4096);
    assert_eq!(dev.num_blocks(), 100_000 - 6 - 1280 + 1);
    let dev = device("disk2", 5, u32::MAX);
    assert_eq!(dev.block_len(), u32::MAX);
    assert_eq!(dev.num_blocks(), 1);
}

#[test]
fn array_device_of_a_bad_size() {
    let e = ArrayError::DeviceOpenFailed { source: 22, name: "disk0".to_string() };
    assert_eq!(ArrayDevice::open("disk0", 10273, 512), Err(e.clone()));
    assert_eq!(ArrayDevice::open("disk0", 0, 512), Err(e.clone()));
    assert_eq!(ArrayDevice::open("disk0", 131072, 0), Err(e.clone()));
    assert_eq!(ArrayDevice::open("disk0", u64::MAX, 512), Err(e));
    assert!(ArrayDevice::open("disk0", 10274, 512).is_ok());
}

#[test]
fn array_device_is_closed() {
    let mut dev = device("disk0", 131072, 512);
    dev.close();
    assert_eq!(dev.state(), ArrayState::Closed);
    assert_eq!(dev.name(), "disk0");
    assert_eq!(dev.block_len(), 512);
    assert_eq!(dev.num_blocks(), 131072 - 34 - 10240 + 1);
}

#[test]
fn group_of_devices() {
    let group =
        ArrayDeviceGroup::open("span0", vec![device("a", 131072, 512), device("b", 200_000, 512)]).unwrap();
    assert_eq!(group.name(), "span0");
    assert_eq!(group.len(), 2);
    assert_eq!(group.device_names(), vec!["a".to_string(), "b".to_string()]);
    assert_eq!(group.get(0).unwrap().name(), "a");
    assert_eq!(group.get(1).unwrap().num_blocks(), 200_000 - 34 - 10240 + 1);
    assert!(group.get(2).is_none());
}

#[test]
fn group_without_devices() {
    assert_eq!(
        ArrayDeviceGroup::open("span0", vec![]),
        Err(ArrayError::NotEnoughDevices { array_name: "span0".to_string() })
    );
}

#[test]
fn group_is_closed() {
    let mut group = ArrayDeviceGroup::open(
        "span0",
        vec![device("a", 131072, 512), device("b", 200_000, 512), device("c", 300_000, 4096)],
    )
    .unwrap();
    let closed = group.close();
    assert_eq!(group.len(), 0);
    assert_eq!(group.name(), "span0");
    assert!(group.device_names().is_empty());
    assert_eq!(closed.len(), 3);
    assert_eq!(closed[0].name(), "a");
    assert_eq!(closed[1].name(), "b");
    assert_eq!(closed[2].name(), "c");
    assert_eq!(closed[2].block_len(), 4096);
    for dev in &closed {
        assert_eq!(dev.state(), ArrayState::Closed);
    }
    assert!(group.close().is_empty());
}

#[test]
fn span_of_devices_that_fit() {
    let p = params("span0", vec![device("a", 131072, 512), device("b", 131072, 512), device("c", 131072, 512)]);
    assert_eq!(ArraySpan::validate_devices(&p), Ok((512, 131072 - 34 - 10240 + 1)));
    let span = ArraySpan::create_array(p).unwrap();
    assert_eq!(span.name(), "span0");
    assert_eq!(span.uuid(), 0x65acdaac_14c4_41d8_a55e_d03bfd7185a4);
    assert_eq!(span.block_len(), 512);
    assert_eq!(span.num_blocks(), 131072 - 34 - 10240 + 1);
    assert_eq!(span.required_alignment(), 9);
}

#[test]
fn span_of_one_device() {
    let span = ArraySpan::create_array(params("span0", vec![device("a", 100_000, 4096)])).unwrap();
    assert_eq!(span.block_len(), 4096);
    assert_eq!(span.num_blocks(), 100_000 - 6 - 1280 + 1);
}

#[test]
fn span_of_devices_with_different_block_lengths() {
    let p = params("span0", vec![device("a", 131072, 512), device("b", 131072, 512), device("c", 131072, 4096)]);
    assert_eq!(
        ArraySpan::validate_devices(&p),
        Err(ArrayError::DeviceBlockLengthMismatch { name: "c".to_string() })
    );
    assert_eq!(
        ArraySpan::create_array(p),
        Err(ArrayError::DeviceBlockLengthMismatch { name: "c".to_string() })
    );
}

#[test]
fn span_of_devices_with_different_sizes() {
    let p = params("span0", vec![device("a", 131072, 512), device("b", 131073, 512), device("c", 131072, 512)]);
    assert_eq!(ArraySpan::validate_devices(&p), Err(ArrayError::DeviceSizeMismatch { name: "b".to_string() }));
}

#[test]
fn span_names_the_first_device_that_does_not_fit() {
    // The second device has another size, the third another block length.
    let p = params("span0", vec![device("a", 131072, 512), device("b", 200_000, 512), device("c", 131072, 4096)]);
    assert_eq!(ArraySpan::validate_devices(&p), Err(ArrayError::DeviceSizeMismatch { name: "b".to_string() }));
    // A device with another block length and another size has another block
    // length.
    let p = params("span0", vec![device("a", 131072, 512), device("b", 200_000, 4096)]);
    assert_eq!(
        ArraySpan::validate_devices(&p),
        Err(ArrayError::DeviceBlockLengthMismatch { name: "b".to_string() })
    );
}

#[test]
fn span_without_devices() {
    let mut group = ArrayDeviceGroup::open("span0", vec![device("a", 131072, 512)]).unwrap();
    group.close();
    let p = ArrayParams { name: "span1".to_string(), uuid: 1, devices: group };
    assert_eq!(
        ArraySpan::create_array(p),
        Err(ArrayError::NotEnoughDevices { array_name: "span1".to_string() })
    );
}

#[test]
fn span_is_destroyed() {
    let mut span =
        ArraySpan::create_array(params("span0", vec![device("a", 131072, 512), device("b", 131072, 512)]))
            .unwrap();
    let closed = span.destroy();
    assert_eq!(closed.len(), 2);
    assert_eq!(closed[0].name(), "a");
    assert_eq!(closed[1].name(), "b");
    assert_eq!(closed[0].state(), ArrayState::Closed);
    assert_eq!(closed[1].state(), ArrayState::Closed);
    assert_eq!(span.block_len(), 0);
    assert_eq!(span.num_blocks(), 0);
    assert_eq!(span.required_alignment(), 0);
    assert_eq!(span.name(), "span0");
}

#[test]
fn array_errors_as_block_device_errors() {
    let name = || "x".to_string();
    assert_eq!(
        BdevError::from(ArrayError::Canceled { name: name() }),
        BdevError::BdevCommandCanceled { name: name() }
    );
    assert_eq!(BdevError::from(ArrayError::BdevNotFound { name: name() }), BdevError::BdevNotFound { name: name() });
    assert_eq!(
        BdevError::from(ArrayError::BdevDescOpenFailed { source: 2, name: name() }),
        BdevError::CreateBdevFailed { source: 2, name: name() }
    );
    assert_eq!(
        BdevError::from(ArrayError::DeviceOpenFailed { source: 13, name: name() }),
        BdevError::CreateBdevFailed { source: 13, name: name() }
    );
    assert_eq!(
        BdevError::from(ArrayError::DeviceCloseFailed { source: 5, name: name() }),
        BdevError::CreateBdevFailed { source: 5, name: name() }
    );
    assert_eq!(
        BdevError::from(ArrayError::BdevCreateFailed { source: 17, name: name() }),
        BdevError::CreateBdevFailed { source: 17, name: name() }
    );
    assert_eq!(
        BdevError::from(ArrayError::BdevDestroyFailed { source: 16, name: name() }),
        BdevError::DestroyBdevFailed { source: 16, name: name() }
    );
    assert_eq!(
        BdevError::from(ArrayError::NotEnoughDevices { array_name: name() }),
        BdevError::CreateBdevInvalidParams { source: 22, name: name() }
    );
    assert_eq!(
        BdevError::from(ArrayError::DeviceBlockLengthMismatch { name: name() }),
        BdevError::CreateBdevInvalidParams { source: 22, name: name() }
    );
    assert_eq!(
        BdevError::from(ArrayError::DeviceSizeMismatch { name: name() }),
        BdevError::CreateBdevInvalidParams { source: 22, name: name() }
    );
}
