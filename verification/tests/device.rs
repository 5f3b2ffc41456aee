use leaflash::device::{
    capacity, find_at, open_at, open_single, parse_device_addr, probe_with, Capacity, DeviceAddr,
    DeviceSummary, OpenError, Storage,
};
use leaflash::usb::{choose_device, parse_device, ChoiceError};

fn device(bus: u8, address: u8, available: bool) -> DeviceSummary {
    DeviceSummary { bus, address, available }
}

#[test]
fn addresses_read_back() {
    assert_eq!(parse_device_addr("1:23"), Ok(DeviceAddr { bus: 1, address: 23 }));
    for (bus, address) in [(0u8, 0u8), (7, 255), (255, 10)] {
        assert_eq!(
            parse_device_addr(&format!("{bus}:{address}")),
            Ok(DeviceAddr { bus, address })
        );
        assert_eq!(
            parse_device(&format!("{bus}:{address}")),
            Ok(DeviceAddr { bus, address })
        );
    }
}

#[test]
fn bad_addresses_are_refused() {
    let e = |s: &str| parse_device_addr(s).unwrap_err();
    assert_eq!(e(""), "bus should be a number");
    assert_eq!(e("256:1"), "bus should be a number");
    assert_eq!(e("1"), "missing address; use <bus>:<address>");
    assert_eq!(e("1:x"), "address should be a number");
    assert_eq!(e("1:2:3"), "too many parts; use <bus>:<address>");
    let u = |s: &str| parse_device(s).unwrap_err();
    assert_eq!(u("x:1"), "bus should be a number");
    assert_eq!(u("1"), "no address: use <bus>:<address>");
    assert_eq!(u("1:"), "address should be a number");
    assert_eq!(u("1:2:"), "too many parts");
}

#[test]
fn single_device_is_opened() {
    assert_eq!(open_single(&vec![]), Err(OpenError::NoDevices));
    assert_eq!(open_single(&vec![device(1, 2, true)]), Ok(0));
    assert_eq!(
        open_single(&vec![device(1, 2, false)]),
        Err(OpenError::Unavailable { index: 0 })
    );
    assert_eq!(
        open_single(&vec![device(1, 2, true), device(1, 3, true)]),
        Err(OpenError::Several)
    );
}

#[test]
fn device_is_found_by_its_place() {
    let list = vec![device(1, 2, true), device(1, 3, false), device(2, 2, true)];
    assert_eq!(find_at(&list, 2, 2), Some(2));
    assert_eq!(find_at(&list, 2, 3), None);
    assert_eq!(open_at(&list, 1, 2), Ok(0));
    assert_eq!(open_at(&list, 1, 3), Err(OpenError::Unavailable { index: 1 }));
    assert_eq!(open_at(&list, 9, 9), Err(OpenError::NotFound));
}

#[test]
fn opening_errors_have_texts() {
    assert_eq!(
        OpenError::NoDevices.message_single("", ""),
        "No RockUSB devices found"
    );
    assert_eq!(
        OpenError::Several.message_single("", ""),
        "Multiple RockUSB devices found; specify one with `leaflash usb -d <bus>:<addr>`"
    );
    assert_eq!(
        OpenError::Unavailable { index: 0 }.message_single("Bus 1", "Access denied"),
        "Device Bus 1 unavailable: Access denied"
    );
    assert_eq!(
        OpenError::Unavailable { index: 1 }.message_at(1, 3, "Access denied"),
        "RockUSB device 1:3 unavailable: Access denied"
    );
    assert_eq!(OpenError::NotFound.message_at(9, 9, ""), "RockUSB device 9:9 not found");
}

#[test]
fn usb_command_chooses_a_device_whether_or_not_it_is_usable() {
    let one = vec![device(1, 2, false)];
    let two = vec![device(1, 2, true), device(1, 3, false)];
    assert_eq!(choose_device(&one, None), Ok(0));
    assert_eq!(choose_device(&vec![], None), Err(ChoiceError::NoDevices));
    assert_eq!(choose_device(&two, None), Err(ChoiceError::Several));
    assert_eq!(
        choose_device(&two, Some(DeviceAddr { bus: 1, address: 3 })),
        Ok(1)
    );
    assert_eq!(
        choose_device(&two, Some(DeviceAddr { bus: 2, address: 3 })),
        Err(ChoiceError::NotFound)
    );
    assert_eq!(ChoiceError::NotFound.message(), "specified device not found");
    assert_eq!(ChoiceError::NoDevices.message(), "no devices found");
    assert_eq!(
        ChoiceError::Several.message(),
        "please select a specific device with -d"
    );
}

#[test]
fn storages_have_their_numbers() {
    assert_eq!(Storage::Sd.index(), 2);
    assert_eq!(Storage::SpiNor.index(), 9);
    assert_eq!(
        Storage::Sd.index(),
        u8::from(rockusb::protocol::StorageIndex::Sd0)
    );
    assert_eq!(
        Storage::SpiNor.index(),
        u8::from(rockusb::protocol::StorageIndex::MtdBlkSpiNor)
    );
    assert!(Storage::Sd.is_selected(2));
    assert!(!Storage::SpiNor.is_selected(2));
    assert_eq!(
        Storage::Sd.refusal("Emmc"),
        "Failed to switch storage to SD; current: Emmc"
    );
    assert_eq!(
        Storage::SpiNor.refusal("Sd0"),
        "Failed to switch storage to SPI NOR; current: Sd0"
    );
}

#[test]
fn capacity_is_read_from_the_answer() {
    let info = [0x40, 0x42, 0x0f, 0x00, 1, 2, 3, 4, 5, 6, 7];
    assert_eq!(capacity(&info), Capacity { sectors: 1_000_000, bytes: 512_000_000 });
    let probe = probe_with(&info, &None);
    assert_eq!(probe.total_bytes, 512_000_000);
    assert_eq!(probe.total_sectors, 1_000_000);
    assert!(probe.existing.is_none());
}
