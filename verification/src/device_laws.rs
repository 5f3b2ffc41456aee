//! How devices are named, found and refused, in terms of the list of devices.

use crate::device::{
    addr_in, addr_message, at_message, capacity_in, device_at, lemma_first_at, single,
    single_message, AddrError, DeviceAddr, DeviceSummary, OpenError, Storage,
};
use crate::text::{decimal, digits_value, pieces, unsigned_value};
use crate::text_laws::{law_four_bytes, law_pieces_from_the_left, law_unsigned_reads_digits};
use crate::usb::{choice, device_message, ChoiceError};
use vstd::prelude::*;

verus! {

/// Digits, at least one.
pub open spec fn is_number(s: Seq<char>) -> bool {
    s.len() > 0 && forall|i: int| 0 <= i < s.len() ==> 48 <= (#[trigger] s[i]) as int <= 57
}

/// An address is two numbers of a byte each with a colon between them.
pub proof fn law_addr(bus: Seq<char>, address: Seq<char>, rest: Seq<char>)
    requires
        is_number(bus),
        is_number(address),
    ensures
        digits_value(bus) > 255 ==> addr_in(bus) == Err::<DeviceAddr, AddrError>(
            AddrError::BusNotANumber,
        ) && addr_in(bus + seq![':'] + rest) == Err::<DeviceAddr, AddrError>(
            AddrError::BusNotANumber,
        ),
        digits_value(bus) <= 255 ==> {
            &&& addr_in(bus) == Err::<DeviceAddr, AddrError>(AddrError::MissingAddress)
            &&& digits_value(address) > 255 ==> addr_in(bus + seq![':'] + address) == Err::<
                DeviceAddr,
                AddrError,
            >(AddrError::AddressNotANumber) && addr_in(
                bus + seq![':'] + (address + seq![':'] + rest),
            ) == Err::<DeviceAddr, AddrError>(AddrError::AddressNotANumber)
            &&& digits_value(address) <= 255 ==> {
                &&& addr_in(bus + seq![':'] + address) is Ok
                &&& addr_in(bus + seq![':'] + address)->Ok_0.bus == digits_value(bus)
                &&& addr_in(bus + seq![':'] + address)->Ok_0.address == digits_value(address)
                &&& addr_in(bus + seq![':'] + (address + seq![':'] + rest)) == Err::<
                    DeviceAddr,
                    AddrError,
                >(AddrError::TooManyParts)
            }
        },
{
    assert(!bus.contains(':')) by {
        assert forall|i: int| 0 <= i < bus.len() implies bus[i] != ':' by {
            assert(48 <= bus[i] as int <= 57);
        }
    }
    assert(!address.contains(':')) by {
        assert forall|i: int| 0 <= i < address.len() implies address[i] != ':' by {
            assert(48 <= address[i] as int <= 57);
        }
    }
    let tail = address + seq![':'] + rest;
    law_pieces_from_the_left(bus, rest, ':');
    law_pieces_from_the_left(bus, address, ':');
    law_pieces_from_the_left(bus, tail, ':');
    law_pieces_from_the_left(address, rest, ':');
    crate::text_laws::law_pieces(rest, ':');
    law_unsigned_reads_digits(bus, 255);
    law_unsigned_reads_digits(address, 255);
    assert(pieces(bus + seq![':'] + rest, ':')[0] == bus);
    assert(pieces(bus + seq![':'] + address, ':') =~= seq![bus, address]);
    let all = pieces(bus + seq![':'] + tail, ':');
    assert(all[0] == bus && all[1] == address && all.len() > 2);
}

/// Whatever stands in the two parts, they are read as numbers up to 255, the first one first, and
/// a third part is one too many.
pub proof fn law_addr_parts(bus: Seq<char>, address: Seq<char>, rest: Seq<char>)
    requires
        !bus.contains(':'),
        !address.contains(':'),
    ensures
        ({
            let one = addr_in(bus);
            let two = addr_in(bus + seq![':'] + address);
            let more = addr_in(bus + seq![':'] + (address + seq![':'] + rest));
            let b = unsigned_value(bus, 255);
            let a = unsigned_value(address, 255);
            if b is None {
                &&& one == Err::<DeviceAddr, AddrError>(AddrError::BusNotANumber)
                &&& two == Err::<DeviceAddr, AddrError>(AddrError::BusNotANumber)
                &&& more == Err::<DeviceAddr, AddrError>(AddrError::BusNotANumber)
            } else if a is None {
                &&& one == Err::<DeviceAddr, AddrError>(AddrError::MissingAddress)
                &&& two == Err::<DeviceAddr, AddrError>(AddrError::AddressNotANumber)
                &&& more == Err::<DeviceAddr, AddrError>(AddrError::AddressNotANumber)
            } else {
                &&& one == Err::<DeviceAddr, AddrError>(AddrError::MissingAddress)
                &&& two is Ok
                &&& two->Ok_0.bus == b->Some_0
                &&& two->Ok_0.address == a->Some_0
                &&& more == Err::<DeviceAddr, AddrError>(AddrError::TooManyParts)
            }
        }),
{
    let tail = address + seq![':'] + rest;
    law_pieces_from_the_left(bus, address, ':');
    law_pieces_from_the_left(bus, tail, ':');
    law_pieces_from_the_left(address, rest, ':');
    crate::text_laws::law_pieces(rest, ':');
    assert(pieces(bus, ':')[0] == bus);
    assert(pieces(bus + seq![':'] + address, ':') =~= seq![bus, address]);
    let all = pieces(bus + seq![':'] + tail, ':');
    assert(all[0] == bus && all[1] == address && all.len() > 2);
}

/// Where a list has a device at a place, the first there is found.
pub proof fn law_device_at(devices: Seq<DeviceSummary>, bus: u8, address: u8, i: int)
    requires
        0 <= i < devices.len() <= usize::MAX,
        devices[i].bus == bus,
        devices[i].address == address,
        forall|j: int|
            0 <= j < i ==> (#[trigger] devices[j]).bus != bus || devices[j].address != address,
    ensures
        devices[i].available ==> device_at(devices, bus, address) == Ok::<usize, OpenError>(
            i as usize,
        ),
        !devices[i].available ==> device_at(devices, bus, address) == Err::<usize, OpenError>(
            OpenError::Unavailable { index: i as usize },
        ),
        choice(devices, Some(DeviceAddr { bus, address })) == Ok::<usize, ChoiceError>(i as usize),
{
    lemma_first_at(devices, bus, address);
    let k = crate::device::first_at(devices, bus, address);
    assert(crate::device::is_at(devices[i], bus, address));
    assert(k is Some);
    if k->Some_0 < i {
        assert(crate::device::is_at(devices[k->Some_0], bus, address));
    }
    assert(k == Some(i));
}

/// Where a list has no device at a place, none is found.
pub proof fn law_no_device_at(devices: Seq<DeviceSummary>, bus: u8, address: u8)
    requires
        forall|j: int|
            0 <= j < devices.len() ==> (#[trigger] devices[j]).bus != bus || devices[j].address
                != address,
    ensures
        device_at(devices, bus, address) == Err::<usize, OpenError>(OpenError::NotFound),
        choice(devices, Some(DeviceAddr { bus, address })) == Err::<usize, ChoiceError>(
            ChoiceError::NotFound,
        ),
{
    lemma_first_at(devices, bus, address);
    let k = crate::device::first_at(devices, bus, address);
    if k is Some {
        assert(crate::device::is_at(devices[k->Some_0], bus, address));
    }
}

/// Without a place, the only device is taken.
pub proof fn law_only_device(devices: Seq<DeviceSummary>)
    ensures
        devices.len() == 0 ==> single(devices) == Err::<usize, OpenError>(OpenError::NoDevices)
            && choice(devices, None) == Err::<usize, ChoiceError>(ChoiceError::NoDevices),
        devices.len() == 1 && devices[0].available ==> single(devices) == Ok::<usize, OpenError>(0),
        devices.len() == 1 && !devices[0].available ==> single(devices) == Err::<usize, OpenError>(
            OpenError::Unavailable { index: 0 },
        ),
        devices.len() == 1 ==> choice(devices, None) == Ok::<usize, ChoiceError>(0),
        devices.len() > 1 ==> single(devices) == Err::<usize, OpenError>(OpenError::Several)
            && choice(devices, None) == Err::<usize, ChoiceError>(ChoiceError::Several),
{
}

/// The texts for devices that cannot be had name what was asked for and what went wrong.
pub proof fn law_device_texts(bus: u8, address: u8, device: Seq<char>, why: Seq<char>, i: usize)
    ensures
        single_message(OpenError::NoDevices, device, why) == "No RockUSB devices found"@,
        single_message(OpenError::NotFound, device, why) == "No RockUSB devices found"@,
        single_message(OpenError::Several, device, why)
            == "Multiple RockUSB devices found; specify one with `leaflash usb -d <bus>:<addr>`"@,
        single_message(OpenError::Unavailable { index: i }, device, why) == "Device "@ + device
            + " unavailable: "@ + why,
        at_message(OpenError::NotFound, bus, address, why) == "RockUSB device "@ + decimal(
            bus as nat,
        ) + ":"@ + decimal(address as nat) + " not found"@,
        at_message(OpenError::Unavailable { index: i }, bus, address, why) == "RockUSB device "@
            + decimal(bus as nat) + ":"@ + decimal(address as nat) + (" unavailable: "@ + why),
        addr_message(AddrError::BusNotANumber) == "bus should be a number"@,
        addr_message(AddrError::MissingAddress) == "missing address; use <bus>:<address>"@,
        addr_message(AddrError::AddressNotANumber) == "address should be a number"@,
        addr_message(AddrError::TooManyParts) == "too many parts; use <bus>:<address>"@,
        device_message(AddrError::BusNotANumber) == "bus should be a number"@,
        device_message(AddrError::MissingAddress) == "no address: use <bus>:<address>"@,
        device_message(AddrError::AddressNotANumber) == "address should be a number"@,
        device_message(AddrError::TooManyParts) == "too many parts"@,
        ChoiceError::NotFound.spec_message() == "specified device not found"@,
        ChoiceError::NoDevices.spec_message() == "no devices found"@,
        ChoiceError::Several.spec_message() == "please select a specific device with -d"@,
{
}

/// The storages have the numbers 2 and 9, and a device that stays on another is told which it is.
pub proof fn law_storages(current: Seq<char>)
    ensures
        Storage::Sd.spec_index() == 2,
        Storage::SpiNor.spec_index() == 9,
        Storage::Sd.spec_refusal(current) == "Failed to switch storage to SD; current: "@ + current,
        Storage::SpiNor.spec_refusal(current) == "Failed to switch storage to SPI NOR; current: "@
            + current,
{
}

/// A storage's size stands in the first four bytes of the answer, in sectors of 512 bytes, lowest
/// byte first.
pub proof fn law_capacity(info: Seq<u8>, n: u32)
    requires
        info.len() == 11,
        info[0] == n % 256,
        info[1] == n / 256 % 256,
        info[2] == n / 65536 % 256,
        info[3] == n / 16777216,
    ensures
        capacity_in(info).sectors == n,
        capacity_in(info).bytes == n * 512,
{
    law_four_bytes(info, 0, n);
}

} // verus!
