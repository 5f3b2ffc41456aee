//! RockUSB devices: how one is named and chosen, and what is known of its SD card.

use crate::flash::{
    existing_layout_info, read_existing_layout_info, GptSlots, LayoutInfo, SECTOR_SIZE,
};
use crate::text::{
    decimal, decimal_text, is_digit, law_decimal_reads_back, le32, lemma_first_index_is,
    lemma_first_index_none, parse_unsigned, pieces, split, unsigned_value,
};
use vstd::prelude::*;

verus! {

/// An attached device.
#[derive(Debug, Clone, Copy, PartialEq, Eq, Structural)]
pub struct DeviceSummary {
    pub bus: u8,
    pub address: u8,
    pub available: bool,
}

/// What a probe found out about the SD card.
#[derive(Debug, Clone, Copy)]
pub struct SdProbe {
    pub total_bytes: u64,
    pub total_sectors: u64,
    pub existing: Option<LayoutInfo>,
}

/// USB bus + device address, used by CLI subcommands that target a
/// specific RockUSB device. Parsed from "<bus>:<address>".
#[derive(Debug, Clone, Copy, PartialEq, Eq, Structural)]
pub struct DeviceAddr {
    pub bus: u8,
    pub address: u8,
}

/// What is wrong with the text of a device address.
#[derive(Debug, Clone, Copy, PartialEq, Eq, Structural)]
pub enum AddrError {
    BusNotANumber,
    MissingAddress,
    AddressNotANumber,
    TooManyParts,
}

/// The address that a text writes.
pub open spec fn addr_in(s: Seq<char>) -> Result<DeviceAddr, AddrError> {
    let parts = pieces(s, ':');
    match unsigned_value(parts[0], 255) {
        None => Err(AddrError::BusNotANumber),
        Some(bus) => if parts.len() < 2 {
            Err(AddrError::MissingAddress)
        } else {
            match unsigned_value(parts[1], 255) {
                None => Err(AddrError::AddressNotANumber),
                Some(address) => if parts.len() > 2 {
                    Err(AddrError::TooManyParts)
                } else {
                    Ok(DeviceAddr { bus: bus as u8, address: address as u8 })
                },
            }
        },
    }
}

/// Parse "<bus>:<address>".
pub fn parse_addr(s: &str) -> (r: Result<DeviceAddr, AddrError>)
    ensures
        r == addr_in(s@),
{
    let parts: Vec<&str> = split(s, ':');
    assert(parts@[0]@ == pieces(s@, ':')[0]);
    let bus: u8 = match parse_unsigned(parts[0], 255) {
        Some(n) => n as u8,
        None => {
            return Err(AddrError::BusNotANumber);
        },
    };
    if parts.len() < 2 {
        return Err(AddrError::MissingAddress);
    }
    assert(parts@[1]@ == pieces(s@, ':')[1]);
    let address: u8 = match parse_unsigned(parts[1], 255) {
        Some(n) => n as u8,
        None => {
            return Err(AddrError::AddressNotANumber);
        },
    };
    if parts.len() > 2 {
        return Err(AddrError::TooManyParts);
    }
    Ok(DeviceAddr { bus, address })
}

/// The text of an error in the option that names a device.
pub open spec fn addr_message(e: AddrError) -> Seq<char> {
    match e {
        AddrError::BusNotANumber => "bus should be a number"@,
        AddrError::MissingAddress => "missing address; use <bus>:<address>"@,
        AddrError::AddressNotANumber => "address should be a number"@,
        AddrError::TooManyParts => "too many parts; use <bus>:<address>"@,
    }
}

/// Parse "<bus>:<address>".
pub fn parse_device_addr(s: &str) -> (r: Result<DeviceAddr, String>)
    ensures
        match r {
            Ok(a) => addr_in(s@) == Ok::<DeviceAddr, AddrError>(a),
            Err(m) => addr_in(s@) is Err && m@ == addr_message(addr_in(s@)->Err_0),
        },
{
    match parse_addr(s) {
        Ok(a) => Ok(a),
        Err(e) => Err(
            match e {
                AddrError::BusNotANumber => "bus should be a number".to_owned(),
                AddrError::MissingAddress => "missing address; use <bus>:<address>".to_owned(),
                AddrError::AddressNotANumber => "address should be a number".to_owned(),
                AddrError::TooManyParts => "too many parts; use <bus>:<address>".to_owned(),
            },
        ),
    }
}

/// Why no device is opened. The index is that of the device which cannot be used.
#[derive(Debug, Clone, Copy, PartialEq, Eq, Structural)]
pub enum OpenError {
    NoDevices,
    NotFound,
    Several,
    Unavailable { index: usize },
}

/// The device with index `i`, if it can be used.
pub open spec fn usable(devices: Seq<DeviceSummary>, i: int) -> Result<usize, OpenError> {
    if devices[i].available {
        Ok(i as usize)
    } else {
        Err(OpenError::Unavailable { index: i as usize })
    }
}

/// The only device there is.
pub open spec fn single(devices: Seq<DeviceSummary>) -> Result<usize, OpenError> {
    if devices.len() == 0 {
        Err(OpenError::NoDevices)
    } else if devices.len() > 1 {
        Err(OpenError::Several)
    } else {
        usable(devices, 0)
    }
}

pub open spec fn is_at(d: DeviceSummary, bus: u8, address: u8) -> bool {
    d.bus == bus && d.address == address
}

/// The index of the first device at the given place.
pub open spec fn first_at(devices: Seq<DeviceSummary>, bus: u8, address: u8) -> Option<int>
    decreases devices.len(),
{
    if devices.len() == 0 {
        None
    } else if is_at(devices[0], bus, address) {
        Some(0)
    } else {
        match first_at(devices.skip(1), bus, address) {
            Some(i) => Some(i + 1),
            None => None,
        }
    }
}

/// The first device at the given place, if it can be used.
pub open spec fn device_at(devices: Seq<DeviceSummary>, bus: u8, address: u8) -> Result<
    usize,
    OpenError,
> {
    match first_at(devices, bus, address) {
        None => Err(OpenError::NotFound),
        Some(i) => usable(devices, i),
    }
}

/// The first device at a place is there, and none before it is.
pub proof fn lemma_first_at(devices: Seq<DeviceSummary>, bus: u8, address: u8)
    ensures
        match first_at(devices, bus, address) {
            Some(i) => 0 <= i < devices.len() && is_at(devices[i], bus, address) && forall|j: int|
                0 <= j < i ==> !is_at(#[trigger] devices[j], bus, address),
            None => forall|j: int|
                0 <= j < devices.len() ==> !is_at(#[trigger] devices[j], bus, address),
        },
    decreases devices.len(),
{
    if devices.len() > 0 && !is_at(devices[0], bus, address) {
        let rest = devices.skip(1);
        lemma_first_at(rest, bus, address);
        let last = match first_at(rest, bus, address) {
            Some(k) => k + 1,
            None => devices.len() as int,
        };
        assert forall|j: int| 0 <= j < last implies !is_at(#[trigger] devices[j], bus, address) by {
            if j > 0 {
                assert(rest[j - 1] == devices[j]);
            }
        }
    }
}

/// Choose the device to open when exactly one is attached.
pub fn open_single(devices: &Vec<DeviceSummary>) -> (r: Result<usize, OpenError>)
    ensures
        r == single(devices@),
{
    if devices.len() == 0 {
        Err(OpenError::NoDevices)
    } else if devices.len() > 1 {
        Err(OpenError::Several)
    } else if devices[0].available {
        Ok(0)
    } else {
        Err(OpenError::Unavailable { index: 0 })
    }
}

/// The index of the first device at the given place.
pub fn find_at(devices: &Vec<DeviceSummary>, bus: u8, address: u8) -> (r: Option<usize>)
    ensures
        match r {
            Some(i) => i < devices@.len() && first_at(devices@, bus, address) == Some(i as int),
            None => first_at(devices@, bus, address) is None,
        },
{
    let mut i: usize = 0;
    while i < devices.len()
        invariant
            i <= devices.len(),
            forall|j: int| 0 <= j < i ==> !is_at(#[trigger] devices@[j], bus, address),
        decreases devices.len() - i,
    {
        let d: DeviceSummary = devices[i];
        if d.bus == bus && d.address == address {
            proof {
                assert(is_at(devices@[i as int], bus, address));
                lemma_first_at(devices@, bus, address);
            }
            return Some(i);
        }
        i = i + 1;
    }
    proof {
        lemma_first_at(devices@, bus, address);
    }
    None
}

/// Choose the RockUSB device to open by USB bus + address.
pub fn open_at(devices: &Vec<DeviceSummary>, bus: u8, address: u8) -> (r: Result<usize, OpenError>)
    ensures
        r == device_at(devices@, bus, address),
{
    match find_at(devices, bus, address) {
        None => Err(OpenError::NotFound),
        Some(i) => if devices[i].available {
            Ok(i)
        } else {
            Err(OpenError::Unavailable { index: i })
        },
    }
}

/// The text for a device that cannot be opened when no place was asked for. `device` and
/// `reason` tell of the device that cannot be used.
pub open spec fn single_message(e: OpenError, device: Seq<char>, reason: Seq<char>) -> Seq<char> {
    match e {
        OpenError::NoDevices | OpenError::NotFound => "No RockUSB devices found"@,
        OpenError::Several =>
            "Multiple RockUSB devices found; specify one with `leaflash usb -d <bus>:<addr>`"@,
        OpenError::Unavailable { .. } => "Device "@ + device + " unavailable: "@ + reason,
    }
}

/// The text for a device that cannot be opened when a place was asked for.
pub open spec fn at_message(e: OpenError, bus: u8, address: u8, reason: Seq<char>) -> Seq<char> {
    "RockUSB device "@ + decimal(bus as nat) + ":"@ + decimal(address as nat) + (match e {
        OpenError::Unavailable { .. } => " unavailable: "@ + reason,
        _ => " not found"@,
    })
}

impl OpenError {
    /// The text of this error when no place was asked for.
    pub fn message_single(&self, device: &str, reason: &str) -> (r: String)
        ensures
            r@ == single_message(*self, device@, reason@),
    {
        match self {
            OpenError::NoDevices | OpenError::NotFound => "No RockUSB devices found".to_owned(),
            OpenError::Several =>
                "Multiple RockUSB devices found; specify one with `leaflash usb -d <bus>:<addr>`".to_owned(),
            OpenError::Unavailable { .. } => {
                let mut r: String = "Device ".to_owned();
                r.append(device);
                r.append(" unavailable: ");
                r.append(reason);
                r
            },
        }
    }

    /// The text of this error when the given place was asked for.
    pub fn message_at(&self, bus: u8, address: u8, reason: &str) -> (r: String)
        ensures
            r@ == at_message(*self, bus, address, reason@),
    {
        let mut r: String = "RockUSB device ".to_owned();
        r.append(&decimal_text(bus as u64));
        r.append(":");
        r.append(&decimal_text(address as u64));
        match self {
            OpenError::Unavailable { .. } => {
                r.append(" unavailable: ");
                r.append(reason);
                assert(r@ =~= at_message(*self, bus, address, reason@));
            },
            _ => {
                r.append(" not found");
            },
        }
        r
    }
}

/// A storage that a command works on.
#[derive(Debug, Clone, Copy, PartialEq, Eq, Structural)]
pub enum Storage {
    Sd,
    SpiNor,
}

impl Storage {
    /// The bit position of the storage in the boot ROM's mask of boot types.
    pub open spec fn spec_index(self) -> u8 {
        match self {
            Storage::Sd => 2,
            Storage::SpiNor => 9,
        }
    }

    /// The bit position of the storage in the boot ROM's mask of boot types.
    pub fn index(&self) -> (r: u8)
        ensures
            r == self.spec_index(),
    {
        match self {
            Storage::Sd => 2,
            Storage::SpiNor => 9,
        }
    }

    /// The text for a device that stayed on another storage.
    pub open spec fn spec_refusal(self, current: Seq<char>) -> Seq<char> {
        match self {
            Storage::Sd => "Failed to switch storage to SD; current: "@ + current,
            Storage::SpiNor => "Failed to switch storage to SPI NOR; current: "@ + current,
        }
    }

    /// The text for a device that stayed on another storage.
    pub fn refusal(&self, current: &str) -> (r: String)
        ensures
            r@ == self.spec_refusal(current@),
    {
        let mut r: String = match self {
            Storage::Sd => "Failed to switch storage to SD; current: ".to_owned(),
            Storage::SpiNor => "Failed to switch storage to SPI NOR; current: ".to_owned(),
        };
        r.append(current);
        r
    }

    /// Whether a device that reports `current` is on this storage.
    pub fn is_selected(&self, current: u8) -> (r: bool)
        ensures
            r == (current == self.spec_index()),
    {
        current == self.index()
    }
}

/// `rockusb::protocol::FlashInfo::sectors`: the first four bytes of the device's answer, as
/// a little-endian number.
#[verifier::external_body]
pub(crate) fn flash_sectors(info: &[u8; 11]) -> (r: u32)
    ensures
        r == le32(info@, 0),
{
    rockusb::protocol::FlashInfo::from_bytes(*info).sectors()
}

/// `rockusb::protocol::FlashInfo::size`: the sectors, times 512 bytes.
#[verifier::external_body]
pub(crate) fn flash_bytes(info: &[u8; 11]) -> (r: u64)
    ensures
        r == le32(info@, 0) * SECTOR_SIZE,
{
    rockusb::protocol::FlashInfo::from_bytes(*info).size()
}

/// `rockusb::protocol::Capability::direct_lba`: the lowest bit of the first byte of the
/// device's answer.
#[verifier::external_body]
pub(crate) fn direct_lba(capability: &[u8; 8]) -> (r: bool)
    ensures
        r == (capability@[0] & 1u8 == 1u8),
{
    rockusb::protocol::Capability::from_bytes(*capability).direct_lba()
}

/// How large a storage is.
#[derive(Debug, Clone, Copy, PartialEq, Eq, Structural)]
pub struct Capacity {
    pub sectors: u32,
    pub bytes: u64,
}

/// The size in the device's answer.
pub open spec fn capacity_in(info: Seq<u8>) -> Capacity {
    Capacity {
        sectors: le32(info, 0) as u32,
        bytes: (le32(info, 0) * SECTOR_SIZE) as u64,
    }
}

/// The size in the device's answer.
pub fn capacity(info: &[u8; 11]) -> (r: Capacity)
    ensures
        r == capacity_in(info@),
        r.bytes == r.sectors * SECTOR_SIZE,
        r.sectors == le32(info@, 0),
{
    Capacity { sectors: flash_sectors(info), bytes: flash_bytes(info) }
}

/// What a probe reports, from the device's answer and the first entries of the table on the
/// card.
pub fn probe_with(info: &[u8; 11], slots: &Option<GptSlots>) -> (r: SdProbe)
    ensures
        r.total_bytes == capacity_in(info@).bytes,
        r.total_sectors == capacity_in(info@).sectors,
        r.existing == existing_layout_info(*slots),
{
    let size: Capacity = capacity(info);
    SdProbe {
        total_bytes: size.bytes,
        total_sectors: size.sectors as u64,
        existing: read_existing_layout_info(slots),
    }
}

/// A device address that is written as bus and address reads back.
pub proof fn law_addr_reads_back(bus: u8, address: u8)
    ensures
        addr_in(decimal(bus as nat) + seq![':'] + decimal(address as nat)) == Ok::<
            DeviceAddr,
            AddrError,
        >(DeviceAddr { bus, address }),
{
    let b = decimal(bus as nat);
    let a = decimal(address as nat);
    let s = b + seq![':'] + a;
    law_decimal_reads_back(bus as nat);
    law_decimal_reads_back(address as nat);
    assert forall|j: int| 0 <= j < b.len() implies #[trigger] s[j] != ':' by {
        assert(is_digit(b[j]));
    }
    lemma_first_index_is(s, ':', b.len() as int);
    assert(s.take(b.len() as int) =~= b);
    assert(s.skip(b.len() as int + 1) =~= a);
    assert forall|j: int| 0 <= j < a.len() implies #[trigger] a[j] != ':' by {
        assert(is_digit(a[j]));
    }
    lemma_first_index_none(a, ':');
    assert(pieces(a, ':') =~= seq![a]);
    assert(pieces(s, ':') =~= seq![b, a]);
    assert(is_digit(b[0]) && is_digit(a[0]));
}

} // verus!
