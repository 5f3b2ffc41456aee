//! Choosing the device that a low-level USB command works on.

use crate::device::{
    addr_in, find_at, first_at, parse_addr, AddrError, DeviceAddr, DeviceSummary,
};
use vstd::prelude::*;

verus! {

/// The text of an error in the option that names a device.
pub open spec fn device_message(e: AddrError) -> Seq<char> {
    match e {
        AddrError::BusNotANumber => "bus should be a number"@,
        AddrError::MissingAddress => "no address: use <bus>:<address>"@,
        AddrError::AddressNotANumber => "address should be a number"@,
        AddrError::TooManyParts => "too many parts"@,
    }
}

/// Parse the option that names a device, "<bus>:<address>".
pub fn parse_device(s: &str) -> (r: Result<DeviceAddr, String>)
    ensures
        match r {
            Ok(a) => addr_in(s@) == Ok::<DeviceAddr, AddrError>(a),
            Err(m) => addr_in(s@) is Err && m@ == device_message(addr_in(s@)->Err_0),
        },
{
    match parse_addr(s) {
        Ok(a) => Ok(a),
        Err(e) => Err(
            match e {
                AddrError::BusNotANumber => "bus should be a number".to_owned(),
                AddrError::MissingAddress => "no address: use <bus>:<address>".to_owned(),
                AddrError::AddressNotANumber => "address should be a number".to_owned(),
                AddrError::TooManyParts => "too many parts".to_owned(),
            },
        ),
    }
}

/// Why no device is chosen.
#[derive(Debug, Clone, Copy, PartialEq, Eq, Structural)]
pub enum ChoiceError {
    NotFound,
    NoDevices,
    /// More than one device is attached; they are listed before the error.
    Several,
}

impl ChoiceError {
    /// The text of an error.
    pub open spec fn spec_message(self) -> Seq<char> {
        match self {
            ChoiceError::NotFound => "specified device not found"@,
            ChoiceError::NoDevices => "no devices found"@,
            ChoiceError::Several => "please select a specific device with -d"@,
        }
    }

    /// The text of this error.
    pub fn message(&self) -> (r: &'static str)
        ensures
            r@ == self.spec_message(),
    {
        match self {
            ChoiceError::NotFound => "specified device not found",
            ChoiceError::NoDevices => "no devices found",
            ChoiceError::Several => "please select a specific device with -d",
        }
    }
}

/// The device that a command works on, whether or not it can be used: the first at the place
/// asked for, else the only one.
pub open spec fn choice(devices: Seq<DeviceSummary>, wanted: Option<DeviceAddr>) -> Result<
    usize,
    ChoiceError,
> {
    match wanted {
        Some(a) => match first_at(devices, a.bus, a.address) {
            Some(i) => Ok(i as usize),
            None => Err(ChoiceError::NotFound),
        },
        None => if devices.len() == 0 {
            Err(ChoiceError::NoDevices)
        } else if devices.len() == 1 {
            Ok(0)
        } else {
            Err(ChoiceError::Several)
        },
    }
}

/// Choose the device that a command works on.
pub fn choose_device(devices: &Vec<DeviceSummary>, wanted: Option<DeviceAddr>) -> (r: Result<
    usize,
    ChoiceError,
>)
    ensures
        r == choice(devices@, wanted),
        match r {
            Ok(i) => i < devices@.len(),
            Err(_) => true,
        },
{
    match wanted {
        Some(a) => match find_at(devices, a.bus, a.address) {
            Some(i) => Ok(i),
            None => Err(ChoiceError::NotFound),
        },
        None => if devices.len() == 0 {
            Err(ChoiceError::NoDevices)
        } else if devices.len() == 1 {
            Ok(0)
        } else {
            Err(ChoiceError::Several)
        },
    }
}

} // verus!
