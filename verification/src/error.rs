//! The error type of the library.

use vstd::prelude::*;

verus! {

/// Why flashing, or reading a firmware image, failed.
#[derive(Debug)]
pub enum ZappError {
    /// The DFU exchange with a bootloader went wrong.
    Dfu(String),
    /// The firmware image is malformed.
    InvalidFirmware(String),
    /// The firmware image is meant for another kind of bootloader.
    IncompatibleFirmware { firmware_desc: String, device_desc: String },
    /// The USB device is not one this library can flash.
    UnsupportedDevice { vid: u16, pid: u16 },
    /// No bootloader appeared in time.
    Timeout,
    /// No ZSA keyboard is connected.
    NoKeyboardFound,
    /// A request to Oryx failed.
    Network(String),
}

impl ZappError {
    /// Whether this is `InvalidFirmware` with exactly the message `msg`.
    pub open spec fn is_invalid_firmware(self, msg: Seq<char>) -> bool {
        self matches ZappError::InvalidFirmware(m) && m@ == msg
    }

    /// Whether this is `Dfu` with exactly the message `msg`.
    pub open spec fn is_dfu(self, msg: Seq<char>) -> bool {
        self matches ZappError::Dfu(m) && m@ == msg
    }

    /// Whether this is `IncompatibleFirmware` with exactly these descriptions.
    pub open spec fn is_incompatible(self, firmware: Seq<char>, device: Seq<char>) -> bool {
        self matches ZappError::IncompatibleFirmware { firmware_desc, device_desc }
            && firmware_desc@ == firmware && device_desc@ == device
    }
}

/// `InvalidFirmware` carrying the message `msg`.
pub fn invalid_firmware(msg: String) -> (res: ZappError)
    ensures
        res.is_invalid_firmware(msg@),
{
    ZappError::InvalidFirmware(msg)
}

} // verus!
