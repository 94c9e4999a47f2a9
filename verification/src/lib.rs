//! Firmware handling for ZSA keyboards: recognising bootloaders, reading
//! DFU binaries and Intel HEX images, checking that an image suits a device,
//! and planning the transfers that write it.

pub mod device;
pub mod error;
pub mod firmware;
pub mod flash;
pub mod oryx;
pub mod text;

pub use error::ZappError;
