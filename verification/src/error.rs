use vstd::prelude::*;

use crate::device::DeviceError;

verus! {

/// Why a command could not be carried out.
#[derive(Debug)]
pub enum AppError {
    NoDeviceFound,
    NoMatch { filter: String, available: String },
    NcLevelExceeded { level: u8, max: u8, product: String },
    Device(DeviceError),
    /// A report's JSON text could not be written; the serializer's message.
    Output(String),
}

} // verus!
