//! What the library knows of the Bluetooth transport: RFCOMM result codes and
//! the device listing of the system profiler.
pub mod rfcomm;
pub mod system_profiler;
pub mod paired;
