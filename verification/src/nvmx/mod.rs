//! The NVMe controller I/O channel and the device handle on top of it.
pub mod channel;
pub mod handle;
pub mod utils;
