//! The place of a device on Windows completion ports. It is not connected to the kernel.
use crate::device::null::NullDevice;
use crate::device::{DeviceFactory, DeviceOpenOptions};
use crate::types::Error;
use vstd::prelude::*;

verus! {

#[derive(Clone, Debug)]
pub struct WindowsDeviceFactory {
    pub queue_capacity: usize,
}

impl DeviceFactory for WindowsDeviceFactory {
    /// Nothing is ever opened.
    type Opened = NullDevice;

    fn open(&self, options: DeviceOpenOptions) -> (r: Result<NullDevice, Error>)
        ensures
            r == Err::<NullDevice, Error>(Error::Unimplemented("device::windows")),
    {
        Err(Error::unimplemented("device::windows"))
    }
}

} // verus!
