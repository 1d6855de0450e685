//! The place of a device on io_uring. It is not connected to the kernel.
use crate::device::null::NullDevice;
use crate::device::{DeviceFactory, DeviceOpenOptions};
use crate::types::Error;
use vstd::prelude::*;

verus! {

#[derive(Clone, Debug)]
pub struct UringDeviceFactory {
    pub queue_depth: u32,
}

impl DeviceFactory for UringDeviceFactory {
    /// Nothing is ever opened.
    type Opened = NullDevice;

    fn open(&self, options: DeviceOpenOptions) -> (r: Result<NullDevice, Error>)
        ensures
            r == Err::<NullDevice, Error>(Error::Unimplemented("device::uring")),
    {
        Err(Error::unimplemented("device::uring"))
    }
}

} // verus!
