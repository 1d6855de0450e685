//! A device without storage: it rejects every request and keeps nothing.
use crate::device::{
    Device, DeviceCapabilities, DeviceFactory, DeviceOpenOptions, IoCompletion, IoRequest,
    RejectedIo,
};
use crate::types::{Deadline, Error, IoId, PollBudget};
use vstd::prelude::*;

verus! {

#[derive(Clone, Debug, Default)]
pub struct NullDeviceFactory;

pub struct NullDevice;

impl DeviceFactory for NullDeviceFactory {
    type Opened = NullDevice;

    fn open(&self, options: DeviceOpenOptions) -> (r: Result<NullDevice, Error>)
        ensures
            r == Ok::<NullDevice, Error>(NullDevice),
    {
        Ok(NullDevice)
    }
}

impl Device for NullDevice {
    open spec fn wf(&self) -> bool {
        true
    }

    open spec fn owed(&self) -> nat {
        0
    }

    /// Nothing ever comes.
    open spec fn polls(
        self,
        budget: nat,
        arrived: Seq<IoCompletion>,
        r: Result<(), Error>,
        after: NullDevice,
    ) -> bool {
        arrived.len() == 0 && r == Ok::<(), Error>(())
    }

    fn capabilities(&self) -> (r: DeviceCapabilities)
        ensures
            r == (DeviceCapabilities {
                supports_files: false,
                memory_alignment: 1,
                transfer_alignment: 1,
                supports_file_sync: false,
                supports_directory_sync: false,
                supports_atomic_publish: false,
                supports_directory_listing: false,
                supports_file_locks: false,
            }),
    {
        DeviceCapabilities {
            supports_files: false,
            memory_alignment: 1,
            transfer_alignment: 1,
            supports_file_sync: false,
            supports_directory_sync: false,
            supports_atomic_publish: false,
            supports_directory_listing: false,
            supports_file_locks: false,
        }
    }

    fn submit(&mut self, request: IoRequest) -> (r: Result<IoId, RejectedIo>)
        ensures
            r == Err::<IoId, RejectedIo>(
                RejectedIo { request, reason: Error::UnsupportedDurability },
            ),
    {
        Err(RejectedIo { request, reason: Error::UnsupportedDurability })
    }

    fn poll(&mut self, budget: PollBudget, output: &mut Vec<IoCompletion>) -> (r: Result<(), Error>)
        ensures
            r == Ok::<(), Error>(()),
            final(output)@ == old(output)@,
    {
        Ok(())
    }

    fn shutdown(&mut self, deadline: Deadline) -> (r: Result<(), Error>)
        ensures
            r == Ok::<(), Error>(()),
    {
        Ok(())
    }
}

} // verus!
