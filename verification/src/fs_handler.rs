//! The handler of the interrupts of the backend.

use crate::error::{DeviceError, DeviceEventT};
use vstd::prelude::*;

verus! {

/// The bit of the interrupt status that tells the guest of used buffers.
pub const INTERRUPT_STATUS_USED_RING: u32 = 0x1;

/// Passes an interrupt of the backend on to the guest.
///
/// `A` is the interrupt status that is shared with the transport, and `N` an
/// event.
pub struct FsEpollHandler<A, N> {
    /// The interrupt status of the device.
    pub interrupt_status: A,
    /// The event that interrupts the guest.
    pub interrupt_evt: N,
    /// The event that the backend signals.
    pub queue_evt: N,
}

/// A wake-up of the handler that calls for reading `queue_evt`.
pub struct QueueReading {
    _woken: (),
}

/// A wake-up of the handler that calls for setting bits of the interrupt status.
pub struct StatusSetting {
    bits: usize,
}

/// A wake-up of the handler that calls for writing to `interrupt_evt`.
pub struct GuestSignaling {
    increment: u64,
}

impl<A, N> FsEpollHandler<A, N> {
    /// Handles an event. There is one: the backend has signaled.
    pub fn handle_event<E>(&self, device_event: DeviceEventT) -> (res: Result<
        QueueReading,
        DeviceError<E>,
    >)
        ensures
            if device_event == 0 {
                res is Ok
            } else {
                res matches Err(DeviceError::UnknownEvent { device, event }) && device@
                    == "FsEpollHandler"@ && event == device_event
            },
    {
        match device_event {
            0 => Ok(QueueReading { _woken: () }),
            other => Err(DeviceError::UnknownEvent { device: "FsEpollHandler", event: other }),
        }
    }
}

impl QueueReading {
    /// Goes on once `queue_evt` was read, or could not be. Then the guest is to be
    /// told of used buffers.
    pub fn queue_read<E>(self, reading: Result<u64, E>) -> (res: Result<
        StatusSetting,
        DeviceError<E>,
    >)
        ensures
            match reading {
                Ok(_) => res matches Ok(setting) && setting.status_bits()
                    == INTERRUPT_STATUS_USED_RING && setting.status_bits() == 1,
                Err(e) => res matches Err(DeviceError::FailedReadingQueue { event_type, underlying })
                    && event_type@ == "queue event"@ && underlying == e,
            },
    {
        match reading {
            Ok(_) => Ok(StatusSetting { bits: INTERRUPT_STATUS_USED_RING as usize }),
            Err(e) => Err(
                DeviceError::FailedReadingQueue { event_type: "queue event", underlying: e },
            ),
        }
    }
}

impl StatusSetting {
    /// The bits to set.
    pub closed spec fn status_bits(self) -> usize {
        self.bits
    }

    /// The bits to set in the interrupt status.
    pub fn bits(&self) -> (bits: usize)
        ensures
            bits == self.status_bits(),
    {
        self.bits
    }

    /// Goes on once the bits are set. Then `interrupt_evt` is to be written once.
    pub fn status_set(self) -> (signaling: GuestSignaling)
        ensures
            signaling.value() == 1,
    {
        GuestSignaling { increment: 1 }
    }
}

impl GuestSignaling {
    /// The value to write.
    pub closed spec fn value(self) -> u64 {
        self.increment
    }

    /// What to write to `interrupt_evt`.
    pub fn increment(&self) -> (increment: u64)
        ensures
            increment == self.value(),
    {
        self.increment
    }

    /// Ends once `interrupt_evt` was written, or could not be.
    pub fn signaled<E>(self, writing: Result<(), E>) -> (res: Result<(), DeviceError<E>>)
        ensures
            match writing {
                Ok(_) => res is Ok,
                Err(e) => res == Err::<(), DeviceError<E>>(
                    DeviceError::FailedSignalingUsedQueue(e),
                ),
            },
    {
        match writing {
            Ok(_) => Ok(()),
            Err(e) => Err(DeviceError::FailedSignalingUsedQueue(e)),
        }
    }
}

} // verus!
