//! What can go wrong with the device.
//!
//! `E` is the error of the call that failed. It is handed on as it came.

use vstd::prelude::*;

verus! {

/// The number of an event that an epoll handler is woken by.
pub type DeviceEventT = u16;

/// Errors of the vhost-user device.
#[derive(Debug, PartialEq)]
pub enum Error<E> {
    /// Connecting to the vhost-user socket failed.
    VhostUserConnect(E),
    /// Reading the features of the backend failed.
    VhostUserGetFeatures(E),
    /// Creating the event for interrupts of the backend failed.
    VhostIrqCreate(E),
    /// Setting the owner failed.
    VhostUserSetOwner(E),
    /// Setting the features failed.
    VhostUserSetFeatures(E),
    /// Setting the file descriptor for requests of the backend failed.
    VhostUserSetSlaveReqFd(E),
    /// Setting the memory table failed.
    VhostUserSetMemTable(E),
    /// Setting the size of a queue failed.
    VhostUserSetVringNum(E),
    /// The descriptor table is not in guest memory.
    DescriptorTableAddress(E),
    /// The used ring is not in guest memory.
    UsedAddress(E),
    /// The available ring is not in guest memory.
    AvailAddress(E),
    /// Setting the addresses of a queue failed.
    VhostUserSetVringAddr(E),
    /// Setting the base of a queue failed.
    VhostUserSetVringBase(E),
    /// Setting the event that the backend signals failed.
    VhostUserSetVringCall(E),
    /// Setting the event that the guest signals failed.
    VhostUserSetVringKick(E),
}

/// Errors of the activation of a device.
#[derive(Debug, PartialEq)]
pub enum ActivateError<E> {
    /// An event could not be added to an epoll instance.
    EpollCtl(E),
    /// The queues that were handed in do not fit the device.
    BadActivate,
    /// The vhost-user device could not be brought up.
    BadVhostActivate(Error<E>),
}

/// Errors of the event handlers of a device.
#[derive(Debug, PartialEq)]
pub enum DeviceError<E> {
    /// An event of a queue could not be read.
    FailedReadingQueue { event_type: &'static str, underlying: E },
    /// The guest could not be told of used buffers.
    FailedSignalingUsedQueue(E),
    /// The handler does not know the event.
    UnknownEvent { device: &'static str, event: DeviceEventT },
}

} // verus!
