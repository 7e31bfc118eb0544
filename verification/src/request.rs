//! Requests of the API server, on their way to the VMM.

use crate::fs_config::{FsDeviceConfig, FsError};
use futures::sync::oneshot;
use hyper::Method;
use vstd::prelude::*;

verus! {

/// `hyper::Method`, the HTTP method of a request. It is only passed along.
#[verifier::external_type_specification]
#[verifier::external_body]
pub struct ExMethod(hyper::Method);

/// `futures::sync::oneshot::Sender`, the end of a channel that takes one value.
#[verifier::external_type_specification]
#[verifier::external_body]
#[verifier::reject_recursive_types(T)]
pub struct ExSender<T>(oneshot::Sender<T>);

/// `futures::sync::oneshot::Receiver`, the end of a channel that yields the
/// value.
#[verifier::external_type_specification]
#[verifier::external_body]
#[verifier::reject_recursive_types(T)]
pub struct ExReceiver<T>(oneshot::Receiver<T>);

/// What the VMM answers to a request on fs devices.
pub type Outcome = Result<(), FsError>;

/// Whether `sender` and `receiver` are the two ends of one channel.
pub uninterp spec fn same_channel(
    sender: oneshot::Sender<Outcome>,
    receiver: oneshot::Receiver<Outcome>,
) -> bool;

/// Calls `futures::sync::oneshot::channel`, which makes a new channel: what goes
/// into the sender comes out of the receiver that is returned beside it.
#[verifier::external_body]
fn outcome_channel() -> (ends: (oneshot::Sender<Outcome>, oneshot::Receiver<Outcome>))
    ensures
        same_channel(ends.0, ends.1),
{
    oneshot::channel()
}

/// What the VMM is asked to do.
pub enum VmmAction {
    /// Add or replace the configuration of an fs device. The outcome goes into
    /// the sender.
    InsertFsDevice(FsDeviceConfig, oneshot::Sender<Outcome>),
}

/// A request that has been read and checked.
pub enum ParsedRequest {
    /// An action for the VMM, and where its outcome comes out.
    Sync(VmmAction, oneshot::Receiver<Outcome>),
}

impl FsDeviceConfig {
    /// Turns the configuration into the request to insert it. Neither the id in
    /// the path nor the method plays a part.
    pub fn into_parsed_request(
        self,
        _id_from_path: Option<String>,
        _method: Method,
    ) -> (res: Result<ParsedRequest, String>)
        ensures
            res matches Ok(ParsedRequest::Sync(
                VmmAction::InsertFsDevice(cfg, sender),
                receiver,
            )) && cfg == self && same_channel(sender, receiver),
    {
        let (sender, receiver) = outcome_channel();
        Ok(ParsedRequest::Sync(VmmAction::InsertFsDevice(self, sender), receiver))
    }
}

} // verus!
