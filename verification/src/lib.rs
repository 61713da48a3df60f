use vstd::prelude::*;

pub mod cache;
pub mod engine;
pub mod channel;
pub mod marshal;
pub mod params;
pub mod pipeline;
pub mod request;
pub mod response;
pub mod scheduler;
pub mod stub;
pub mod tensors;

use crate::channel::clone_sender;
use crate::request::Request;

verus! {

/// The public face of the inference server: it owns the sending half of
/// the engine's request channel. The surrounding runtime creates the
/// channel, hands the receiving half to the engine's thread and this
/// half to the callers.
pub struct FxServ {
    pub sender: std::sync::mpsc::Sender<Request>,
}

impl FxServ {
    /// Wrap the sending half of an engine's request channel.
    pub fn new(sender: std::sync::mpsc::Sender<Request>) -> (s: FxServ)
        ensures
            s.sender == sender,
    {
        FxServ { sender }
    }

    /// A sender feeding the engine's request channel, one per caller.
    pub fn get_sender(&self) -> std::sync::mpsc::Sender<Request> {
        clone_sender(&self.sender)
    }
}

} // verus!
