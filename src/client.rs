//! The command-line side: handing the arguments to the running service and
//! relaying what it streams back.

use crate::message::{ControlMessage, DecodeError, MessageModel};
use vstd::prelude::*;

verus! {

/// What the forwarding client does with one frame read from the service.
#[derive(Debug)]
pub enum ForwardStep {
    /// Write this text to standard output as it is, and read on.
    Print(String),
    /// The service closed the stream: stop and exit normally.
    Finish,
    /// Anything else: stop with a failure.
    Fail,
}

/// Decides what to do with one frame read by the forwarding client: a
/// packet's text is printed verbatim, `CloseSocket` ends the stream normally,
/// and any other message or a frame that does not decode is a failure.
pub fn forward_step(reply: Result<ControlMessage, DecodeError>) -> (r: ForwardStep)
    ensures
        match reply {
            Ok(m) => match m@ {
                MessageModel::Packet(text) => r matches ForwardStep::Print(out) && out@ == text,
                MessageModel::CloseSocket => r is Finish,
                _ => r is Fail,
            },
            Err(_) => r is Fail,
        },
{
    match reply {
        Ok(ControlMessage::Packet(text)) => ForwardStep::Print(text),
        Ok(ControlMessage::CloseSocket) => ForwardStep::Finish,
        _ => ForwardStep::Fail,
    }
}

} // verus!
