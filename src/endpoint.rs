//! Where the service listens, and what an existence probe concludes.

use crate::message::{ControlMessage, MessageModel};
use vstd::prelude::*;

verus! {

/// The endpoint of the program named `program`: a socket under the local
/// runtime-state directory, named after the program.
pub open spec fn endpoint_of(program: Seq<char>) -> Seq<char> {
    seq!['/', 'r', 'u', 'n', '/'] + program + seq!['.', 's', 'o', 'c', 'k']
}

/// The endpoint of the program named `program`; every invocation of one
/// program finds the same address.
pub fn socket_name(program: &str) -> (r: String)
    ensures
        r@ == endpoint_of(program@),
{
    let mut name = String::from_str("/run/");
    name.append(program);
    name.append(".sock");
    proof {
        reveal_strlit("/run/");
        reveal_strlit(".sock");
        assert(name@ =~= endpoint_of(program@));
    }
    name
}

/// What an existence probe learned.
#[derive(Debug, PartialEq, Eq, Structural)]
pub enum ProbeOutcome {
    /// Nothing listens at the endpoint: no service is running.
    Absent,
    /// A service answered with its process id.
    Running(u32),
    /// Something listens but did not answer with a process id.
    Unexpected,
}

/// The conclusion of a probe, from whether the connection was made and the
/// first message read back on it (`None` when reading or decoding it failed).
pub open spec fn probe_model(connected: bool, reply: Option<MessageModel>) -> ProbeOutcome {
    if !connected {
        ProbeOutcome::Absent
    } else {
        match reply {
            Some(MessageModel::IdResponse(pid)) => ProbeOutcome::Running(pid),
            _ => ProbeOutcome::Unexpected,
        }
    }
}

/// Concludes a probe: a refused connection means no service is running, an
/// `IdResponse` gives the running service's process id, and anything else
/// is unexpected.
pub fn probe_outcome(connected: bool, reply: &Option<ControlMessage>) -> (r: ProbeOutcome)
    ensures
        r == probe_model(
            connected,
            match reply {
                Some(m) => Some(m@),
                None => None,
            },
        ),
{
    if !connected {
        return ProbeOutcome::Absent;
    }
    match reply {
        Some(ControlMessage::IdResponse(pid)) => ProbeOutcome::Running(*pid),
        _ => ProbeOutcome::Unexpected,
    }
}

} // verus!
