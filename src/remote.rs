//! The output side of a dispatched command: what its handle writes on the
//! connection, and the single closing frame.

use crate::message::{encode, frame_bytes, ControlMessage, MessageModel};
use vstd::prelude::*;

verus! {

/// The frames that a command's output handle has written: packets only, and,
/// once it is closed, exactly one `CloseSocket` as the last frame.
pub struct Outbox {
    closed: bool,
    sent: Ghost<Seq<MessageModel>>,
}

/// Only packets, then one `CloseSocket` at the end exactly when `closed`.
pub open spec fn well_ordered(sent: Seq<MessageModel>, closed: bool) -> bool {
    &&& closed ==> sent.len() > 0 && sent.last() is CloseSocket
    &&& forall|i: int|
        0 <= i < sent.len() && !(closed && i == sent.len() - 1) ==> #[trigger] sent[i] is Packet
}

impl Outbox {
    /// Whether the closing frame has been handed out.
    pub closed spec fn is_closed(&self) -> bool {
        self.closed
    }

    /// The messages handed out so far, in order.
    pub closed spec fn sent(&self) -> Seq<MessageModel> {
        self.sent@
    }

    pub open spec fn wf(&self) -> bool {
        well_ordered(self.sent(), self.is_closed())
    }

    #[verifier::type_invariant]
    spec fn inv(&self) -> bool {
        well_ordered(self.sent@, self.closed)
    }

    /// The handle of a command that has written nothing yet.
    pub fn new() -> (r: Outbox)
        ensures
            r.wf(),
            !r.is_closed(),
            r.sent() == Seq::<MessageModel>::empty(),
    {
        Outbox { closed: false, sent: Ghost(Seq::empty()) }
    }

    /// Whether the closing frame has been handed out.
    pub fn closed(&self) -> (r: bool)
        ensures
            r == self.is_closed(),
    {
        self.closed
    }

    /// The frame that carries `text` as one packet of output; nothing once
    /// the handle is closed.
    pub fn packet(&mut self, text: String) -> (r: Option<Vec<u8>>)
        ensures
            final(self).wf(),
            final(self).is_closed() == old(self).is_closed(),
            old(self).is_closed() ==> r is None && final(self).sent() == old(self).sent(),
            !old(self).is_closed() ==> {
                &&& r matches Some(bytes)
                &&& bytes@ == frame_bytes(MessageModel::Packet(text@))
                &&& final(self).sent() == old(self).sent().push(MessageModel::Packet(text@))
            },
    {
        proof {
            use_type_invariant(&*self);
        }
        if self.closed {
            return None;
        }
        let ghost t = text@;
        let bytes = encode(&ControlMessage::Packet(text));
        *self = Outbox { closed: false, sent: Ghost(self.sent@.push(MessageModel::Packet(t))) };
        Some(bytes)
    }

    /// The closing frame, the first time; nothing after that.
    pub fn close(&mut self) -> (r: Option<Vec<u8>>)
        ensures
            final(self).wf(),
            final(self).is_closed(),
            old(self).is_closed() ==> r is None && final(self).sent() == old(self).sent(),
            !old(self).is_closed() ==> {
                &&& r matches Some(bytes)
                &&& bytes@ == frame_bytes(MessageModel::CloseSocket)
                &&& final(self).sent() == old(self).sent().push(MessageModel::CloseSocket)
            },
    {
        proof {
            use_type_invariant(&*self);
        }
        if self.closed {
            return None;
        }
        *self = Outbox { closed: true, sent: Ghost(self.sent@.push(MessageModel::CloseSocket)) };
        Some(encode(&ControlMessage::CloseSocket))
    }
}

/// A closed handle has written `CloseSocket` exactly once, as its last frame,
/// and only packets before it.
pub proof fn lemma_close_exactly_once(o: Outbox)
    requires
        o.wf(),
        o.is_closed(),
    ensures
        forall|i: int|
            0 <= i < o.sent().len() ==> (#[trigger] o.sent()[i] is CloseSocket <==> i == o.sent().len()
                - 1),
        forall|i: int| 0 <= i < o.sent().len() - 1 ==> #[trigger] o.sent()[i] is Packet,
{
}

} // verus!
