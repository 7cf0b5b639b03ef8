//! What the listener does with each thing it reads from the link.

use vstd::prelude::*;
use crate::frame::{decode, parse, Operation};
use crate::table::HostEntry;

verus! {

/// What the listener does after one read.
#[derive(Clone, Copy, Debug, PartialEq, Eq, Structural)]
pub enum ReceiverAction {
    /// Hand the pair of sender address and sender hardware address on.
    Forward(HostEntry),
    /// Drop the frame and read the next one.
    Skip,
    /// The link failed: stop listening. The scan has failed with it.
    Stop,
}

/// The host that a frame announces: the sender of an ARP reply. Frames that
/// do not decode, that are not ARP, or that carry a request announce none.
pub open spec fn reply_of(b: Seq<u8>) -> Option<HostEntry> {
    match parse(b) {
        Ok(m) => if m.operation == Operation::Reply {
            Some(HostEntry { ip: m.sender_ip, mac: m.sender_hw })
        } else {
            None
        },
        Err(_) => None,
    }
}

/// What the listener does after a read: `None` stands for a read that failed.
pub open spec fn action_of(read: Option<Seq<u8>>) -> ReceiverAction {
    match read {
        None => ReceiverAction::Stop,
        Some(b) => match reply_of(b) {
            Some(e) => ReceiverAction::Forward(e),
            None => ReceiverAction::Skip,
        },
    }
}

/// Filters one received frame: the host to record, if the frame is an ARP reply.
pub fn receive_frame(bytes: &[u8]) -> (r: Option<HostEntry>)
    ensures
        r == reply_of(bytes@),
{
    match decode(bytes) {
        Ok(m) => match m.operation {
            Operation::Reply => Some(HostEntry { ip: m.sender_ip, mac: m.sender_hw }),
            Operation::Request => None,
        },
        Err(_) => None,
    }
}

/// One turn of the listener's loop, after a read that gave `read` (`None`: the
/// read itself failed).
pub fn receiver_step(read: Option<&[u8]>) -> (a: ReceiverAction)
    ensures
        a == action_of(
            match read {
                Some(b) => Some(b@),
                None => None,
            },
        ),
{
    match read {
        None => ReceiverAction::Stop,
        Some(b) => match receive_frame(b) {
            Some(e) => ReceiverAction::Forward(e),
            None => ReceiverAction::Skip,
        },
    }
}

/// A frame that decodes to a request announces no host, so nothing is
/// recorded for it.
pub proof fn lemma_request_not_forwarded(b: Seq<u8>)
    requires
        parse(b) matches Ok(m) && m.operation == Operation::Request,
    ensures
        reply_of(b).is_none(),
        action_of(Some(b)) == ReceiverAction::Skip,
{
}

/// A frame that does not decode is skipped: it never stops the listener.
pub proof fn lemma_bad_frame_skipped(b: Seq<u8>)
    requires
        parse(b).is_err(),
    ensures
        action_of(Some(b)) == ReceiverAction::Skip,
{
}

/// A host is forwarded exactly for a frame that decodes to a reply, and it
/// is that reply's sender.
pub proof fn lemma_forward_iff_reply(b: Seq<u8>)
    ensures
        reply_of(b).is_some() <==> (parse(b) matches Ok(m) && m.operation == Operation::Reply),
        reply_of(b) matches Some(e) ==> e.ip == parse(b).unwrap().sender_ip && e.mac == parse(
            b,
        ).unwrap().sender_hw,
{
}

} // verus!
