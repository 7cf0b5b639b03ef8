//! The scan as a state machine: the caller does what an action says (starts
//! the listener, writes a frame, waits, takes a queued reply) and reports
//! back with an event.

use vstd::prelude::*;
use crate::addr::{Ipv4Address, MacAddr};
use crate::frame::{encode_request, request_frame};
use crate::subnet::{lemma_size_positive, Subnet};
use crate::table::{recorded, HostEntry, ScanResult};

verus! {

/// Where a scan stands.
#[derive(Clone, Copy, Debug, PartialEq, Eq, Structural)]
pub enum Phase {
    Idle,
    TargetsComputed,
    /// The listener is attached and the first request is on its way.
    Listening,
    /// At least one request was written and more are to follow.
    Requesting,
    Collecting,
    Finalized,
    Failed,
}

/// Why a scan ended without a result.
#[derive(Clone, Copy, Debug, PartialEq, Eq, Structural)]
pub enum ScanError {
    InterfaceNotFound,
    LoopbackInterface,
    NoIpv4Address,
    LinkWriteError,
    LinkReadError,
}

impl ScanError {
    /// Errors of setup, found before any frame is written.
    pub open spec fn spec_is_configuration(self) -> bool {
        self is InterfaceNotFound || self is LoopbackInterface || self is NoIpv4Address
    }

    /// The code with which the process ends on this error: 1 for an error
    /// of setup, 2 for one of the link.
    pub open spec fn spec_exit_code(self) -> i32 {
        if self.spec_is_configuration() {
            1
        } else {
            2
        }
    }

    pub fn exit_code(&self) -> (r: i32)
        ensures
            r == self.spec_exit_code(),
            r != 0,
    {
        if self.is_configuration() {
            1
        } else {
            2
        }
    }

    pub fn is_configuration(&self) -> (r: bool)
        ensures
            r == self.spec_is_configuration(),
    {
        match self {
            ScanError::InterfaceNotFound => true,
            ScanError::LoopbackInterface => true,
            ScanError::NoIpv4Address => true,
            ScanError::LinkWriteError => false,
            ScanError::LinkReadError => false,
        }
    }
}

/// What is known of the chosen interface before the scan.
#[derive(Debug)]
pub struct InterfaceInfo {
    pub name: String,
    pub index: u32,
    pub mac: MacAddr,
    pub loopback: bool,
    /// The first IPv4 network of the interface, if it has one.
    pub ipv4: Option<Subnet>,
}

/// The interface as the scan uses it, taken once at the start.
#[derive(Debug)]
pub struct InterfaceContext {
    pub name: String,
    pub index: u32,
    pub mac: MacAddr,
    pub ip: Ipv4Address,
    pub subnet: Subnet,
}

impl InterfaceContext {
    /// The frame by which this interface asks who has `target`.
    pub fn request_for(&self, target: Ipv4Address) -> (out: Vec<u8>)
        ensures
            out@ == request_frame(self.mac, self.ip, target),
    {
        encode_request(self.mac, self.ip, target)
    }
}

/// What happened outside since the last action.
#[derive(Debug)]
pub enum Event {
    /// The interface was looked up: `None` where there is none of that name or index.
    InterfaceResolved(Option<InterfaceInfo>),
    /// The listener is attached to the link.
    ReceiverAttached,
    /// The request was written to the link.
    RequestSent,
    /// Writing the request failed.
    WriteFailed,
    /// The listener ended, which it never does on its own account.
    ReceiverClosed,
    /// The collection window is over.
    DeadlineElapsed,
    /// The queue held this reply.
    Reply(HostEntry),
    /// The queue holds nothing more.
    QueueEmpty,
}

/// What the caller is to do next.
#[derive(Clone, Copy, Debug, PartialEq, Eq, Structural)]
pub enum Action {
    StartReceiver,
    SendRequest(Ipv4Address),
    AwaitDeadline,
    /// Take the next queued reply without waiting.
    Drain,
    Finish,
    Abort(ScanError),
    /// The event does not belong to this phase: nothing changed.
    Ignore,
}

/// The state of a scan as contracts see it.
pub struct ScanState {
    pub phase: Phase,
    pub context: Option<InterfaceContext>,
    /// How many requests were written.
    pub sent: u32,
    /// Whether the deadline has passed and the queue is being emptied.
    pub draining: bool,
    /// The hosts recorded so far, as a mapping.
    pub table: Map<Ipv4Address, MacAddr>,
    /// The same hosts as rows, in the order in which their addresses were
    /// first recorded.
    pub rows: Seq<HostEntry>,
    pub frozen: bool,
}

/// The configuration error that a lookup amounts to, if any.
pub open spec fn config_error(probe: Option<InterfaceInfo>) -> Option<ScanError> {
    match probe {
        None => Some(ScanError::InterfaceNotFound),
        Some(info) => if info.loopback {
            Some(ScanError::LoopbackInterface)
        } else if info.ipv4.is_none() {
            Some(ScanError::NoIpv4Address)
        } else {
            None
        },
    }
}

/// The context made from an interface that has an IPv4 network.
pub open spec fn context_of(info: InterfaceInfo) -> InterfaceContext {
    InterfaceContext {
        name: info.name,
        index: info.index,
        mac: info.mac,
        ip: info.ipv4.unwrap().spec_addr(),
        subnet: info.ipv4.unwrap(),
    }
}

/// The addresses that the scan asks for.
pub open spec fn targets_of(s: ScanState) -> Seq<Ipv4Address> {
    s.context.unwrap().subnet.targets()
}

/// The state after `ev`, and the action that answers it.
pub open spec fn step_model(s: ScanState, ev: Event) -> (ScanState, Action) {
    match ev {
        Event::InterfaceResolved(probe) => if !(s.phase is Idle) {
            (s, Action::Ignore)
        } else if config_error(probe) is Some {
            (ScanState { phase: Phase::Failed, ..s }, Action::Abort(config_error(probe).unwrap()))
        } else {
            (
                ScanState {
                    phase: Phase::TargetsComputed,
                    context: Some(context_of(probe.unwrap())),
                    ..s
                },
                Action::StartReceiver,
            )
        },
        Event::ReceiverAttached => if s.phase is TargetsComputed {
            (ScanState { phase: Phase::Listening, ..s }, Action::SendRequest(targets_of(s)[0]))
        } else {
            (s, Action::Ignore)
        },
        Event::RequestSent => if !(s.phase is Listening || s.phase is Requesting) {
            (s, Action::Ignore)
        } else if s.sent + 1 < targets_of(s).len() {
            (
                ScanState { phase: Phase::Requesting, sent: (s.sent + 1) as u32, ..s },
                Action::SendRequest(targets_of(s)[s.sent + 1]),
            )
        } else {
            (
                ScanState { phase: Phase::Collecting, sent: (s.sent + 1) as u32, ..s },
                Action::AwaitDeadline,
            )
        },
        Event::WriteFailed => if s.phase is Listening || s.phase is Requesting {
            (ScanState { phase: Phase::Failed, ..s }, Action::Abort(ScanError::LinkWriteError))
        } else {
            (s, Action::Ignore)
        },
        Event::ReceiverClosed => if s.phase is TargetsComputed || s.phase is Listening
            || s.phase is Requesting || s.phase is Collecting {
            (ScanState { phase: Phase::Failed, ..s }, Action::Abort(ScanError::LinkReadError))
        } else {
            (s, Action::Ignore)
        },
        Event::DeadlineElapsed => if s.phase is Collecting && !s.draining {
            (ScanState { draining: true, ..s }, Action::Drain)
        } else {
            (s, Action::Ignore)
        },
        Event::Reply(e) => if s.phase is Collecting && s.draining {
            (
                ScanState { table: s.table.insert(e.ip, e.mac), rows: recorded(s.rows, e), ..s },
                Action::Drain,
            )
        } else {
            (s, Action::Ignore)
        },
        Event::QueueEmpty => if s.phase is Collecting && s.draining {
            (ScanState { phase: Phase::Finalized, frozen: true, ..s }, Action::Finish)
        } else {
            (s, Action::Ignore)
        },
    }
}

/// A scan in progress.
#[derive(Debug)]
pub struct Scanner {
    phase: Phase,
    context: Option<InterfaceContext>,
    sent: u32,
    draining: bool,
    result: ScanResult,
}

impl View for Scanner {
    type V = ScanState;

    closed spec fn view(&self) -> ScanState {
        ScanState {
            phase: self.phase,
            context: self.context,
            sent: self.sent,
            draining: self.draining,
            table: self.result@,
            rows: self.result.rows(),
            frozen: self.result.is_frozen(),
        }
    }
}

impl Scanner {
    /// What holds of every scan: the table has one row per address; from
    /// `TargetsComputed` to `Requesting` the interface is known; before the
    /// listener is attached no request was written, and while requests go
    /// out, fewer were written than there are targets; the result is frozen
    /// once the scan is `Finalized`, and not before.
    pub closed spec fn wf(self) -> bool {
        &&& self.result.wf()
        &&& (self.phase is TargetsComputed || self.phase is Listening || self.phase is Requesting)
            ==> self.context is Some
        &&& (self.phase is Listening || self.phase is Requesting) ==> self.sent
            < self.context.unwrap().subnet.targets().len()
        &&& (self.phase is Idle || self.phase is TargetsComputed) ==> self.sent == 0
        &&& self.result.is_frozen() <==> self.phase is Finalized
    }

    /// A scan that has not begun.
    pub fn new() -> (r: Scanner)
        ensures
            r.wf(),
            r@ == (ScanState {
                phase: Phase::Idle,
                context: None,
                sent: 0,
                draining: false,
                table: Map::empty(),
                rows: Seq::empty(),
                frozen: false,
            }),
    {
        Scanner {
            phase: Phase::Idle,
            context: None,
            sent: 0,
            draining: false,
            result: ScanResult::new(),
        }
    }

    /// Takes one event, moves to the next state and says what to do.
    pub fn step(&mut self, event: Event) -> (action: Action)
        requires
            old(self).wf(),
        ensures
            final(self).wf(),
            (final(self)@, action) == step_model(old(self)@, event),
    {
        match event {
            Event::InterfaceResolved(probe) => {
                match self.phase {
                    Phase::Idle => {},
                    _ => {
                        return Action::Ignore;
                    },
                }
                match probe {
                    None => {
                        self.phase = Phase::Failed;
                        Action::Abort(ScanError::InterfaceNotFound)
                    },
                    Some(info) => {
                        if info.loopback {
                            self.phase = Phase::Failed;
                            Action::Abort(ScanError::LoopbackInterface)
                        } else {
                            match info.ipv4 {
                                None => {
                                    self.phase = Phase::Failed;
                                    Action::Abort(ScanError::NoIpv4Address)
                                },
                                Some(subnet) => {
                                    self.context = Some(
                                        InterfaceContext {
                                            name: info.name,
                                            index: info.index,
                                            mac: info.mac,
                                            ip: subnet.addr(),
                                            subnet: subnet,
                                        },
                                    );
                                    self.phase = Phase::TargetsComputed;
                                    Action::StartReceiver
                                },
                            }
                        }
                    },
                }
            },
            Event::ReceiverAttached => {
                match self.phase {
                    Phase::TargetsComputed => {},
                    _ => {
                        return Action::Ignore;
                    },
                }
                let first: Option<Ipv4Address> = match &self.context {
                    Some(ctx) => ctx.subnet.target_at(0),
                    None => None,
                };
                match first {
                    Some(ip) => {
                        self.phase = Phase::Listening;
                        Action::SendRequest(ip)
                    },
                    None => Action::Ignore,
                }
            },
            Event::RequestSent => {
                match self.phase {
                    Phase::Listening => {},
                    Phase::Requesting => {},
                    _ => {
                        return Action::Ignore;
                    },
                }
                let next: u32 = self.sent + 1;
                let target: Option<Ipv4Address> = match &self.context {
                    Some(ctx) => ctx.subnet.target_at(next),
                    None => None,
                };
                self.sent = next;
                match target {
                    Some(ip) => {
                        self.phase = Phase::Requesting;
                        Action::SendRequest(ip)
                    },
                    None => {
                        self.phase = Phase::Collecting;
                        Action::AwaitDeadline
                    },
                }
            },
            Event::WriteFailed => {
                match self.phase {
                    Phase::Listening => {},
                    Phase::Requesting => {},
                    _ => {
                        return Action::Ignore;
                    },
                }
                self.phase = Phase::Failed;
                Action::Abort(ScanError::LinkWriteError)
            },
            Event::ReceiverClosed => {
                match self.phase {
                    Phase::TargetsComputed => {},
                    Phase::Listening => {},
                    Phase::Requesting => {},
                    Phase::Collecting => {},
                    _ => {
                        return Action::Ignore;
                    },
                }
                self.phase = Phase::Failed;
                Action::Abort(ScanError::LinkReadError)
            },
            Event::DeadlineElapsed => {
                match self.phase {
                    Phase::Collecting => {},
                    _ => {
                        return Action::Ignore;
                    },
                }
                if self.draining {
                    return Action::Ignore;
                }
                self.draining = true;
                Action::Drain
            },
            Event::Reply(e) => {
                match self.phase {
                    Phase::Collecting => {},
                    _ => {
                        return Action::Ignore;
                    },
                }
                if !self.draining {
                    return Action::Ignore;
                }
                let _accepted: bool = self.result.record(e.ip, e.mac);
                Action::Drain
            },
            Event::QueueEmpty => {
                match self.phase {
                    Phase::Collecting => {},
                    _ => {
                        return Action::Ignore;
                    },
                }
                if !self.draining {
                    return Action::Ignore;
                }
                self.result.freeze();
                self.phase = Phase::Finalized;
                Action::Finish
            },
        }
    }

    pub fn phase(&self) -> (r: Phase)
        ensures
            r == self@.phase,
    {
        self.phase
    }

    /// The interface of the scan, once it is known.
    pub fn context(&self) -> (r: &Option<InterfaceContext>)
        ensures
            *r == self@.context,
    {
        &self.context
    }

    /// How many requests were written so far.
    pub fn sent(&self) -> (r: u32)
        ensures
            r == self@.sent,
    {
        self.sent
    }

    /// The result as it stands.
    pub fn result(&self) -> (r: &ScanResult)
        requires
            self.wf(),
        ensures
            r.wf(),
            r@ == self@.table,
            r.is_frozen() == self@.frozen,
            r.rows() == self@.rows,
    {
        &self.result
    }

    /// Hands the result over, which ends the scan.
    pub fn into_result(self) -> (r: ScanResult)
        requires
            self.wf(),
        ensures
            r.wf(),
            r@ == self@.table,
            r.is_frozen() == self@.frozen,
            r.rows() == self@.rows,
    {
        self.result
    }
}

/// After the queue was drained nothing is recorded any more: a reply that
/// comes later leaves the finished scan as it is.
pub proof fn lemma_late_reply_lost(s: ScanState, e: HostEntry)
    requires
        s.phase is Finalized,
    ensures
        step_model(s, Event::Reply(e)) == (s, Action::Ignore),
{
}

/// A finished or failed scan takes no event.
pub proof fn lemma_terminal_phases(s: ScanState, ev: Event)
    requires
        s.phase is Finalized || s.phase is Failed,
    ensures
        step_model(s, ev) == (s, Action::Ignore),
{
}

/// The table changes only while the queue is drained, and then by one
/// write, in which the last reply for an address wins.
pub proof fn lemma_table_written_only_by_replies(s: ScanState, ev: Event)
    ensures
        step_model(s, ev).0.table == if s.phase is Collecting && s.draining && ev is Reply {
            s.table.insert(ev->Reply_0.ip, ev->Reply_0.mac)
        } else {
            s.table
        },
{
}

/// Of two replies for one address, the one taken last stands in the table.
pub proof fn lemma_last_reply_wins(s: ScanState, ip: Ipv4Address, first: MacAddr, second: MacAddr)
    requires
        s.phase is Collecting,
        s.draining,
    ensures
        ({
            let after_first = step_model(s, Event::Reply(HostEntry { ip, mac: first })).0;
            let after_both = step_model(after_first, Event::Reply(HostEntry { ip, mac: second })).0;
            after_both.table == s.table.insert(ip, second) && after_both.table[ip] == second
        }),
{
    assert(s.table.insert(ip, first).insert(ip, second) =~= s.table.insert(ip, second));
}

/// Every address that a request is asked for is a target of the
/// interface's subnet: the first one when the listener is attached, then the
/// one after those already written.
pub proof fn lemma_requests_are_targets(s: ScanState, ev: Event)
    requires
        s.context is Some,
        s.context.unwrap().subnet.valid(),
        step_model(s, ev).1 is SendRequest,
    ensures
        targets_of(s).contains(step_model(s, ev).1->SendRequest_0),
{
    lemma_size_positive(s.context.unwrap().subnet.spec_prefix());
    let ip = step_model(s, ev).1->SendRequest_0;
    if ev is ReceiverAttached {
        assert(targets_of(s)[0] == ip);
    } else {
        assert(targets_of(s)[s.sent + 1] == ip);
    }
}

/// No request is asked for before the listener is attached: an action that
/// sends comes only in answer to the listener's attachment or to an earlier
/// request having been written.
pub proof fn lemma_listen_before_send(s: ScanState, ev: Event)
    requires
        step_model(s, ev).1 is SendRequest,
    ensures
        (s.phase is TargetsComputed && ev is ReceiverAttached) || ((s.phase is Listening
            || s.phase is Requesting) && ev is RequestSent),
        step_model(s, ev).0.phase is Listening || step_model(s, ev).0.phase is Requesting,
{
}

} // verus!
