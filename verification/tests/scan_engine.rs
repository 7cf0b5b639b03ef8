use arp_scanner::addr::{Ipv4Address, MacAddr};
use arp_scanner::frame::{
    decode, encode, encode_request, ArpMessage, Operation, ETHERTYPE_IPV4, HARDWARE_ETHERNET,
};
use arp_scanner::receiver::{receive_frame, receiver_step, ReceiverAction};
use arp_scanner::scan::{Action, Event, InterfaceInfo, Phase, ScanError, Scanner};
use arp_scanner::subnet::Subnet;
use arp_scanner::table::{HostEntry, ScanResult, NO_HOSTS_MESSAGE};

fn our_mac() -> MacAddr {
    MacAddr::new(0x02, 0x42, 0xac, 0x11, 0x00, 0x02)
}

fn reply_frame(ip: Ipv4Address, mac: MacAddr) -> Vec<u8> {
    let msg = ArpMessage {
        hardware_type: HARDWARE_ETHERNET,
        protocol_type: ETHERTYPE_IPV4,
        operation: Operation::Reply,
        sender_hw: mac,
        sender_ip: ip,
        target_hw: our_mac(),
        target_ip: Ipv4Address::new(192, 168, 1, 5),
    };
    encode(our_mac(), mac, &msg)
}

fn info(prefix: u8) -> InterfaceInfo {
    InterfaceInfo {
        name: String::from("eth0"),
        index: 2,
        mac: our_mac(),
        loopback: false,
        ipv4: Subnet::new(Ipv4Address::new(192, 168, 1, 5), prefix),
    }
}

/// Drives a scan of a /30 up to the point where the deadline has passed.
fn scanner_at_drain() -> Scanner {
    let mut s = Scanner::new();
    assert_eq!(s.step(Event::InterfaceResolved(Some(info(30)))), Action::StartReceiver);
    assert_eq!(s.step(Event::ReceiverAttached), Action::SendRequest(Ipv4Address::new(192, 168, 1, 4)));
    assert_eq!(s.step(Event::RequestSent), Action::SendRequest(Ipv4Address::new(192, 168, 1, 5)));
    assert_eq!(s.step(Event::RequestSent), Action::SendRequest(Ipv4Address::new(192, 168, 1, 6)));
    assert_eq!(s.step(Event::RequestSent), Action::SendRequest(Ipv4Address::new(192, 168, 1, 7)));
    assert_eq!(s.step(Event::RequestSent), Action::AwaitDeadline);
    assert_eq!(s.step(Event::DeadlineElapsed), Action::Drain);
    s
}

#[test]
fn request_frames_are_never_forwarded() {
    let frame = encode_request(our_mac(), Ipv4Address::new(192, 168, 1, 5), Ipv4Address::new(192, 168, 1, 10));
    assert_eq!(decode(&frame).unwrap().operation, Operation::Request);
    assert_eq!(receive_frame(&frame), None);
    assert_eq!(receiver_step(Some(&frame)), ReceiverAction::Skip);
}

#[test]
fn bad_frames_are_skipped() {
    let good = reply_frame(Ipv4Address::new(192, 168, 1, 10), MacAddr::new(1, 2, 3, 4, 5, 6));
    assert_eq!(receiver_step(Some(&good[..41])), ReceiverAction::Skip);
    assert_eq!(receiver_step(Some(&[])), ReceiverAction::Skip);
    let mut other = good.clone();
    other[13] = 0x00;
    assert_eq!(receiver_step(Some(&other)), ReceiverAction::Skip);
    let mut odd = good.clone();
    odd[21] = 9;
    assert_eq!(receiver_step(Some(&odd)), ReceiverAction::Skip);
}

#[test]
fn failed_read_stops_the_listener() {
    assert_eq!(receiver_step(None), ReceiverAction::Stop);
}

#[test]
fn reply_is_forwarded_with_its_sender() {
    let ip = Ipv4Address::new(192, 168, 1, 10);
    let mac = MacAddr::new(0xaa, 0xbb, 0xcc, 0xdd, 0xee, 0xff);
    let frame = reply_frame(ip, mac);
    assert_eq!(receive_frame(&frame), Some(HostEntry { ip, mac }));
    assert_eq!(receiver_step(Some(&frame)), ReceiverAction::Forward(HostEntry { ip, mac }));
}

#[test]
fn one_reply_before_the_deadline() {
    let ip = Ipv4Address::new(192, 168, 1, 10);
    let mac = MacAddr::new(0xaa, 0xbb, 0xcc, 0xdd, 0xee, 0xff);
    let forwarded = match receiver_step(Some(&reply_frame(ip, mac))) {
        ReceiverAction::Forward(e) => e,
        other => panic!("not forwarded: {:?}", other),
    };
    let mut s = scanner_at_drain();
    assert_eq!(s.step(Event::Reply(forwarded)), Action::Drain);
    assert_eq!(s.step(Event::QueueEmpty), Action::Finish);
    assert_eq!(s.phase(), Phase::Finalized);
    let result = s.into_result();
    assert!(result.frozen());
    assert_eq!(result.to_rows(), vec![HostEntry { ip, mac }]);
    assert_eq!(result.get(ip), Some(mac));
    assert_eq!(result.len(), 1);
    assert_eq!(result.notice(), None);
}

#[test]
fn last_reply_for_an_address_wins() {
    let ip = Ipv4Address::new(192, 168, 1, 10);
    let first = MacAddr::new(0xaa, 0xbb, 0xcc, 0xdd, 0xee, 0xff);
    let second = MacAddr::new(0x11, 0x22, 0x33, 0x44, 0x55, 0x66);
    let other = HostEntry { ip: Ipv4Address::new(192, 168, 1, 1), mac: MacAddr::new(9, 9, 9, 9, 9, 9) };
    let mut s = scanner_at_drain();
    assert_eq!(s.step(Event::Reply(HostEntry { ip, mac: first })), Action::Drain);
    assert_eq!(s.step(Event::Reply(other)), Action::Drain);
    assert_eq!(s.step(Event::Reply(HostEntry { ip, mac: second })), Action::Drain);
    assert_eq!(s.step(Event::QueueEmpty), Action::Finish);
    let result = s.into_result();
    assert_eq!(result.len(), 2);
    assert_eq!(result.get(ip), Some(second));
    assert_eq!(result.get(other.ip), Some(other.mac));
    assert_eq!(result.to_rows(), vec![HostEntry { ip, mac: second }, other]);
}

#[test]
fn no_reply_gives_an_empty_result() {
    let mut s = scanner_at_drain();
    assert_eq!(s.step(Event::QueueEmpty), Action::Finish);
    let result = s.into_result();
    assert!(result.is_empty());
    assert_eq!(result.len(), 0);
    assert_eq!(result.to_rows(), Vec::<HostEntry>::new());
    assert_eq!(result.notice(), Some("No hosts found..."));
    assert_eq!(NO_HOSTS_MESSAGE, "No hosts found...");
}

#[test]
fn reply_after_the_drain_is_lost() {
    let early = HostEntry { ip: Ipv4Address::new(192, 168, 1, 10), mac: MacAddr::new(1, 2, 3, 4, 5, 6) };
    let late = HostEntry { ip: Ipv4Address::new(192, 168, 1, 11), mac: MacAddr::new(6, 5, 4, 3, 2, 1) };
    let mut s = scanner_at_drain();
    assert_eq!(s.step(Event::Reply(early)), Action::Drain);
    assert_eq!(s.step(Event::QueueEmpty), Action::Finish);
    assert_eq!(s.step(Event::Reply(late)), Action::Ignore);
    assert_eq!(s.phase(), Phase::Finalized);
    let mut result = s.into_result();
    assert_eq!(result.get(late.ip), None);
    assert_eq!(result.to_rows(), vec![early]);
    assert!(!result.record(late.ip, late.mac));
    assert_eq!(result.to_rows(), vec![early]);
}

#[test]
fn reply_before_the_deadline_event_is_not_taken_early() {
    let e = HostEntry { ip: Ipv4Address::new(192, 168, 1, 10), mac: MacAddr::new(1, 2, 3, 4, 5, 6) };
    let mut s = Scanner::new();
    s.step(Event::InterfaceResolved(Some(info(32))));
    assert_eq!(s.step(Event::ReceiverAttached), Action::SendRequest(Ipv4Address::new(192, 168, 1, 5)));
    assert_eq!(s.phase(), Phase::Listening);
    assert_eq!(s.step(Event::Reply(e)), Action::Ignore);
    assert_eq!(s.step(Event::RequestSent), Action::AwaitDeadline);
    assert_eq!(s.phase(), Phase::Collecting);
    assert_eq!(s.step(Event::Reply(e)), Action::Ignore);
    assert_eq!(s.step(Event::QueueEmpty), Action::Ignore);
    assert_eq!(s.step(Event::DeadlineElapsed), Action::Drain);
    assert_eq!(s.step(Event::DeadlineElapsed), Action::Ignore);
    assert_eq!(s.step(Event::Reply(e)), Action::Drain);
    assert_eq!(s.step(Event::QueueEmpty), Action::Finish);
    assert_eq!(s.into_result().to_rows(), vec![e]);
}

#[test]
fn phases_follow_in_order() {
    let mut s = Scanner::new();
    assert_eq!(s.phase(), Phase::Idle);
    assert_eq!(s.step(Event::ReceiverAttached), Action::Ignore);
    assert_eq!(s.step(Event::RequestSent), Action::Ignore);
    assert_eq!(s.phase(), Phase::Idle);
    s.step(Event::InterfaceResolved(Some(info(31))));
    assert_eq!(s.phase(), Phase::TargetsComputed);
    assert_eq!(s.context().as_ref().unwrap().ip, Ipv4Address::new(192, 168, 1, 5));
    assert_eq!(s.context().as_ref().unwrap().mac, our_mac());
    assert_eq!(s.context().as_ref().unwrap().name, "eth0");
    assert_eq!(s.step(Event::RequestSent), Action::Ignore);
    s.step(Event::ReceiverAttached);
    assert_eq!(s.phase(), Phase::Listening);
    assert_eq!(s.sent(), 0);
    assert_eq!(s.step(Event::RequestSent), Action::SendRequest(Ipv4Address::new(192, 168, 1, 5)));
    assert_eq!(s.phase(), Phase::Requesting);
    assert_eq!(s.sent(), 1);
    assert_eq!(s.step(Event::RequestSent), Action::AwaitDeadline);
    assert_eq!(s.phase(), Phase::Collecting);
    assert_eq!(s.sent(), 2);
    s.step(Event::DeadlineElapsed);
    assert_eq!(s.phase(), Phase::Collecting);
    s.step(Event::QueueEmpty);
    assert_eq!(s.phase(), Phase::Finalized);
    assert!(s.result().frozen());
}

#[test]
fn configuration_errors() {
    let mut s = Scanner::new();
    assert_eq!(s.step(Event::InterfaceResolved(None)), Action::Abort(ScanError::InterfaceNotFound));
    assert_eq!(s.phase(), Phase::Failed);

    let mut s = Scanner::new();
    let mut lo = info(8);
    lo.loopback = true;
    assert_eq!(s.step(Event::InterfaceResolved(Some(lo))), Action::Abort(ScanError::LoopbackInterface));
    assert_eq!(s.phase(), Phase::Failed);

    let mut s = Scanner::new();
    let mut bare = info(24);
    bare.ipv4 = None;
    assert_eq!(s.step(Event::InterfaceResolved(Some(bare))), Action::Abort(ScanError::NoIpv4Address));
    assert_eq!(s.phase(), Phase::Failed);
    assert_eq!(s.step(Event::ReceiverAttached), Action::Ignore);

    let mut s = Scanner::new();
    let mut both = info(24);
    both.loopback = true;
    both.ipv4 = None;
    assert_eq!(s.step(Event::InterfaceResolved(Some(both))), Action::Abort(ScanError::LoopbackInterface));

    assert!(ScanError::InterfaceNotFound.is_configuration());
    assert!(ScanError::LoopbackInterface.is_configuration());
    assert!(ScanError::NoIpv4Address.is_configuration());
    assert!(!ScanError::LinkWriteError.is_configuration());
    assert!(!ScanError::LinkReadError.is_configuration());
    assert_eq!(ScanError::InterfaceNotFound.exit_code(), 1);
    assert_eq!(ScanError::LoopbackInterface.exit_code(), 1);
    assert_eq!(ScanError::NoIpv4Address.exit_code(), 1);
    assert_eq!(ScanError::LinkWriteError.exit_code(), 2);
    assert_eq!(ScanError::LinkReadError.exit_code(), 2);
}

#[test]
fn transport_errors_end_the_scan() {
    let mut s = Scanner::new();
    s.step(Event::InterfaceResolved(Some(info(24))));
    s.step(Event::ReceiverAttached);
    s.step(Event::RequestSent);
    assert_eq!(s.step(Event::WriteFailed), Action::Abort(ScanError::LinkWriteError));
    assert_eq!(s.phase(), Phase::Failed);
    assert_eq!(s.step(Event::RequestSent), Action::Ignore);

    let mut s = scanner_at_drain();
    assert_eq!(s.step(Event::WriteFailed), Action::Ignore);
    assert_eq!(s.step(Event::ReceiverClosed), Action::Abort(ScanError::LinkReadError));
    assert_eq!(s.phase(), Phase::Failed);
    assert!(!s.result().frozen());

    let mut s = Scanner::new();
    assert_eq!(s.step(Event::ReceiverClosed), Action::Ignore);
    s.step(Event::InterfaceResolved(Some(info(24))));
    assert_eq!(s.step(Event::ReceiverClosed), Action::Abort(ScanError::LinkReadError));
}

#[test]
fn context_builds_the_request() {
    let mut s = Scanner::new();
    s.step(Event::InterfaceResolved(Some(info(24))));
    let target = Ipv4Address::new(192, 168, 1, 200);
    let frame = s.context().as_ref().unwrap().request_for(target);
    assert_eq!(frame, encode_request(our_mac(), Ipv4Address::new(192, 168, 1, 5), target));
    let msg = decode(&frame).unwrap();
    assert_eq!(msg.operation, Operation::Request);
    assert_eq!(msg.target_ip, target);
    assert_eq!(&frame[0..6], &[0xff; 6]);
}

#[test]
fn table_records_and_replaces() {
    let a = Ipv4Address::new(10, 0, 0, 1);
    let b = Ipv4Address::new(10, 0, 0, 2);
    let m1 = MacAddr::new(1, 1, 1, 1, 1, 1);
    let m2 = MacAddr::new(2, 2, 2, 2, 2, 2);
    let m3 = MacAddr::new(3, 3, 3, 3, 3, 3);
    let mut t = ScanResult::new();
    assert!(t.is_empty());
    assert_eq!(t.get(a), None);
    assert!(t.record(a, m1));
    assert!(t.record(b, m2));
    assert!(t.record(a, m3));
    assert_eq!(t.len(), 2);
    assert!(!t.is_empty());
    assert_eq!(t.get(a), Some(m3));
    assert_eq!(t.get(b), Some(m2));
    assert_eq!(t.to_rows(), vec![HostEntry { ip: a, mac: m3 }, HostEntry { ip: b, mac: m2 }]);
    t.freeze();
    assert!(t.frozen());
    assert!(!t.record(b, m1));
    assert_eq!(t.get(b), Some(m2));
}

#[test]
fn record_all_keeps_the_last_of_each() {
    let a = Ipv4Address::new(10, 0, 0, 1);
    let b = Ipv4Address::new(10, 0, 0, 2);
    let m1 = MacAddr::new(1, 1, 1, 1, 1, 1);
    let m2 = MacAddr::new(2, 2, 2, 2, 2, 2);
    let m3 = MacAddr::new(3, 3, 3, 3, 3, 3);
    let replies = vec![
        HostEntry { ip: a, mac: m1 },
        HostEntry { ip: b, mac: m2 },
        HostEntry { ip: a, mac: m3 },
        HostEntry { ip: b, mac: m1 },
    ];
    let mut t = ScanResult::new();
    t.record_all(&replies);
    assert_eq!(t.to_rows(), vec![HostEntry { ip: a, mac: m3 }, HostEntry { ip: b, mac: m1 }]);
    t.freeze();
    t.record_all(&vec![HostEntry { ip: a, mac: m2 }]);
    assert_eq!(t.get(a), Some(m3));
}
