//! The Ethernet II + ARP wire format: 14 bytes of Ethernet header followed
//! by 28 bytes of ARP payload.

use vstd::prelude::*;
use crate::addr::{Ipv4Address, MacAddr};

verus! {

/// Length of an Ethernet header followed by an ARP payload for IPv4.
pub const FRAME_LEN: usize = 42;

/// Ethertype of ARP.
pub const ETHERTYPE_ARP: u16 = 0x0806;

/// Ethertype of IPv4, which is also ARP's protocol type for it.
pub const ETHERTYPE_IPV4: u16 = 0x0800;

/// ARP's hardware type for Ethernet.
pub const HARDWARE_ETHERNET: u16 = 1;

/// What an ARP message asks or tells.
#[derive(Clone, Copy, Debug, PartialEq, Eq, Structural)]
pub enum Operation {
    Request,
    Reply,
}

impl Operation {
    /// The operation's number on the wire.
    pub open spec fn code(self) -> u16 {
        match self {
            Operation::Request => 1,
            Operation::Reply => 2,
        }
    }

    pub fn to_code(&self) -> (r: u16)
        ensures
            r == self.code(),
    {
        match self {
            Operation::Request => 1,
            Operation::Reply => 2,
        }
    }
}

/// One ARP message for IPv4 over Ethernet.
#[derive(Clone, Copy, Debug, PartialEq, Eq, Structural)]
pub struct ArpMessage {
    pub hardware_type: u16,
    pub protocol_type: u16,
    pub operation: Operation,
    pub sender_hw: MacAddr,
    pub sender_ip: Ipv4Address,
    pub target_hw: MacAddr,
    pub target_ip: Ipv4Address,
}

/// Why a frame was not decoded.
#[derive(Clone, Copy, Debug, PartialEq, Eq, Structural)]
pub enum DecodeError {
    /// Too short, or its ARP header is not that of IPv4 over Ethernet.
    MalformedFrame,
    /// Long enough, but its ethertype is not ARP.
    NotArp,
}

/// The two bytes of `x`, most significant first.
pub open spec fn be16(x: u16) -> Seq<u8> {
    seq![(x / 0x100) as u8, (x % 0x100) as u8]
}

/// The 16-bit number that stands at `i` in `b`, most significant byte first.
pub open spec fn u16_at(b: Seq<u8>, i: int) -> u16 {
    (b[i] * 0x100 + b[i + 1]) as u16
}

/// The hardware address that stands at `i` in `b`.
pub open spec fn mac_at(b: Seq<u8>, i: int) -> MacAddr {
    MacAddr(b[i], b[i + 1], b[i + 2], b[i + 3], b[i + 4], b[i + 5])
}

/// The IPv4 address that stands at `i` in `b`.
pub open spec fn ip_at(b: Seq<u8>, i: int) -> Ipv4Address {
    Ipv4Address::spec_new(b[i], b[i + 1], b[i + 2], b[i + 3])
}

impl ArpMessage {
    /// A message of IPv4 over Ethernet.
    pub open spec fn well_formed(self) -> bool {
        self.hardware_type == HARDWARE_ETHERNET && self.protocol_type == ETHERTYPE_IPV4
    }

    /// The request by which `source_mac` at `source_ip` asks who has `target_ip`.
    pub open spec fn request(source_mac: MacAddr, source_ip: Ipv4Address, target_ip: Ipv4Address)
        -> ArpMessage {
        ArpMessage {
            hardware_type: HARDWARE_ETHERNET,
            protocol_type: ETHERTYPE_IPV4,
            operation: Operation::Request,
            sender_hw: source_mac,
            sender_ip: source_ip,
            target_hw: MacAddr::spec_zero(),
            target_ip: target_ip,
        }
    }

    /// The 28 bytes of the message on the wire.
    pub open spec fn payload(self) -> Seq<u8> {
        be16(self.hardware_type) + be16(self.protocol_type) + seq![6u8, 4u8] + be16(
            self.operation.code(),
        ) + self.sender_hw.octets() + self.sender_ip.octets() + self.target_hw.octets()
            + self.target_ip.octets()
    }
}

/// The Ethernet frame that carries `msg` from `src` to `dst`.
pub open spec fn frame_bytes(dst: MacAddr, src: MacAddr, msg: ArpMessage) -> Seq<u8> {
    dst.octets() + src.octets() + be16(ETHERTYPE_ARP) + msg.payload()
}

/// The frame that asks everyone on the link who has `target_ip`.
pub open spec fn request_frame(source_mac: MacAddr, source_ip: Ipv4Address, target_ip: Ipv4Address)
    -> Seq<u8> {
    frame_bytes(
        MacAddr::spec_broadcast(),
        source_mac,
        ArpMessage::request(source_mac, source_ip, target_ip),
    )
}

/// What a received frame holds.
pub open spec fn parse(b: Seq<u8>) -> Result<ArpMessage, DecodeError> {
    if b.len() < FRAME_LEN {
        Err(DecodeError::MalformedFrame)
    } else if u16_at(b, 12) != ETHERTYPE_ARP {
        Err(DecodeError::NotArp)
    } else if u16_at(b, 14) != HARDWARE_ETHERNET || u16_at(b, 16) != ETHERTYPE_IPV4 || b[18] != 6
        || b[19] != 4 || (u16_at(b, 20) != 1 && u16_at(b, 20) != 2) {
        Err(DecodeError::MalformedFrame)
    } else {
        Ok(
            ArpMessage {
                hardware_type: HARDWARE_ETHERNET,
                protocol_type: ETHERTYPE_IPV4,
                operation: if u16_at(b, 20) == 1 {
                    Operation::Request
                } else {
                    Operation::Reply
                },
                sender_hw: mac_at(b, 22),
                sender_ip: ip_at(b, 28),
                target_hw: mac_at(b, 32),
                target_ip: ip_at(b, 38),
            },
        )
    }
}

/// Length of the Ethernet header: two hardware addresses and the ethertype.
pub const ETHERNET_HEADER_LEN: usize = 14;

/// Length of an ARP payload for IPv4 over Ethernet.
pub const ARP_LEN: usize = 28;

/// An Ethernet II frame as contracts see it.
pub struct FrameModel {
    pub destination: MacAddr,
    pub source: MacAddr,
    pub ethertype: u16,
    pub payload: Seq<u8>,
}

/// An Ethernet II frame: header fields and the bytes that it carries.
#[derive(Debug)]
pub struct EthernetFrame {
    pub destination: MacAddr,
    pub source: MacAddr,
    pub ethertype: u16,
    pub payload: Vec<u8>,
}

impl View for EthernetFrame {
    type V = FrameModel;

    open spec fn view(&self) -> FrameModel {
        FrameModel {
            destination: self.destination,
            source: self.source,
            ethertype: self.ethertype,
            payload: self.payload@,
        }
    }
}

/// The bytes of a frame: header, then payload.
pub open spec fn join(f: FrameModel) -> Seq<u8> {
    f.destination.octets() + f.source.octets() + be16(f.ethertype) + f.payload
}

/// The frame that the bytes hold, if they hold a whole header.
pub open spec fn split(b: Seq<u8>) -> Option<FrameModel> {
    if b.len() < ETHERNET_HEADER_LEN {
        None
    } else {
        Some(
            FrameModel {
                destination: mac_at(b, 0),
                source: mac_at(b, 6),
                ethertype: u16_at(b, 12),
                payload: b.skip(14),
            },
        )
    }
}

/// What an ARP payload holds.
pub open spec fn parse_arp(p: Seq<u8>) -> Result<ArpMessage, DecodeError> {
    if p.len() < ARP_LEN || u16_at(p, 0) != HARDWARE_ETHERNET || u16_at(p, 2) != ETHERTYPE_IPV4
        || p[4] != 6 || p[5] != 4 || (u16_at(p, 6) != 1 && u16_at(p, 6) != 2) {
        Err(DecodeError::MalformedFrame)
    } else {
        Ok(
            ArpMessage {
                hardware_type: HARDWARE_ETHERNET,
                protocol_type: ETHERTYPE_IPV4,
                operation: if u16_at(p, 6) == 1 {
                    Operation::Request
                } else {
                    Operation::Reply
                },
                sender_hw: mac_at(p, 8),
                sender_ip: ip_at(p, 14),
                target_hw: mac_at(p, 18),
                target_ip: ip_at(p, 24),
            },
        )
    }
}

/// Taking a frame apart after putting it together gives the frame back.
pub proof fn lemma_split_join(f: FrameModel)
    ensures
        split(join(f)) == Some(f),
{
    let b = join(f);
    assert(b.skip(14) =~= f.payload);
    assert(mac_at(b, 0) == f.destination);
    assert(mac_at(b, 6) == f.source);
    assert(u16_at(b, 12) == f.ethertype);
}

/// Reading a whole frame is reading its Ethernet header, then its ARP
/// payload: a frame of 42 bytes or more with another ethertype is not ARP,
/// and one with ARP's ethertype holds what its payload holds.
pub proof fn lemma_parse_by_layers(b: Seq<u8>)
    requires
        b.len() >= FRAME_LEN,
    ensures
        split(b) is Some,
        parse(b) == if split(b).unwrap().ethertype != ETHERTYPE_ARP {
            Err::<ArpMessage, DecodeError>(DecodeError::NotArp)
        } else {
            parse_arp(split(b).unwrap().payload)
        },
{
    let p = b.skip(14);
    assert(p.len() == b.len() - 14);
    assert(forall|i: int| 0 <= i < p.len() ==> p[i] == b[i + 14]);
}

/// A request frame is the Ethernet frame from the asking interface to
/// everyone, with ARP's ethertype, around the request's payload.
pub proof fn lemma_request_frame_layers(
    source_mac: MacAddr,
    source_ip: Ipv4Address,
    target_ip: Ipv4Address,
)
    ensures
        request_frame(source_mac, source_ip, target_ip) == join(
            FrameModel {
                destination: MacAddr::spec_broadcast(),
                source: source_mac,
                ethertype: ETHERTYPE_ARP,
                payload: ArpMessage::request(source_mac, source_ip, target_ip).payload(),
            },
        ),
{
}

/// Every request frame goes to the broadcast address, comes from the asking
/// interface, has ARP's ethertype, and carries the request with an all-zero
/// target hardware address.
pub proof fn lemma_request_frame_is_broadcast_arp(
    source_mac: MacAddr,
    source_ip: Ipv4Address,
    target_ip: Ipv4Address,
)
    ensures
        split(request_frame(source_mac, source_ip, target_ip)) matches Some(f) && f.destination
            == MacAddr::spec_broadcast() && f.source == source_mac && f.ethertype == ETHERTYPE_ARP
            && parse_arp(f.payload) == Ok::<ArpMessage, DecodeError>(
            ArpMessage::request(source_mac, source_ip, target_ip),
        ),
        ArpMessage::request(source_mac, source_ip, target_ip).target_hw == MacAddr::spec_zero(),
{
    let msg = ArpMessage::request(source_mac, source_ip, target_ip);
    let f = FrameModel {
        destination: MacAddr::spec_broadcast(),
        source: source_mac,
        ethertype: ETHERTYPE_ARP,
        payload: msg.payload(),
    };
    let b = request_frame(source_mac, source_ip, target_ip);
    lemma_request_frame_layers(source_mac, source_ip, target_ip);
    lemma_split_join(f);
    lemma_frame_len(MacAddr::spec_broadcast(), source_mac, msg);
    lemma_parse_by_layers(b);
    lemma_request_round_trip(source_mac, source_ip, target_ip);
}

impl EthernetFrame {
    /// Writes the frame out.
    pub fn to_bytes(&self) -> (out: Vec<u8>)
        ensures
            out@ == join(self@),
    {
        let mut out: Vec<u8> = Vec::new();
        put_mac(&mut out, self.destination);
        put_mac(&mut out, self.source);
        put_u16(&mut out, self.ethertype);
        let ghost header = out@;
        let mut i: usize = 0;
        while i < self.payload.len()
            invariant
                i <= self.payload@.len(),
                out@ == header + self.payload@.take(i as int),
            decreases self.payload@.len() - i,
        {
            out.push(self.payload[i]);
            proof {
                assert(out@ =~= header + self.payload@.take(i + 1));
            }
            i = i + 1;
        }
        proof {
            assert(self.payload@.take(self.payload@.len() as int) =~= self.payload@);
        }
        out
    }

    /// Reads a frame: none where the bytes do not hold a whole header.
    pub fn from_bytes(bytes: &[u8]) -> (r: Option<EthernetFrame>)
        ensures
            match r {
                Some(f) => split(bytes@) == Some(f@),
                None => split(bytes@).is_none(),
            },
    {
        if bytes.len() < ETHERNET_HEADER_LEN {
            return None;
        }
        let mut payload: Vec<u8> = Vec::new();
        let mut i: usize = ETHERNET_HEADER_LEN;
        while i < bytes.len()
            invariant
                14 <= i <= bytes@.len(),
                payload@ == bytes@.subrange(14, i as int),
            decreases bytes@.len() - i,
        {
            payload.push(bytes[i]);
            proof {
                assert(payload@ =~= bytes@.subrange(14, i + 1));
            }
            i = i + 1;
        }
        proof {
            assert(bytes@.subrange(14, bytes@.len() as int) =~= bytes@.skip(14));
        }
        Some(
            EthernetFrame {
                destination: read_mac(bytes, 0),
                source: read_mac(bytes, 6),
                ethertype: read_u16(bytes, 12),
                payload,
            },
        )
    }
}

/// Reads an ARP payload.
pub fn decode_arp(payload: &[u8]) -> (r: Result<ArpMessage, DecodeError>)
    ensures
        r == parse_arp(payload@),
{
    if payload.len() < ARP_LEN {
        return Err(DecodeError::MalformedFrame);
    }
    let op: u16 = read_u16(payload, 6);
    if read_u16(payload, 0) != HARDWARE_ETHERNET || read_u16(payload, 2) != ETHERTYPE_IPV4
        || payload[4] != 6 || payload[5] != 4 || (op != 1 && op != 2) {
        return Err(DecodeError::MalformedFrame);
    }
    Ok(
        ArpMessage {
            hardware_type: HARDWARE_ETHERNET,
            protocol_type: ETHERTYPE_IPV4,
            operation: if op == 1 {
                Operation::Request
            } else {
                Operation::Reply
            },
            sender_hw: read_mac(payload, 8),
            sender_ip: read_ip(payload, 14),
            target_hw: read_mac(payload, 18),
            target_ip: read_ip(payload, 24),
        },
    )
}

fn put_u16(buf: &mut Vec<u8>, x: u16)
    ensures
        final(buf)@ == old(buf)@ + be16(x),
{
    buf.push((x / 0x100) as u8);
    buf.push((x % 0x100) as u8);
    proof {
        assert(buf@ =~= old(buf)@ + be16(x));
    }
}

fn put_mac(buf: &mut Vec<u8>, mac: MacAddr)
    ensures
        final(buf)@ == old(buf)@ + mac.octets(),
{
    buf.push(mac.0);
    buf.push(mac.1);
    buf.push(mac.2);
    buf.push(mac.3);
    buf.push(mac.4);
    buf.push(mac.5);
    proof {
        assert(buf@ =~= old(buf)@ + mac.octets());
    }
}

fn put_ip(buf: &mut Vec<u8>, ip: Ipv4Address)
    ensures
        final(buf)@ == old(buf)@ + ip.octets(),
{
    buf.push((ip.0 / 0x100_0000) as u8);
    buf.push((ip.0 / 0x1_0000 % 0x100) as u8);
    buf.push((ip.0 / 0x100 % 0x100) as u8);
    buf.push((ip.0 % 0x100) as u8);
    proof {
        assert(buf@ =~= old(buf)@ + ip.octets());
    }
}

/// Writes `msg` into an Ethernet frame from `src` to `dst`.
pub fn encode(dst: MacAddr, src: MacAddr, msg: &ArpMessage) -> (out: Vec<u8>)
    ensures
        out@ == frame_bytes(dst, src, *msg),
        out@.len() == FRAME_LEN,
{
    let mut out: Vec<u8> = Vec::new();
    put_mac(&mut out, dst);
    put_mac(&mut out, src);
    put_u16(&mut out, ETHERTYPE_ARP);
    put_u16(&mut out, msg.hardware_type);
    put_u16(&mut out, msg.protocol_type);
    out.push(6);
    out.push(4);
    put_u16(&mut out, msg.operation.to_code());
    put_mac(&mut out, msg.sender_hw);
    put_ip(&mut out, msg.sender_ip);
    put_mac(&mut out, msg.target_hw);
    put_ip(&mut out, msg.target_ip);
    proof {
        assert(out@ =~= frame_bytes(dst, src, *msg));
    }
    out
}

/// Builds the broadcast frame that asks who has `target_ip`.
pub fn encode_request(source_mac: MacAddr, source_ip: Ipv4Address, target_ip: Ipv4Address) -> (out:
    Vec<u8>)
    ensures
        out@ == request_frame(source_mac, source_ip, target_ip),
        out@.len() == FRAME_LEN,
{
    let msg = ArpMessage {
        hardware_type: HARDWARE_ETHERNET,
        protocol_type: ETHERTYPE_IPV4,
        operation: Operation::Request,
        sender_hw: source_mac,
        sender_ip: source_ip,
        target_hw: MacAddr::zero(),
        target_ip: target_ip,
    };
    encode(MacAddr::broadcast(), source_mac, &msg)
}

fn read_u16(b: &[u8], i: usize) -> (r: u16)
    requires
        i + 1 < b@.len(),
    ensures
        r == u16_at(b@, i as int),
{
    b[i] as u16 * 0x100 + b[i + 1] as u16
}

fn read_mac(b: &[u8], i: usize) -> (r: MacAddr)
    requires
        i + 5 < b@.len(),
    ensures
        r == mac_at(b@, i as int),
{
    MacAddr(b[i], b[i + 1], b[i + 2], b[i + 3], b[i + 4], b[i + 5])
}

fn read_ip(b: &[u8], i: usize) -> (r: Ipv4Address)
    requires
        i + 3 < b@.len(),
    ensures
        r == ip_at(b@, i as int),
{
    Ipv4Address::new(b[i], b[i + 1], b[i + 2], b[i + 3])
}

/// Reads a received frame: an ARP message, or the reason why it is none.
pub fn decode(bytes: &[u8]) -> (r: Result<ArpMessage, DecodeError>)
    ensures
        r == parse(bytes@),
        bytes@.len() < FRAME_LEN ==> r == Err::<ArpMessage, DecodeError>(
            DecodeError::MalformedFrame,
        ),
{
    if bytes.len() < FRAME_LEN {
        return Err(DecodeError::MalformedFrame);
    }
    if read_u16(bytes, 12) != ETHERTYPE_ARP {
        return Err(DecodeError::NotArp);
    }
    let op: u16 = read_u16(bytes, 20);
    if read_u16(bytes, 14) != HARDWARE_ETHERNET || read_u16(bytes, 16) != ETHERTYPE_IPV4
        || bytes[18] != 6 || bytes[19] != 4 || (op != 1 && op != 2) {
        return Err(DecodeError::MalformedFrame);
    }
    Ok(
        ArpMessage {
            hardware_type: HARDWARE_ETHERNET,
            protocol_type: ETHERTYPE_IPV4,
            operation: if op == 1 {
                Operation::Request
            } else {
                Operation::Reply
            },
            sender_hw: read_mac(bytes, 22),
            sender_ip: read_ip(bytes, 28),
            target_hw: read_mac(bytes, 32),
            target_ip: read_ip(bytes, 38),
        },
    )
}

/// Every frame is 42 bytes long.
pub proof fn lemma_frame_len(dst: MacAddr, src: MacAddr, msg: ArpMessage)
    ensures
        frame_bytes(dst, src, msg).len() == FRAME_LEN,
{
}

/// Round trip: a well-formed message that was written into a frame is read
/// back from it unchanged.
pub proof fn lemma_decode_encode(dst: MacAddr, src: MacAddr, msg: ArpMessage)
    requires
        msg.well_formed(),
    ensures
        parse(frame_bytes(dst, src, msg)) == Ok::<ArpMessage, DecodeError>(msg),
{
    let b = frame_bytes(dst, src, msg);
    let layout = Seq::new(
        42,
        |i: int|
            if i < 6 {
                dst.octets()[i]
            } else if i < 12 {
                src.octets()[i - 6]
            } else if i < 14 {
                be16(ETHERTYPE_ARP)[i - 12]
            } else if i < 16 {
                be16(msg.hardware_type)[i - 14]
            } else if i < 18 {
                be16(msg.protocol_type)[i - 16]
            } else if i == 18 {
                6u8
            } else if i == 19 {
                4u8
            } else if i < 22 {
                be16(msg.operation.code())[i - 20]
            } else if i < 28 {
                msg.sender_hw.octets()[i - 22]
            } else if i < 32 {
                msg.sender_ip.octets()[i - 28]
            } else if i < 38 {
                msg.target_hw.octets()[i - 32]
            } else {
                msg.target_ip.octets()[i - 38]
            },
    );
    assert(b =~= layout);
    msg.sender_ip.lemma_new_of_octets();
    msg.target_ip.lemma_new_of_octets();
    assert(mac_at(b, 22) == msg.sender_hw);
    assert(mac_at(b, 32) == msg.target_hw);
    assert(ip_at(b, 28) == msg.sender_ip);
    assert(ip_at(b, 38) == msg.target_ip);
}

/// Round trip of a request: decoding the frame built for
/// (source MAC, source IP, target IP) yields a request with those fields.
pub proof fn lemma_request_round_trip(
    source_mac: MacAddr,
    source_ip: Ipv4Address,
    target_ip: Ipv4Address,
)
    ensures
        parse(request_frame(source_mac, source_ip, target_ip)) == Ok::<ArpMessage, DecodeError>(
            ArpMessage::request(source_mac, source_ip, target_ip),
        ),
        ArpMessage::request(source_mac, source_ip, target_ip).operation == Operation::Request,
        ArpMessage::request(source_mac, source_ip, target_ip).sender_hw == source_mac,
        ArpMessage::request(source_mac, source_ip, target_ip).sender_ip == source_ip,
        ArpMessage::request(source_mac, source_ip, target_ip).target_ip == target_ip,
{
    lemma_decode_encode(
        MacAddr::spec_broadcast(),
        source_mac,
        ArpMessage::request(source_mac, source_ip, target_ip),
    );
}

/// A frame shorter than 42 bytes is malformed, whatever it holds.
pub proof fn lemma_short_frame_malformed(b: Seq<u8>)
    requires
        b.len() < FRAME_LEN,
    ensures
        parse(b) == Err::<ArpMessage, DecodeError>(DecodeError::MalformedFrame),
{
}

} // verus!
