//! The messages sent over the signaling channel to set up a direct call.

use vstd::prelude::*;
use vstd::string::StringExecFns;
use crate::error::DeviceId;
use crate::protobuf::signaling as proto;
use crate::protobuf::signaling::{
    ConnectionParametersV4View, IceCandidateView, IceCandidateV3View, SocketAddrView,
    V4MessageView, opt_parameters, opt_text,
};
use crate::protobuf::wire::DecodeError;
use crate::util::text::{decimal, push_decimal};

verus! {

/// Whether a call carries audio only or video too.
#[derive(Clone, Copy, Debug, PartialEq, Eq, Structural)]
pub enum CallMediaType {
    Audio,
    Video,
}

impl CallMediaType {
    pub open spec fn text(self) -> Seq<char> {
        match self {
            CallMediaType::Audio => "Audio"@,
            CallMediaType::Video => "Video"@,
        }
    }

    /// The media type as displayed.
    pub fn to_display_string(&self) -> (r: String)
        ensures
            r@ == self.text(),
    {
        match self {
            CallMediaType::Audio => "Audio".to_owned(),
            CallMediaType::Video => "Video".to_owned(),
        }
    }
}

/// Versions of the signaling protocol.  V3 replaced DTLS with a
/// Diffie-Hellman exchange to derive SRTP keys and is still used for ICE
/// candidates; V4 replaces SDP with discrete fields.
#[derive(Clone, Copy, Debug, PartialEq, Eq, Structural)]
pub enum Version {
    V3,
    V4,
}

impl Version {
    pub open spec fn text(self) -> Seq<char> {
        match self {
            Version::V3 => "V3"@,
            Version::V4 => "V4"@,
        }
    }

    /// The version as displayed.
    pub fn to_display_string(&self) -> (r: String)
        ensures
            r@ == self.text(),
    {
        match self {
            Version::V3 => "V3".to_owned(),
            Version::V4 => "V4".to_owned(),
        }
    }
}

/// The kinds of signaling messages.
#[derive(Clone, Copy, Debug, PartialEq, Eq, Structural)]
pub enum MessageType {
    Offer,
    Answer,
    Ice,
    Hangup,
    Busy,
}

/// An offer's log line.
pub open spec fn offer_info_text(opaque_len: nat, call_media_type: CallMediaType) -> Seq<char> {
    "opaque.len="@ + decimal(opaque_len) + "\tproto.version="@ + Version::V4.text() + "\ttype="@
        + call_media_type.text()
}

/// An answer's log line.
pub open spec fn answer_info_text(opaque_len: nat) -> Seq<char> {
    "opaque.len="@ + decimal(opaque_len) + "\tproto.version="@ + Version::V4.text()
}

/// The caller sends this to several callees to start the call.
#[derive(Clone)]
pub struct Offer {
    pub call_media_type: CallMediaType,
    pub opaque: Vec<u8>,
    /// The decoded `opaque`, kept to avoid decoding it again.
    pub proto: proto::Offer,
}

impl Offer {
    /// The connection parameters the offer was decoded with.
    pub open spec fn parameters(&self) -> Option<ConnectionParametersV4View> {
        self.proto@.v4
    }


    /// An offer carrying `opaque`, which must decode as an offer message.
    pub fn new(call_media_type: CallMediaType, opaque: Vec<u8>) -> (r: Result<Offer, DecodeError>)
        ensures
            r is Err <==> proto::decode_v4_message(opaque@) is None,
            r matches Ok(o) ==> {
                &&& o.call_media_type == call_media_type
                &&& o.opaque@ == opaque@
                &&& proto::decode_v4_message(opaque@) == Some(V4MessageView { v4: o.parameters() })
            },
    {
        match proto::Offer::decode(opaque.as_slice()) {
            Ok(p) => Ok(Offer { call_media_type, opaque, proto: p }),
            Err(e) => Err(e),
        }
    }

    pub fn latest_version(&self) -> (r: Version)
        ensures
            r == Version::V4,
    {
        Version::V4
    }

    /// The offer whose opaque value encodes `v4`.
    pub fn from_v4(call_media_type: CallMediaType, v4: proto::ConnectionParametersV4) -> (r: Result<Offer, DecodeError>)
        ensures
            r matches Ok(o) && {
                &&& o.call_media_type == call_media_type
                &&& o.opaque@ == proto::v4_message_bytes(V4MessageView { v4: Some(v4@) })
                &&& o.parameters() == Some(v4@)
            },
    {
        let p = proto::Offer { v4: Some(v4) };
        let opaque = p.encode();
        let n = opaque.len();
        proof {
            proto::law_v4_message_roundtrip(p@);
        }
        Self::new(call_media_type, opaque)
    }

    /// The V4 connection parameters, if the offer has them.
    pub fn to_v4(&self) -> (r: Option<proto::ConnectionParametersV4>)
        ensures
            opt_parameters(r) == self.parameters(),
    {
        match &self.proto.v4 {
            Some(v4) => Some(v4.copy()),
            None => None,
        }
    }

    /// A line for the log.
    pub fn to_info_string(&self) -> (r: String)
        ensures
            r@ == offer_info_text(self.opaque@.len(), self.call_media_type),
    {
        let mut s = "opaque.len=".to_owned();
        push_decimal(&mut s, self.opaque.len() as u64);
        s.append("\tproto.version=");
        s.append(&self.latest_version().to_display_string());
        s.append("\ttype=");
        s.append(&self.call_media_type.to_display_string());
        s
    }
}

/// The callee sends this in response to an offer to set up the call.
#[derive(Clone)]
pub struct Answer {
    pub opaque: Vec<u8>,
    /// The decoded `opaque`, kept to avoid decoding it again.
    pub proto: proto::Answer,
}

impl Answer {
    /// The connection parameters the answer was decoded with.
    pub open spec fn parameters(&self) -> Option<ConnectionParametersV4View> {
        self.proto@.v4
    }


    /// An answer carrying `opaque`, which must decode as an answer message.
    pub fn new(opaque: Vec<u8>) -> (r: Result<Answer, DecodeError>)
        ensures
            r is Err <==> proto::decode_v4_message(opaque@) is None,
            r matches Ok(a) ==> {
                &&& a.opaque@ == opaque@
                &&& proto::decode_v4_message(opaque@) == Some(V4MessageView { v4: a.parameters() })
            },
    {
        match proto::Answer::decode(opaque.as_slice()) {
            Ok(p) => Ok(Answer { opaque, proto: p }),
            Err(e) => Err(e),
        }
    }

    pub fn latest_version(&self) -> (r: Version)
        ensures
            r == Version::V4,
    {
        Version::V4
    }

    /// The answer whose opaque value encodes `v4`.
    pub fn from_v4(v4: proto::ConnectionParametersV4) -> (r: Result<Answer, DecodeError>)
        ensures
            r matches Ok(a) && {
                &&& a.opaque@ == proto::v4_message_bytes(V4MessageView { v4: Some(v4@) })
                &&& a.parameters() == Some(v4@)
            },
    {
        let p = proto::Answer { v4: Some(v4) };
        let opaque = p.encode();
        let n = opaque.len();
        proof {
            proto::law_v4_message_roundtrip(p@);
        }
        Self::new(opaque)
    }

    /// The V4 connection parameters, if the answer has them.
    pub fn to_v4(&self) -> (r: Option<proto::ConnectionParametersV4>)
        ensures
            opt_parameters(r) == self.parameters(),
    {
        match &self.proto.v4 {
            Some(v4) => Some(v4.copy()),
            None => None,
        }
    }

    /// A line for the log.
    pub fn to_info_string(&self) -> (r: String)
        ensures
            r@ == answer_info_text(self.opaque@.len()),
    {
        let mut s = "opaque.len=".to_owned();
        push_decimal(&mut s, self.opaque.len() as u64);
        s.append("\tproto.version=");
        s.append(&self.latest_version().to_display_string());
        s
    }
}

/// Each side can send these at any time after the offer and answer.
#[derive(Clone)]
pub struct Ice {
    pub candidates: Vec<IceCandidate>,
}

/// An IP address: four bytes for IPv4, sixteen for IPv6.
#[derive(Clone, Copy, Debug, PartialEq, Eq, Hash)]
pub enum IpAddress {
    V4([u8; 4]),
    V6([u8; 16]),
}

impl IpAddress {
    pub open spec fn octets(self) -> Seq<u8> {
        match self {
            IpAddress::V4(a) => a@,
            IpAddress::V6(a) => a@,
        }
    }
}

/// An IP address and port.
#[derive(Clone, Copy, Debug, PartialEq, Eq, Hash)]
pub struct SocketAddress {
    pub ip: IpAddress,
    pub port: u16,
}

/// The ICE candidate line that stands in a removal: older clients fail on a
/// message without an added candidate, and this one parses but pairs with
/// nothing.
pub open spec fn placeholder_candidate() -> Seq<char> {
    "candidate:FAKE 1 tcp 0 127.0.0.1 0 typ host"@
}

/// The message that adds the candidate written as `sdp`.
pub open spec fn added_candidate(sdp: Seq<char>) -> IceCandidateView {
    IceCandidateView { added_v3: Some(IceCandidateV3View { sdp: Some(sdp) }), removed: None }
}

/// The message that removes the candidate at `addr`.
pub open spec fn removed_candidate(addr: SocketAddress) -> IceCandidateView {
    IceCandidateView {
        added_v3: Some(IceCandidateV3View { sdp: Some(placeholder_candidate()) }),
        removed: Some(SocketAddrView { ip: Some(addr.ip.octets()), port: Some(addr.port as u32) }),
    }
}

/// The SDP line of the candidate that an encoded message adds.
pub open spec fn candidate_sdp(opaque: Seq<u8>) -> Option<Seq<char>> {
    match proto::decode_ice_candidate_message(opaque) {
        Some(m) => match m.added_v3 {
            Some(x) => x.sdp,
            None => None,
        },
        None => None,
    }
}

/// The removed address of a decoded message, as stored there.
pub open spec fn removed_fields(opaque: Seq<u8>) -> Option<SocketAddrView> {
    match proto::decode_ice_candidate_message(opaque) {
        Some(m) => m.removed,
        None => None,
    }
}

/// Whether a stored address is a usable one: four or sixteen address bytes
/// and a port that fits in 16 bits.
pub open spec fn usable_address(a: SocketAddrView) -> bool {
    &&& a.ip matches Some(ip) && (ip.len() == 4 || ip.len() == 16)
    &&& a.port matches Some(port) && port <= u16::MAX
}

/// Each side sends these to set up an ICE connection and during the call.  It
/// stands for a candidate either added or removed.
#[derive(Clone)]
pub struct IceCandidate {
    pub opaque: Vec<u8>,
}

impl IceCandidate {
    pub fn new(opaque: Vec<u8>) -> (r: IceCandidate)
        ensures
            r.opaque@ == opaque@,
    {
        IceCandidate { opaque }
    }

    /// The candidate that adds the one written as `sdp`.  Candidates still use
    /// the V3 form.
    pub fn from_v3_sdp(sdp: String) -> (r: Result<IceCandidate, DecodeError>)
        ensures
            r matches Ok(c) && c.opaque@ == proto::ice_candidate_bytes(added_candidate(sdp@)),
    {
        let m = proto::IceCandidate {
            added_v3: Some(proto::IceCandidateV3 { sdp: Some(sdp) }),
            removed: None,
        };
        Ok(IceCandidate::new(m.encode()))
    }

    /// The candidate that removes the one at `removed_address`.
    pub fn from_removed_address(removed_address: SocketAddress) -> (r: Result<IceCandidate, DecodeError>)
        ensures
            r matches Ok(c) && c.opaque@ == proto::ice_candidate_bytes(removed_candidate(removed_address)),
    {
        let ip: Vec<u8> = match removed_address.ip {
            IpAddress::V4(a) => {
                let v = crate::util::bytes::slice_to_vec(&a, 0, 4);
                assert(v@ =~= a@);
                v
            },
            IpAddress::V6(a) => {
                let v = crate::util::bytes::slice_to_vec(&a, 0, 16);
                assert(v@ =~= a@);
                v
            },
        };
        assert(ip@ == removed_address.ip.octets());
        let m = proto::IceCandidate {
            added_v3: Some(proto::IceCandidateV3 { sdp: Some("candidate:FAKE 1 tcp 0 127.0.0.1 0 typ host".to_owned()) }),
            removed: Some(proto::SocketAddr { ip: Some(ip), port: Some(removed_address.port as u32) }),
        };
        assert(m@ == removed_candidate(removed_address));
        Ok(IceCandidate::new(m.encode()))
    }

    /// The SDP line of the added candidate, if the message decodes and has
    /// one.
    pub fn v3_sdp(&self) -> (r: Option<String>)
        ensures
            opt_text(r) == candidate_sdp(self.opaque@),
    {
        match proto::IceCandidate::decode(self.opaque.as_slice()) {
            Ok(m) => match m.added_v3 {
                Some(x) => x.sdp,
                None => None,
            },
            Err(_) => None,
        }
    }

    /// The removed address, if the message decodes and has a usable one.
    pub fn removed_address(&self) -> (r: Option<SocketAddress>)
        ensures
            r is Some <==> (removed_fields(self.opaque@) matches Some(a) && usable_address(a)),
            r matches Some(addr) ==> removed_fields(self.opaque@) == Some(
                SocketAddrView { ip: Some(addr.ip.octets()), port: Some(addr.port as u32) },
            ),
    {
        let removed = match proto::IceCandidate::decode(self.opaque.as_slice()) {
            Ok(m) => match m.removed {
                Some(x) => x,
                None => return None,
            },
            Err(_) => return None,
        };
        let ip = match &removed.ip {
            Some(ip) => {
                if ip.len() == 4 {
                    let a: [u8; 4] = [ip[0], ip[1], ip[2], ip[3]];
                    assert(a@ =~= ip@);
                    IpAddress::V4(a)
                } else if ip.len() == 16 {
                    let a: [u8; 16] = [
                        ip[0], ip[1], ip[2], ip[3], ip[4], ip[5], ip[6], ip[7],
                        ip[8], ip[9], ip[10], ip[11], ip[12], ip[13], ip[14], ip[15],
                    ];
                    assert(a@ =~= ip@);
                    IpAddress::V6(a)
                } else {
                    return None;
                }
            },
            None => return None,
        };
        let port = match removed.port {
            Some(port) => port,
            None => return None,
        };
        if port > 0xffff {
            return None;
        }
        Some(SocketAddress { ip, port: port as u16 })
    }

    /// A line for the log.
    pub fn to_info_string(&self) -> (r: String)
        ensures
            r@ == "opaque.len="@ + decimal(self.opaque@.len()),
    {
        let mut s = "opaque.len=".to_owned();
        push_decimal(&mut s, self.opaque.len() as u64);
        s
    }
}

/// A candidate added as `sdp` reads back as `sdp`.
pub proof fn law_candidate_sdp_roundtrip(sdp: Seq<char>)
    requires
        proto::ice_candidate_bytes(added_candidate(sdp)).len() < 0x1_0000_0000_0000_0000,
    ensures
        candidate_sdp(proto::ice_candidate_bytes(added_candidate(sdp))) == Some(sdp),
{
    proto::law_ice_candidate_roundtrip(added_candidate(sdp), proto::RECURSION_LIMIT as nat);
}

/// A removed address reads back as itself.
pub proof fn law_removed_address_roundtrip(addr: SocketAddress)
    requires
        proto::ice_candidate_bytes(removed_candidate(addr)).len() < 0x1_0000_0000_0000_0000,
    ensures
        removed_fields(proto::ice_candidate_bytes(removed_candidate(addr))) == Some(
            SocketAddrView { ip: Some(addr.ip.octets()), port: Some(addr.port as u32) },
        ),
        usable_address(removed_candidate(addr).removed.unwrap()),
{
    proto::law_ice_candidate_roundtrip(removed_candidate(addr), proto::RECURSION_LIMIT as nat);
}
/// Why a call ended, as sent to the other side.
#[derive(Clone, Copy, Debug, PartialEq, Eq, Hash, Structural)]
pub enum Hangup {
    /// On this device.
    Normal,
    AcceptedOnAnotherDevice(DeviceId),
    DeclinedOnAnotherDevice(DeviceId),
    BusyOnAnotherDevice(DeviceId),
    /// On another device, or on this one when filled in with its own id.
    NeedPermission(Option<DeviceId>),
}

/// The kind of a hangup, numbered as in the protocol buffers.
#[derive(Clone, Copy, Debug, PartialEq, Eq, Hash, Structural)]
pub enum HangupType {
    Normal,
    AcceptedOnAnotherDevice,
    DeclinedOnAnotherDevice,
    BusyOnAnotherDevice,
    NeedPermission,
}

impl HangupType {
    /// The protocol number of the kind.
    pub open spec fn number(self) -> i32 {
        match self {
            HangupType::Normal => 0,
            HangupType::AcceptedOnAnotherDevice => 1,
            HangupType::DeclinedOnAnotherDevice => 2,
            HangupType::BusyOnAnotherDevice => 3,
            HangupType::NeedPermission => 4,
        }
    }

    pub open spec fn name(self) -> Seq<char> {
        match self {
            HangupType::Normal => "Normal"@,
            HangupType::AcceptedOnAnotherDevice => "AcceptedOnAnotherDevice"@,
            HangupType::DeclinedOnAnotherDevice => "DeclinedOnAnotherDevice"@,
            HangupType::BusyOnAnotherDevice => "BusyOnAnotherDevice"@,
            HangupType::NeedPermission => "NeedPermission"@,
        }
    }

    /// The kind with the protocol number `value`.
    pub fn from_i32(value: i32) -> (r: Option<HangupType>)
        ensures
            r matches Some(t) ==> t.number() == value,
            r is None <==> !(0 <= value <= 4),
    {
        match value {
            0 => Some(HangupType::Normal),
            1 => Some(HangupType::AcceptedOnAnotherDevice),
            2 => Some(HangupType::DeclinedOnAnotherDevice),
            3 => Some(HangupType::BusyOnAnotherDevice),
            4 => Some(HangupType::NeedPermission),
            _ => None,
        }
    }

    /// The kind's protocol number.
    pub fn to_i32(&self) -> (r: i32)
        ensures
            r == self.number(),
    {
        match self {
            HangupType::Normal => 0,
            HangupType::AcceptedOnAnotherDevice => 1,
            HangupType::DeclinedOnAnotherDevice => 2,
            HangupType::BusyOnAnotherDevice => 3,
            HangupType::NeedPermission => 4,
        }
    }

    fn name_string(&self) -> (r: String)
        ensures
            r@ == self.name(),
    {
        match self {
            HangupType::Normal => "Normal".to_owned(),
            HangupType::AcceptedOnAnotherDevice => "AcceptedOnAnotherDevice".to_owned(),
            HangupType::DeclinedOnAnotherDevice => "DeclinedOnAnotherDevice".to_owned(),
            HangupType::BusyOnAnotherDevice => "BusyOnAnotherDevice".to_owned(),
            HangupType::NeedPermission => "NeedPermission".to_owned(),
        }
    }
}

impl Hangup {
    /// The kind of the hangup and the device it names, if any.
    pub open spec fn type_and_device_id(self) -> (HangupType, Option<DeviceId>) {
        match self {
            Hangup::Normal => (HangupType::Normal, None),
            Hangup::AcceptedOnAnotherDevice(d) => (HangupType::AcceptedOnAnotherDevice, Some(d)),
            Hangup::DeclinedOnAnotherDevice(d) => (HangupType::DeclinedOnAnotherDevice, Some(d)),
            Hangup::BusyOnAnotherDevice(d) => (HangupType::BusyOnAnotherDevice, Some(d)),
            Hangup::NeedPermission(d) => (HangupType::NeedPermission, d),
        }
    }

    /// The hangup of kind `typ` naming `device_id`; a normal hangup names no
    /// device, and one for permission always names one.
    pub open spec fn of_type_and_device_id(typ: HangupType, device_id: DeviceId) -> Hangup {
        match typ {
            HangupType::Normal => Hangup::Normal,
            HangupType::AcceptedOnAnotherDevice => Hangup::AcceptedOnAnotherDevice(device_id),
            HangupType::DeclinedOnAnotherDevice => Hangup::DeclinedOnAnotherDevice(device_id),
            HangupType::BusyOnAnotherDevice => Hangup::BusyOnAnotherDevice(device_id),
            HangupType::NeedPermission => Hangup::NeedPermission(Some(device_id)),
        }
    }

    pub fn to_type_and_device_id(&self) -> (r: (HangupType, Option<DeviceId>))
        ensures
            r == self.type_and_device_id(),
    {
        match self {
            Hangup::Normal => (HangupType::Normal, None),
            Hangup::AcceptedOnAnotherDevice(d) => (HangupType::AcceptedOnAnotherDevice, Some(*d)),
            Hangup::DeclinedOnAnotherDevice(d) => (HangupType::DeclinedOnAnotherDevice, Some(*d)),
            Hangup::BusyOnAnotherDevice(d) => (HangupType::BusyOnAnotherDevice, Some(*d)),
            Hangup::NeedPermission(d) => (HangupType::NeedPermission, *d),
        }
    }

    /// Receivers get device ids of 0 rather than none for a permission
    /// hangup, so one is always assumed set there.
    pub fn from_type_and_device_id(typ: HangupType, device_id: DeviceId) -> (r: Hangup)
        ensures
            r == Hangup::of_type_and_device_id(typ, device_id),
    {
        match typ {
            HangupType::Normal => Hangup::Normal,
            HangupType::AcceptedOnAnotherDevice => Hangup::AcceptedOnAnotherDevice(device_id),
            HangupType::DeclinedOnAnotherDevice => Hangup::DeclinedOnAnotherDevice(device_id),
            HangupType::BusyOnAnotherDevice => Hangup::BusyOnAnotherDevice(device_id),
            HangupType::NeedPermission => Hangup::NeedPermission(Some(device_id)),
        }
    }

    /// The hangup as displayed: its kind, a slash, and the device id or
    /// `None`.
    pub open spec fn text(self) -> Seq<char> {
        let (typ, device_id) = self.type_and_device_id();
        typ.name() + "/"@ + match device_id {
            Some(d) => decimal(d as nat),
            None => "None"@,
        }
    }

    /// The hangup as debugged: its variant and, in brackets, what it holds.
    pub open spec fn debug_text(self) -> Seq<char> {
        let (typ, device_id) = self.type_and_device_id();
        match self {
            Hangup::Normal => typ.name(),
            Hangup::NeedPermission(Some(d)) => typ.name() + "(Some("@ + decimal(d as nat) + "))"@,
            Hangup::NeedPermission(None) => typ.name() + "(None)"@,
            _ => typ.name() + "("@ + decimal(device_id.unwrap() as nat) + ")"@,
        }
    }

    /// The hangup as displayed.
    pub fn to_display_string(&self) -> (r: String)
        ensures
            r@ == self.text(),
    {
        let (typ, device_id) = self.to_type_and_device_id();
        let mut s = typ.name_string();
        s.append("/");
        match device_id {
            Some(d) => push_decimal(&mut s, d as u64),
            None => s.append("None"),
        }
        s
    }

    /// The hangup as debugged.
    pub fn to_debug_string(&self) -> (r: String)
        ensures
            r@ == self.debug_text(),
    {
        let (typ, device_id) = self.to_type_and_device_id();
        let mut s = typ.name_string();
        match self {
            Hangup::Normal => {},
            Hangup::NeedPermission(Some(d)) => {
                s.append("(Some(");
                push_decimal(&mut s, *d as u64);
                s.append("))");
            },
            Hangup::NeedPermission(None) => {
                s.append("(None)");
            },
            Hangup::AcceptedOnAnotherDevice(d) | Hangup::DeclinedOnAnotherDevice(d) | Hangup::BusyOnAnotherDevice(d) => {
                s.append("(");
                push_decimal(&mut s, *d as u64);
                s.append(")");
            },
        }
        s
    }
}

/// A hangup that names a device, or a normal one, comes back from its kind
/// and device id; a normal hangup comes back whatever device id is given.
pub proof fn law_hangup_type_and_device_id_roundtrip(h: Hangup, other: DeviceId)
    requires
        h != Hangup::NeedPermission(None),
    ensures
        Hangup::of_type_and_device_id(
            h.type_and_device_id().0,
            match h.type_and_device_id().1 {
                Some(d) => d,
                None => other,
            },
        ) == h,
{
}

/// A signaling message.
#[derive(Clone)]
pub enum Message {
    Offer(Offer),
    Answer(Answer),
    Ice(Ice),
    Hangup(Hangup),
    Busy,
}

/// The kind of a message.
pub open spec fn message_type(m: Message) -> MessageType {
    match m {
        Message::Offer(_) => MessageType::Offer,
        Message::Answer(_) => MessageType::Answer,
        Message::Ice(_) => MessageType::Ice,
        Message::Hangup(_) => MessageType::Hangup,
        Message::Busy => MessageType::Busy,
    }
}

/// A message as displayed: in brackets, its kind and, for an offer, the media
/// type, for a hangup, the hangup.
pub open spec fn message_text(m: Message) -> Seq<char> {
    "("@ + match m {
        Message::Offer(o) => "Offer("@ + o.call_media_type.text() + ", ...)"@,
        Message::Answer(_) => "Answer(...)"@,
        Message::Ice(_) => "Ice(...)"@,
        Message::Hangup(h) => "Hangup("@ + h.debug_text() + ")"@,
        Message::Busy => "Busy"@,
    } + ")"@
}

impl Message {
    pub fn typ(&self) -> (r: MessageType)
        ensures
            r == message_type(*self),
    {
        match self {
            Message::Offer(_) => MessageType::Offer,
            Message::Answer(_) => MessageType::Answer,
            Message::Ice(_) => MessageType::Ice,
            Message::Hangup(_) => MessageType::Hangup,
            Message::Busy => MessageType::Busy,
        }
    }

    /// The message as displayed.
    pub fn to_display_string(&self) -> (r: String)
        ensures
            r@ == message_text(*self),
    {
        let mut s = "(".to_owned();
        match self {
            Message::Offer(o) => {
                s.append("Offer(");
                s.append(&o.call_media_type.to_display_string());
                s.append(", ...)");
            },
            Message::Answer(_) => s.append("Answer(...)"),
            Message::Ice(_) => s.append("Ice(...)"),
            Message::Hangup(h) => {
                s.append("Hangup(");
                s.append(&h.to_debug_string());
                s.append(")");
            },
            Message::Busy => s.append("Busy"),
        }
        s.append(")");
        s
    }
}

/// An answer with what sending it needs; answers go to one device.
pub struct SendAnswer {
    pub answer: Answer,
    pub receiver_device_id: DeviceId,
}

/// An ICE message with what sending it needs: a device for a callee, none for
/// a caller, who broadcasts.
#[derive(Clone)]
pub struct SendIce {
    pub ice: Ice,
    pub receiver_device_id: Option<DeviceId>,
}

/// A hangup with what sending it needs; hangups go to all devices.
pub struct SendHangup {
    pub hangup: Hangup,
}

/// An offer with what receiving it tells.
pub struct ReceivedOffer {
    pub offer: Offer,
    /// The approximate age of the offer.
    pub age: std::time::Duration,
    pub sender_device_id: DeviceId,
    pub receiver_device_id: DeviceId,
    /// Whether the receiving device is the primary device rather than a
    /// linked one.
    pub receiver_device_is_primary: bool,
    pub sender_identity_key: Vec<u8>,
    pub receiver_identity_key: Vec<u8>,
}

/// An answer with what receiving it tells.
pub struct ReceivedAnswer {
    pub answer: Answer,
    pub sender_device_id: DeviceId,
    pub sender_identity_key: Vec<u8>,
    pub receiver_identity_key: Vec<u8>,
}

/// An ICE message with what receiving it tells.
pub struct ReceivedIce {
    pub ice: Ice,
    pub sender_device_id: DeviceId,
}

/// A hangup with what receiving it tells.
#[derive(Clone, Copy, Debug)]
pub struct ReceivedHangup {
    pub hangup: Hangup,
    pub sender_device_id: DeviceId,
}

/// A busy message with what receiving it tells.
pub struct ReceivedBusy {
    pub sender_device_id: DeviceId,
}

/// What the sender says of its media.
#[derive(Clone, Copy, Debug, PartialEq, Eq, Hash, Default, Structural)]
pub struct SenderStatus {
    pub video_enabled: Option<bool>,
    pub sharing_screen: Option<bool>,
}
/// The hangup kinds carry the protocol's fixed numbers: Normal 0,
/// AcceptedOnAnotherDevice 1, DeclinedOnAnotherDevice 2,
/// BusyOnAnotherDevice 3, NeedPermission 4; no two kinds share a number.
pub proof fn law_hangup_type_protocol_numbers(h: HangupType, g: HangupType)
    ensures
        h.number() == 0 <==> h == HangupType::Normal,
        h.number() == 1 <==> h == HangupType::AcceptedOnAnotherDevice,
        h.number() == 2 <==> h == HangupType::DeclinedOnAnotherDevice,
        h.number() == 3 <==> h == HangupType::BusyOnAnotherDevice,
        h.number() == 4 <==> h == HangupType::NeedPermission,
        h.number() == g.number() ==> h == g,
{
}

} // verus!
