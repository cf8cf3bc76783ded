//! The signaling messages' schema: how their fields are numbered and typed.
//! Decoding follows the usual protocol buffer rules: unknown fields are
//! skipped, a repeated scalar field keeps its last value, a repeated
//! embedded message is merged into the earlier one, and a repeated message
//! field collects every occurrence.

use vstd::prelude::*;
use vstd::utf8::*;
use crate::protobuf::wire::{
    FieldView, ValueView, WireField, WireValue, field_views, fields_bytes, fold_fields,
    merge_message, message_fields, bytes_value, string_value, varint_value, read_fields,
    write_fields, lemma_fold_fields_at, lemma_fold_fields_concat, lemma_fold_fields_single, lemma_string_value_roundtrip,
    lemma_short_fields_writable, law_message_fields_roundtrip, writable,
};
use crate::util::bytes::copy_bytes;
use crate::util::text::{string_bytes, string_from_utf8};

verus! {

/// How deep messages may nest when a buffer is decoded.
pub const RECURSION_LIMIT: u32 = 100;

/// The strings of an optional string.
pub open spec fn opt_text(s: Option<String>) -> Option<Seq<char>> {
    match s {
        Some(s) => Some(s@),
        None => None,
    }
}

/// The bytes of an optional byte vector.
pub open spec fn opt_bytes(b: Option<Vec<u8>>) -> Option<Seq<u8>> {
    match b {
        Some(b) => Some(b@),
        None => None,
    }
}

fn copy_text(s: &Option<String>) -> (r: Option<String>)
    ensures
        opt_text(r) == opt_text(*s),
{
    match s {
        Some(s) => Some(s.clone()),
        None => None,
    }
}

fn copy_opt_bytes(b: &Option<Vec<u8>>) -> (r: Option<Vec<u8>>)
    ensures
        opt_bytes(r) == opt_bytes(*b),
{
    match b {
        Some(b) => Some(copy_bytes(b)),
        None => None,
    }
}

fn text_field(tag: u32, s: &String) -> (r: WireField)
    ensures
        r@ == (FieldView { tag, value: ValueView::Bytes(encode_utf8(s@)) }),
{
    WireField { tag, value: WireValue::Bytes(string_bytes(s)) }
}

fn bytes_field(tag: u32, b: &Vec<u8>) -> (r: WireField)
    ensures
        r@ == (FieldView { tag, value: ValueView::Bytes(b@) }),
{
    WireField { tag, value: WireValue::Bytes(copy_bytes(b)) }
}

// ---------------------------------------------------------------------------
// IceCandidateV3 { optional string sdp = 1; }

/// An ICE candidate written as an SDP line.
#[derive(Clone)]
pub struct IceCandidateV3 {
    pub sdp: Option<String>,
}

pub struct IceCandidateV3View {
    pub sdp: Option<Seq<char>>,
}

impl View for IceCandidateV3 {
    type V = IceCandidateV3View;

    open spec fn view(&self) -> IceCandidateV3View {
        IceCandidateV3View { sdp: opt_text(self.sdp) }
    }
}

pub open spec fn ice_candidate_v3_step(m: IceCandidateV3View, f: FieldView) -> Option<IceCandidateV3View> {
    if f.tag == 1 {
        match string_value(f.value) {
            Some(s) => Some(IceCandidateV3View { sdp: Some(s) }),
            None => None,
        }
    } else {
        Some(m)
    }
}

pub open spec fn ice_candidate_v3_steps() -> spec_fn(IceCandidateV3View, FieldView) -> Option<IceCandidateV3View> {
    |m: IceCandidateV3View, f: FieldView| ice_candidate_v3_step(m, f)
}

pub open spec fn ice_candidate_v3_fields(m: IceCandidateV3View) -> Seq<FieldView> {
    match m.sdp {
        Some(s) => seq![FieldView { tag: 1, value: ValueView::Bytes(encode_utf8(s)) }],
        None => seq![],
    }
}

pub open spec fn empty_ice_candidate_v3() -> IceCandidateV3View {
    IceCandidateV3View { sdp: None }
}

/// Merges the fields of `data` into `m`.
pub fn merge_ice_candidate_v3(init: IceCandidateV3, data: &[u8], depth: u32) -> (r: Option<IceCandidateV3>)
    ensures
        r is None <==> merge_message(init@, data@, depth as nat, ice_candidate_v3_steps()) is None,
        r matches Some(x) ==> merge_message(init@, data@, depth as nat, ice_candidate_v3_steps()) == Some(x@),
{
    let fs = match read_fields(data, 0, None, depth) {
        Some((fs, _)) => fs,
        None => return None,
    };
    let ghost views = field_views(fs@);
    let mut m = init;
    let mut i: usize = 0;
    assert(views.subrange(0, views.len() as int) =~= views);
    while i < fs.len()
        invariant
            i <= fs@.len(),
            views == field_views(fs@),
            merge_message(init@, data@, depth as nat, ice_candidate_v3_steps()) == fold_fields(
                views.subrange(i as int, views.len() as int),
                m@,
                ice_candidate_v3_steps(),
            ),
        decreases fs@.len() - i,
    {
        proof {
            lemma_fold_fields_at(views, i as int, m@, ice_candidate_v3_steps());
            assert(views[i as int] == fs@[i as int]@);
        }
        let f = &fs[i];
        if f.tag == 1 {
            match &f.value {
                WireValue::Bytes(b) => match string_from_utf8(b.as_slice()) {
                    Some(s) => {
                        m = IceCandidateV3 { sdp: Some(s) };
                    },
                    None => return None,
                },
                _ => return None,
            }
        }
        i = i + 1;
    }
    Some(m)
}

pub open spec fn ice_candidate_v3_bytes(m: IceCandidateV3View) -> Seq<u8> {
    fields_bytes(ice_candidate_v3_fields(m))
}

/// The message read from a buffer at nesting depth `depth`.
pub open spec fn decode_ice_candidate_v3(data: Seq<u8>, depth: nat) -> Option<IceCandidateV3View> {
    merge_message(empty_ice_candidate_v3(), data, depth, ice_candidate_v3_steps())
}

/// Encodes the message.
pub fn encode_ice_candidate_v3(m: &IceCandidateV3) -> (r: Vec<u8>)
    ensures
        r@ == ice_candidate_v3_bytes(m@),
{
    let mut fs: Vec<WireField> = Vec::new();
    match &m.sdp {
        Some(s) => fs.push(text_field(1, s)),
        None => {},
    }
    assert(field_views(fs@) =~= ice_candidate_v3_fields(m@));
    write_fields(&fs)
}

/// A message reads back as itself from its encoding.
pub proof fn law_ice_candidate_v3_roundtrip(m: IceCandidateV3View, depth: nat)
    requires
        depth > 0,
        ice_candidate_v3_bytes(m).len() < 0x1_0000_0000_0000_0000,
    ensures
        decode_ice_candidate_v3(ice_candidate_v3_bytes(m), depth) == Some(m),
{
    let fs = ice_candidate_v3_fields(m);
    lemma_short_fields_writable(fs);
    law_message_fields_roundtrip(fs, depth);
    if let Some(s) = m.sdp {
        lemma_string_value_roundtrip(s);
        lemma_fold_fields_single(fs[0], empty_ice_candidate_v3(), ice_candidate_v3_steps());
    } else {
        lemma_fold_fields_single(FieldView { tag: 1, value: ValueView::Other }, empty_ice_candidate_v3(), ice_candidate_v3_steps());
    }
}

// ---------------------------------------------------------------------------
// SocketAddr { optional bytes ip = 1; optional uint32 port = 2; }

/// An IP address and port.
#[derive(Clone)]
pub struct SocketAddr {
    pub ip: Option<Vec<u8>>,
    pub port: Option<u32>,
}

pub struct SocketAddrView {
    pub ip: Option<Seq<u8>>,
    pub port: Option<u32>,
}

impl View for SocketAddr {
    type V = SocketAddrView;

    open spec fn view(&self) -> SocketAddrView {
        SocketAddrView { ip: opt_bytes(self.ip), port: self.port }
    }
}

pub open spec fn socket_addr_step(m: SocketAddrView, f: FieldView) -> Option<SocketAddrView> {
    if f.tag == 1 {
        match bytes_value(f.value) {
            Some(b) => Some(SocketAddrView { ip: Some(b), ..m }),
            None => None,
        }
    } else if f.tag == 2 {
        match varint_value(f.value) {
            Some(v) => Some(SocketAddrView { port: Some(v as u32), ..m }),
            None => None,
        }
    } else {
        Some(m)
    }
}

pub open spec fn socket_addr_steps() -> spec_fn(SocketAddrView, FieldView) -> Option<SocketAddrView> {
    |m: SocketAddrView, f: FieldView| socket_addr_step(m, f)
}

pub open spec fn socket_addr_fields(m: SocketAddrView) -> Seq<FieldView> {
    (match m.ip {
        Some(b) => seq![FieldView { tag: 1, value: ValueView::Bytes(b) }],
        None => seq![],
    }) + (match m.port {
        Some(p) => seq![FieldView { tag: 2, value: ValueView::Varint(p as u64) }],
        None => seq![],
    })
}

pub open spec fn empty_socket_addr() -> SocketAddrView {
    SocketAddrView { ip: None, port: None }
}

pub open spec fn socket_addr_bytes(m: SocketAddrView) -> Seq<u8> {
    fields_bytes(socket_addr_fields(m))
}

pub open spec fn decode_socket_addr(data: Seq<u8>, depth: nat) -> Option<SocketAddrView> {
    merge_message(empty_socket_addr(), data, depth, socket_addr_steps())
}

/// Merges the fields of `data` into `init`.
pub fn merge_socket_addr(init: SocketAddr, data: &[u8], depth: u32) -> (r: Option<SocketAddr>)
    ensures
        r is None <==> merge_message(init@, data@, depth as nat, socket_addr_steps()) is None,
        r matches Some(x) ==> merge_message(init@, data@, depth as nat, socket_addr_steps()) == Some(x@),
{
    let fs = match read_fields(data, 0, None, depth) {
        Some((fs, _)) => fs,
        None => return None,
    };
    let ghost views = field_views(fs@);
    let mut m = init;
    let mut i: usize = 0;
    assert(views.subrange(0, views.len() as int) =~= views);
    while i < fs.len()
        invariant
            i <= fs@.len(),
            views == field_views(fs@),
            merge_message(init@, data@, depth as nat, socket_addr_steps()) == fold_fields(
                views.subrange(i as int, views.len() as int),
                m@,
                socket_addr_steps(),
            ),
        decreases fs@.len() - i,
    {
        proof {
            lemma_fold_fields_at(views, i as int, m@, socket_addr_steps());
            assert(views[i as int] == fs@[i as int]@);
        }
        let f = &fs[i];
        if f.tag == 1 {
            match &f.value {
                WireValue::Bytes(b) => {
                    m.ip = Some(copy_bytes(b));
                },
                _ => return None,
            }
        } else if f.tag == 2 {
            match &f.value {
                WireValue::Varint(v) => {
                    m.port = Some(*v as u32);
                },
                _ => return None,
            }
        }
        i = i + 1;
    }
    Some(m)
}

/// Encodes the message.
pub fn encode_socket_addr(m: &SocketAddr) -> (r: Vec<u8>)
    ensures
        r@ == socket_addr_bytes(m@),
{
    let mut fs: Vec<WireField> = Vec::new();
    match &m.ip {
        Some(b) => fs.push(bytes_field(1, b)),
        None => {},
    }
    match m.port {
        Some(p) => fs.push(WireField { tag: 2, value: WireValue::Varint(p as u64) }),
        None => {},
    }
    assert(field_views(fs@) =~= socket_addr_fields(m@));
    write_fields(&fs)
}

/// A message reads back as itself from its encoding.
pub proof fn law_socket_addr_roundtrip(m: SocketAddrView, depth: nat)
    requires
        depth > 0,
        socket_addr_bytes(m).len() < 0x1_0000_0000_0000_0000,
    ensures
        decode_socket_addr(socket_addr_bytes(m), depth) == Some(m),
{
    let fs = socket_addr_fields(m);
    lemma_short_fields_writable(fs);
    law_message_fields_roundtrip(fs, depth);
    let a: Seq<FieldView> = match m.ip {
        Some(b) => seq![FieldView { tag: 1, value: ValueView::Bytes(b) }],
        None => seq![],
    };
    let b: Seq<FieldView> = match m.port {
        Some(p) => seq![FieldView { tag: 2, value: ValueView::Varint(p as u64) }],
        None => seq![],
    };
    lemma_fold_fields_concat(a, b, empty_socket_addr(), socket_addr_steps());
    let mid = SocketAddrView { ip: m.ip, port: None };
    let any = FieldView { tag: 1, value: ValueView::Other };
    lemma_fold_fields_single(if a.len() > 0 { a[0] } else { any }, empty_socket_addr(), socket_addr_steps());
    lemma_fold_fields_single(if b.len() > 0 { b[0] } else { any }, mid, socket_addr_steps());
    assert(a.len() > 0 ==> a =~= seq![a[0]]);
    assert(b.len() > 0 ==> b =~= seq![b[0]]);
}
// ---------------------------------------------------------------------------
// IceCandidate { optional IceCandidateV3 added_V3 = 2; optional SocketAddr removed = 3; }

/// An ICE candidate that was added, or the address of one that was removed.
#[derive(Clone)]
pub struct IceCandidate {
    pub added_v3: Option<IceCandidateV3>,
    pub removed: Option<SocketAddr>,
}

pub struct IceCandidateView {
    pub added_v3: Option<IceCandidateV3View>,
    pub removed: Option<SocketAddrView>,
}

impl View for IceCandidate {
    type V = IceCandidateView;

    open spec fn view(&self) -> IceCandidateView {
        IceCandidateView {
            added_v3: match self.added_v3 {
                Some(x) => Some(x@),
                None => None,
            },
            removed: match self.removed {
                Some(x) => Some(x@),
                None => None,
            },
        }
    }
}

pub open spec fn ice_candidate_step(m: IceCandidateView, f: FieldView, depth: nat) -> Option<IceCandidateView> {
    if f.tag == 2 {
        match bytes_value(f.value) {
            Some(b) => if depth == 0 {
                None
            } else {
                let cur = match m.added_v3 {
                    Some(x) => x,
                    None => empty_ice_candidate_v3(),
                };
                match merge_message(cur, b, (depth - 1) as nat, ice_candidate_v3_steps()) {
                    Some(x) => Some(IceCandidateView { added_v3: Some(x), ..m }),
                    None => None,
                }
            },
            None => None,
        }
    } else if f.tag == 3 {
        match bytes_value(f.value) {
            Some(b) => if depth == 0 {
                None
            } else {
                let cur = match m.removed {
                    Some(x) => x,
                    None => empty_socket_addr(),
                };
                match merge_message(cur, b, (depth - 1) as nat, socket_addr_steps()) {
                    Some(x) => Some(IceCandidateView { removed: Some(x), ..m }),
                    None => None,
                }
            },
            None => None,
        }
    } else {
        Some(m)
    }
}

pub open spec fn ice_candidate_steps(depth: nat) -> spec_fn(IceCandidateView, FieldView) -> Option<IceCandidateView> {
    |m: IceCandidateView, f: FieldView| ice_candidate_step(m, f, depth)
}

pub open spec fn ice_candidate_fields(m: IceCandidateView) -> Seq<FieldView> {
    (match m.added_v3 {
        Some(x) => seq![FieldView { tag: 2, value: ValueView::Bytes(ice_candidate_v3_bytes(x)) }],
        None => seq![],
    }) + (match m.removed {
        Some(x) => seq![FieldView { tag: 3, value: ValueView::Bytes(socket_addr_bytes(x)) }],
        None => seq![],
    })
}

pub open spec fn empty_ice_candidate() -> IceCandidateView {
    IceCandidateView { added_v3: None, removed: None }
}

pub open spec fn ice_candidate_bytes(m: IceCandidateView) -> Seq<u8> {
    fields_bytes(ice_candidate_fields(m))
}

pub open spec fn decode_ice_candidate(data: Seq<u8>, depth: nat) -> Option<IceCandidateView> {
    merge_message(empty_ice_candidate(), data, depth, ice_candidate_steps(depth))
}

/// Merges the fields of `data` into `init`.
pub fn merge_ice_candidate(init: IceCandidate, data: &[u8], depth: u32) -> (r: Option<IceCandidate>)
    ensures
        r is None <==> merge_message(init@, data@, depth as nat, ice_candidate_steps(depth as nat)) is None,
        r matches Some(x) ==> merge_message(init@, data@, depth as nat, ice_candidate_steps(depth as nat)) == Some(x@),
{
    let fs = match read_fields(data, 0, None, depth) {
        Some((fs, _)) => fs,
        None => return None,
    };
    let ghost views = field_views(fs@);
    let mut m = init;
    let mut i: usize = 0;
    assert(views.subrange(0, views.len() as int) =~= views);
    while i < fs.len()
        invariant
            i <= fs@.len(),
            views == field_views(fs@),
            merge_message(init@, data@, depth as nat, ice_candidate_steps(depth as nat)) == fold_fields(
                views.subrange(i as int, views.len() as int),
                m@,
                ice_candidate_steps(depth as nat),
            ),
        decreases fs@.len() - i,
    {
        proof {
            lemma_fold_fields_at(views, i as int, m@, ice_candidate_steps(depth as nat));
            assert(views[i as int] == fs@[i as int]@);
        }
        let f = &fs[i];
        if f.tag == 2 {
            match &f.value {
                WireValue::Bytes(b) => {
                    if depth == 0 {
                        return None;
                    }
                    let IceCandidate { added_v3, removed } = m;
                    let cur = match added_v3 {
                        Some(x) => x,
                        None => IceCandidateV3 { sdp: None },
                    };
                    match merge_ice_candidate_v3(cur, b.as_slice(), depth - 1) {
                        Some(x) => {
                            m = IceCandidate { added_v3: Some(x), removed };
                        },
                        None => return None,
                    }
                },
                _ => return None,
            }
        } else if f.tag == 3 {
            match &f.value {
                WireValue::Bytes(b) => {
                    if depth == 0 {
                        return None;
                    }
                    let IceCandidate { added_v3, removed } = m;
                    let cur = match removed {
                        Some(x) => x,
                        None => SocketAddr { ip: None, port: None },
                    };
                    match merge_socket_addr(cur, b.as_slice(), depth - 1) {
                        Some(x) => {
                            m = IceCandidate { added_v3, removed: Some(x) };
                        },
                        None => return None,
                    }
                },
                _ => return None,
            }
        }
        i = i + 1;
    }
    Some(m)
}

/// Encodes the message.
pub fn encode_ice_candidate(m: &IceCandidate) -> (r: Vec<u8>)
    ensures
        r@ == ice_candidate_bytes(m@),
{
    let mut fs: Vec<WireField> = Vec::new();
    match &m.added_v3 {
        Some(x) => fs.push(WireField { tag: 2, value: WireValue::Bytes(encode_ice_candidate_v3(x)) }),
        None => {},
    }
    match &m.removed {
        Some(x) => fs.push(WireField { tag: 3, value: WireValue::Bytes(encode_socket_addr(x)) }),
        None => {},
    }
    assert(field_views(fs@) =~= ice_candidate_fields(m@));
    write_fields(&fs)
}

proof fn lemma_payload_short(fs: Seq<FieldView>, i: int, b: Seq<u8>)
    requires
        0 <= i < fs.len(),
        fs[i].value == ValueView::Bytes(b),
    ensures
        b.len() <= fields_bytes(fs).len(),
{
    crate::protobuf::wire::lemma_field_bytes_within(fs, i);
}

/// A message reads back as itself from its encoding, where the nesting depth
/// allows its embedded messages.
pub proof fn law_ice_candidate_roundtrip(m: IceCandidateView, depth: nat)
    requires
        depth > 1,
        ice_candidate_bytes(m).len() < 0x1_0000_0000_0000_0000,
    ensures
        decode_ice_candidate(ice_candidate_bytes(m), depth) == Some(m),
{
    let fs = ice_candidate_fields(m);
    lemma_short_fields_writable(fs);
    law_message_fields_roundtrip(fs, depth);
    let a: Seq<FieldView> = match m.added_v3 {
        Some(x) => seq![FieldView { tag: 2, value: ValueView::Bytes(ice_candidate_v3_bytes(x)) }],
        None => seq![],
    };
    let b: Seq<FieldView> = match m.removed {
        Some(x) => seq![FieldView { tag: 3, value: ValueView::Bytes(socket_addr_bytes(x)) }],
        None => seq![],
    };
    assert(fs == a + b);
    let steps = ice_candidate_steps(depth);
    lemma_fold_fields_concat(a, b, empty_ice_candidate(), steps);
    let mid = IceCandidateView { added_v3: m.added_v3, removed: None };
    let any = FieldView { tag: 1, value: ValueView::Other };
    if let Some(x) = m.added_v3 {
        lemma_payload_short(fs, 0, ice_candidate_v3_bytes(x));
        law_ice_candidate_v3_roundtrip(x, (depth - 1) as nat);
    }
    if let Some(y) = m.removed {
        lemma_payload_short(fs, fs.len() - 1, socket_addr_bytes(y));
        law_socket_addr_roundtrip(y, (depth - 1) as nat);
    }
    lemma_fold_fields_single(if a.len() > 0 { a[0] } else { any }, empty_ice_candidate(), steps);
    lemma_fold_fields_single(if b.len() > 0 { b[0] } else { any }, mid, steps);
    assert(a.len() > 0 ==> a =~= seq![a[0]]);
    assert(b.len() > 0 ==> b =~= seq![b[0]]);
}
// ---------------------------------------------------------------------------
// VideoCodec { optional VideoCodecType type = 1; optional uint32 level = 2; }

/// A video codec a receiver can decode.
#[derive(Clone, Copy)]
pub struct VideoCodec {
    /// The codec type's number.
    pub codec_type: Option<i32>,
    pub level: Option<u32>,
}

pub struct VideoCodecView {
    pub codec_type: Option<i32>,
    pub level: Option<u32>,
}

impl View for VideoCodec {
    type V = VideoCodecView;

    open spec fn view(&self) -> VideoCodecView {
        VideoCodecView { codec_type: self.codec_type, level: self.level }
    }
}

pub open spec fn video_codec_step(m: VideoCodecView, f: FieldView) -> Option<VideoCodecView> {
    if f.tag == 1 {
        match varint_value(f.value) {
            Some(v) => Some(VideoCodecView { codec_type: Some(v as i32), ..m }),
            None => None,
        }
    } else if f.tag == 2 {
        match varint_value(f.value) {
            Some(v) => Some(VideoCodecView { level: Some(v as u32), ..m }),
            None => None,
        }
    } else {
        Some(m)
    }
}

pub open spec fn video_codec_steps() -> spec_fn(VideoCodecView, FieldView) -> Option<VideoCodecView> {
    |m: VideoCodecView, f: FieldView| video_codec_step(m, f)
}

pub open spec fn video_codec_fields(m: VideoCodecView) -> Seq<FieldView> {
    (match m.codec_type {
        Some(t) => seq![FieldView { tag: 1, value: ValueView::Varint(t as u64) }],
        None => seq![],
    }) + (match m.level {
        Some(l) => seq![FieldView { tag: 2, value: ValueView::Varint(l as u64) }],
        None => seq![],
    })
}

pub open spec fn empty_video_codec() -> VideoCodecView {
    VideoCodecView { codec_type: None, level: None }
}

pub open spec fn video_codec_bytes(m: VideoCodecView) -> Seq<u8> {
    fields_bytes(video_codec_fields(m))
}

pub open spec fn decode_video_codec(data: Seq<u8>, depth: nat) -> Option<VideoCodecView> {
    merge_message(empty_video_codec(), data, depth, video_codec_steps())
}

/// Reads a message from `data`.
pub fn decode_video_codec_exec(data: &[u8], depth: u32) -> (r: Option<VideoCodec>)
    ensures
        r is None <==> decode_video_codec(data@, depth as nat) is None,
        r matches Some(x) ==> decode_video_codec(data@, depth as nat) == Some(x@),
{
    let fs = match read_fields(data, 0, None, depth) {
        Some((fs, _)) => fs,
        None => return None,
    };
    let ghost views = field_views(fs@);
    let mut m = VideoCodec { codec_type: None, level: None };
    let mut i: usize = 0;
    assert(views.subrange(0, views.len() as int) =~= views);
    while i < fs.len()
        invariant
            i <= fs@.len(),
            views == field_views(fs@),
            decode_video_codec(data@, depth as nat) == fold_fields(
                views.subrange(i as int, views.len() as int),
                m@,
                video_codec_steps(),
            ),
        decreases fs@.len() - i,
    {
        proof {
            lemma_fold_fields_at(views, i as int, m@, video_codec_steps());
            assert(views[i as int] == fs@[i as int]@);
        }
        let f = &fs[i];
        if f.tag == 1 {
            match &f.value {
                WireValue::Varint(v) => {
                    m.codec_type = Some(*v as i32);
                },
                _ => return None,
            }
        } else if f.tag == 2 {
            match &f.value {
                WireValue::Varint(v) => {
                    m.level = Some(*v as u32);
                },
                _ => return None,
            }
        }
        i = i + 1;
    }
    Some(m)
}

/// Encodes the message.
pub fn encode_video_codec(m: &VideoCodec) -> (r: Vec<u8>)
    ensures
        r@ == video_codec_bytes(m@),
{
    let mut fs: Vec<WireField> = Vec::new();
    match m.codec_type {
        Some(t) => fs.push(WireField { tag: 1, value: WireValue::Varint(t as u64) }),
        None => {},
    }
    match m.level {
        Some(l) => fs.push(WireField { tag: 2, value: WireValue::Varint(l as u64) }),
        None => {},
    }
    assert(field_views(fs@) =~= video_codec_fields(m@));
    write_fields(&fs)
}

/// A message reads back as itself from its encoding.
pub proof fn law_video_codec_roundtrip(m: VideoCodecView, depth: nat)
    requires
        depth > 0,
    ensures
        decode_video_codec(video_codec_bytes(m), depth) == Some(m),
{
    let fs = video_codec_fields(m);
    let a: Seq<FieldView> = match m.codec_type {
        Some(t) => seq![FieldView { tag: 1, value: ValueView::Varint(t as u64) }],
        None => seq![],
    };
    let b: Seq<FieldView> = match m.level {
        Some(l) => seq![FieldView { tag: 2, value: ValueView::Varint(l as u64) }],
        None => seq![],
    };
    assert(fs == a + b);
    assert forall|i: int| 0 <= i < fs.len() implies writable(#[trigger] fs[i]) by {}
    law_message_fields_roundtrip(fs, depth);
    let steps = video_codec_steps();
    lemma_fold_fields_concat(a, b, empty_video_codec(), steps);
    let mid = VideoCodecView { codec_type: m.codec_type, level: None };
    let any = FieldView { tag: 1, value: ValueView::Other };
    if let Some(t) = m.codec_type {
        assert((t as u64) as i32 == t) by (bit_vector);
    }
    lemma_fold_fields_single(if a.len() > 0 { a[0] } else { any }, empty_video_codec(), steps);
    lemma_fold_fields_single(if b.len() > 0 { b[0] } else { any }, mid, steps);
    assert(a.len() > 0 ==> a =~= seq![a[0]]);
    assert(b.len() > 0 ==> b =~= seq![b[0]]);
}
// ---------------------------------------------------------------------------
// ConnectionParametersV4 {
//   optional bytes public_key = 1; optional string ice_ufrag = 2;
//   optional string ice_pwd = 3; repeated VideoCodec receive_video_codecs = 4;
//   optional uint64 max_bitrate_bps = 5; }

/// What an offer or answer carries to set up a direct connection.
#[derive(Clone)]
pub struct ConnectionParametersV4 {
    pub public_key: Option<Vec<u8>>,
    pub ice_ufrag: Option<String>,
    pub ice_pwd: Option<String>,
    pub receive_video_codecs: Vec<VideoCodec>,
    pub max_bitrate_bps: Option<u64>,
}

pub struct ConnectionParametersV4View {
    pub public_key: Option<Seq<u8>>,
    pub ice_ufrag: Option<Seq<char>>,
    pub ice_pwd: Option<Seq<char>>,
    pub receive_video_codecs: Seq<VideoCodecView>,
    pub max_bitrate_bps: Option<u64>,
}

impl View for ConnectionParametersV4 {
    type V = ConnectionParametersV4View;

    open spec fn view(&self) -> ConnectionParametersV4View {
        ConnectionParametersV4View {
            public_key: opt_bytes(self.public_key),
            ice_ufrag: opt_text(self.ice_ufrag),
            ice_pwd: opt_text(self.ice_pwd),
            receive_video_codecs: self.receive_video_codecs@.map_values(|c: VideoCodec| c@),
            max_bitrate_bps: self.max_bitrate_bps,
        }
    }
}

pub open spec fn connection_parameters_step(m: ConnectionParametersV4View, f: FieldView, depth: nat) -> Option<ConnectionParametersV4View> {
    if f.tag == 1 {
        match bytes_value(f.value) {
            Some(b) => Some(ConnectionParametersV4View { public_key: Some(b), ..m }),
            None => None,
        }
    } else if f.tag == 2 {
        match string_value(f.value) {
            Some(t) => Some(ConnectionParametersV4View { ice_ufrag: Some(t), ..m }),
            None => None,
        }
    } else if f.tag == 3 {
        match string_value(f.value) {
            Some(t) => Some(ConnectionParametersV4View { ice_pwd: Some(t), ..m }),
            None => None,
        }
    } else if f.tag == 4 {
        match bytes_value(f.value) {
            Some(b) => if depth == 0 {
                None
            } else {
                match decode_video_codec(b, (depth - 1) as nat) {
                    Some(c) => Some(
                        ConnectionParametersV4View {
                            receive_video_codecs: m.receive_video_codecs.push(c),
                            ..m
                        },
                    ),
                    None => None,
                }
            },
            None => None,
        }
    } else if f.tag == 5 {
        match varint_value(f.value) {
            Some(v) => Some(ConnectionParametersV4View { max_bitrate_bps: Some(v), ..m }),
            None => None,
        }
    } else {
        Some(m)
    }
}

pub open spec fn connection_parameters_steps(depth: nat) -> spec_fn(ConnectionParametersV4View, FieldView) -> Option<ConnectionParametersV4View> {
    |m: ConnectionParametersV4View, f: FieldView| connection_parameters_step(m, f, depth)
}

/// The fields of the codecs, one each.
pub open spec fn video_codecs_fields(cs: Seq<VideoCodecView>) -> Seq<FieldView> {
    Seq::new(cs.len(), |i: int| FieldView { tag: 4, value: ValueView::Bytes(video_codec_bytes(cs[i])) })
}

pub open spec fn connection_parameters_fields(m: ConnectionParametersV4View) -> Seq<FieldView> {
    (match m.public_key {
        Some(b) => seq![FieldView { tag: 1, value: ValueView::Bytes(b) }],
        None => seq![],
    }) + (match m.ice_ufrag {
        Some(t) => seq![FieldView { tag: 2, value: ValueView::Bytes(encode_utf8(t)) }],
        None => seq![],
    }) + (match m.ice_pwd {
        Some(t) => seq![FieldView { tag: 3, value: ValueView::Bytes(encode_utf8(t)) }],
        None => seq![],
    }) + video_codecs_fields(m.receive_video_codecs) + (match m.max_bitrate_bps {
        Some(v) => seq![FieldView { tag: 5, value: ValueView::Varint(v) }],
        None => seq![],
    })
}

pub open spec fn empty_connection_parameters() -> ConnectionParametersV4View {
    ConnectionParametersV4View {
        public_key: None,
        ice_ufrag: None,
        ice_pwd: None,
        receive_video_codecs: seq![],
        max_bitrate_bps: None,
    }
}

pub open spec fn connection_parameters_bytes(m: ConnectionParametersV4View) -> Seq<u8> {
    fields_bytes(connection_parameters_fields(m))
}

pub open spec fn decode_connection_parameters(data: Seq<u8>, depth: nat) -> Option<ConnectionParametersV4View> {
    merge_message(empty_connection_parameters(), data, depth, connection_parameters_steps(depth))
}

impl ConnectionParametersV4 {
    /// Parameters with no field set.
    pub fn empty() -> (r: ConnectionParametersV4)
        ensures
            r@ == empty_connection_parameters(),
    {
        let r = ConnectionParametersV4 {
            public_key: None,
            ice_ufrag: None,
            ice_pwd: None,
            receive_video_codecs: Vec::new(),
            max_bitrate_bps: None,
        };
        assert(r@.receive_video_codecs =~= seq![]);
        r
    }

    /// A copy of the parameters.
    pub fn copy(&self) -> (r: ConnectionParametersV4)
        ensures
            r@ == self@,
    {
        let mut codecs: Vec<VideoCodec> = Vec::new();
        let mut i: usize = 0;
        while i < self.receive_video_codecs.len()
            invariant
                i <= self.receive_video_codecs@.len(),
                codecs@ =~= self.receive_video_codecs@.subrange(0, i as int),
            decreases self.receive_video_codecs@.len() - i,
        {
            let c = self.receive_video_codecs[i];
            codecs.push(c);
            i = i + 1;
            assert(codecs@ =~= self.receive_video_codecs@.subrange(0, i as int));
        }
        assert(self.receive_video_codecs@.subrange(0, i as int) =~= self.receive_video_codecs@);
        ConnectionParametersV4 {
            public_key: copy_opt_bytes(&self.public_key),
            ice_ufrag: copy_text(&self.ice_ufrag),
            ice_pwd: copy_text(&self.ice_pwd),
            receive_video_codecs: codecs,
            max_bitrate_bps: self.max_bitrate_bps,
        }
    }
}

/// Merges the fields of `data` into `init`.
pub fn merge_connection_parameters(init: ConnectionParametersV4, data: &[u8], depth: u32) -> (r: Option<ConnectionParametersV4>)
    ensures
        r is None <==> merge_message(init@, data@, depth as nat, connection_parameters_steps(depth as nat)) is None,
        r matches Some(x) ==> merge_message(init@, data@, depth as nat, connection_parameters_steps(depth as nat)) == Some(x@),
{
    let fs = match read_fields(data, 0, None, depth) {
        Some((fs, _)) => fs,
        None => return None,
    };
    let ghost views = field_views(fs@);
    let mut m = init;
    let mut i: usize = 0;
    assert(views.subrange(0, views.len() as int) =~= views);
    while i < fs.len()
        invariant
            i <= fs@.len(),
            views == field_views(fs@),
            merge_message(init@, data@, depth as nat, connection_parameters_steps(depth as nat)) == fold_fields(
                views.subrange(i as int, views.len() as int),
                m@,
                connection_parameters_steps(depth as nat),
            ),
        decreases fs@.len() - i,
    {
        proof {
            lemma_fold_fields_at(views, i as int, m@, connection_parameters_steps(depth as nat));
            assert(views[i as int] == fs@[i as int]@);
        }
        let f = &fs[i];
        if f.tag == 1 {
            match &f.value {
                WireValue::Bytes(b) => {
                    m.public_key = Some(copy_bytes(b));
                },
                _ => return None,
            }
        } else if f.tag == 2 || f.tag == 3 {
            match &f.value {
                WireValue::Bytes(b) => match string_from_utf8(b.as_slice()) {
                    Some(t) => {
                        if f.tag == 2 {
                            m.ice_ufrag = Some(t);
                        } else {
                            m.ice_pwd = Some(t);
                        }
                    },
                    None => return None,
                },
                _ => return None,
            }
        } else if f.tag == 4 {
            match &f.value {
                WireValue::Bytes(b) => {
                    if depth == 0 {
                        return None;
                    }
                    match decode_video_codec_exec(b.as_slice(), depth - 1) {
                        Some(c) => {
                            let ghost before = m.receive_video_codecs@;
                            m.receive_video_codecs.push(c);
                            assert(m.receive_video_codecs@.map_values(|c: VideoCodec| c@) =~= before.map_values(|c: VideoCodec| c@).push(c@));
                        },
                        None => return None,
                    }
                },
                _ => return None,
            }
        } else if f.tag == 5 {
            match &f.value {
                WireValue::Varint(v) => {
                    m.max_bitrate_bps = Some(*v);
                },
                _ => return None,
            }
        }
        i = i + 1;
    }
    Some(m)
}

/// Encodes the message.
pub fn encode_connection_parameters(m: &ConnectionParametersV4) -> (r: Vec<u8>)
    ensures
        r@ == connection_parameters_bytes(m@),
{
    let ghost v = m@;
    let ghost pk: Seq<FieldView> = match v.public_key {
        Some(b) => seq![FieldView { tag: 1, value: ValueView::Bytes(b) }],
        None => seq![],
    };
    let ghost uf: Seq<FieldView> = match v.ice_ufrag {
        Some(t) => seq![FieldView { tag: 2, value: ValueView::Bytes(encode_utf8(t)) }],
        None => seq![],
    };
    let ghost pw: Seq<FieldView> = match v.ice_pwd {
        Some(t) => seq![FieldView { tag: 3, value: ValueView::Bytes(encode_utf8(t)) }],
        None => seq![],
    };
    let ghost br: Seq<FieldView> = match v.max_bitrate_bps {
        Some(x) => seq![FieldView { tag: 5, value: ValueView::Varint(x) }],
        None => seq![],
    };
    assert(connection_parameters_fields(v) == pk + uf + pw + video_codecs_fields(v.receive_video_codecs) + br);
    let mut fs: Vec<WireField> = Vec::new();
    match &m.public_key {
        Some(b) => fs.push(bytes_field(1, b)),
        None => {},
    }
    assert(field_views(fs@) =~= pk);
    match &m.ice_ufrag {
        Some(t) => fs.push(text_field(2, t)),
        None => {},
    }
    assert(field_views(fs@) =~= pk + uf);
    match &m.ice_pwd {
        Some(t) => fs.push(text_field(3, t)),
        None => {},
    }
    assert(field_views(fs@) =~= pk + uf + pw);
    let ghost head = field_views(fs@);
    let mut i: usize = 0;
    while i < m.receive_video_codecs.len()
        invariant
            i <= m.receive_video_codecs@.len(),
            field_views(fs@) == head + video_codecs_fields(m@.receive_video_codecs.subrange(0, i as int)),
            forall|j: int| 0 <= j < fs@.len() ==> crate::protobuf::wire::encodable(#[trigger] fs@[j]@),
        decreases m.receive_video_codecs@.len() - i,
    {
        let ghost before = fs@;
        fs.push(WireField { tag: 4, value: WireValue::Bytes(encode_video_codec(&m.receive_video_codecs[i])) });
        i = i + 1;
        assert(field_views(fs@) =~= field_views(before).push(fs@.last()@));
        assert(video_codecs_fields(m@.receive_video_codecs.subrange(0, i as int)) =~= video_codecs_fields(
            m@.receive_video_codecs.subrange(0, i - 1),
        ).push(fs@.last()@));
        assert(field_views(fs@) =~= head + video_codecs_fields(m@.receive_video_codecs.subrange(0, i as int)));
    }
    assert(m@.receive_video_codecs.subrange(0, i as int) =~= m@.receive_video_codecs);
    let ghost mid = fs@;
    match m.max_bitrate_bps {
        Some(x) => fs.push(WireField { tag: 5, value: WireValue::Varint(x) }),
        None => {},
    }
    assert(field_views(fs@) =~= field_views(mid) + br);
    assert(field_views(fs@) =~= connection_parameters_fields(m@));
    write_fields(&fs)
}
proof fn lemma_video_codecs_fold(cs: Seq<VideoCodecView>, st: ConnectionParametersV4View, depth: nat)
    requires
        depth > 1,
    ensures
        fold_fields(video_codecs_fields(cs), st, connection_parameters_steps(depth)) == Some(
            ConnectionParametersV4View { receive_video_codecs: st.receive_video_codecs + cs, ..st },
        ),
    decreases cs.len(),
{
    let steps = connection_parameters_steps(depth);
    let fs = video_codecs_fields(cs);
    if cs.len() == 0 {
        assert(st.receive_video_codecs + cs =~= st.receive_video_codecs);
        lemma_fold_fields_single(FieldView { tag: 1, value: ValueView::Other }, st, steps);
        assert(fs =~= Seq::<FieldView>::empty());
    } else {
        law_video_codec_roundtrip(cs[0], (depth - 1) as nat);
        let next = ConnectionParametersV4View { receive_video_codecs: st.receive_video_codecs.push(cs[0]), ..st };
        assert(steps(st, fs[0]) == Some(next));
        assert(fs.drop_first() =~= video_codecs_fields(cs.drop_first()));
        lemma_video_codecs_fold(cs.drop_first(), next, depth);
        assert(next.receive_video_codecs + cs.drop_first() =~= st.receive_video_codecs + cs);
    }
}

/// A message reads back as itself from its encoding, where the nesting depth
/// allows its embedded messages.
pub proof fn law_connection_parameters_roundtrip(m: ConnectionParametersV4View, depth: nat)
    requires
        depth > 1,
        connection_parameters_bytes(m).len() < 0x1_0000_0000_0000_0000,
    ensures
        decode_connection_parameters(connection_parameters_bytes(m), depth) == Some(m),
{
    let fs = connection_parameters_fields(m);
    let steps = connection_parameters_steps(depth);
    let pk: Seq<FieldView> = match m.public_key {
        Some(b) => seq![FieldView { tag: 1, value: ValueView::Bytes(b) }],
        None => seq![],
    };
    let uf: Seq<FieldView> = match m.ice_ufrag {
        Some(t) => seq![FieldView { tag: 2, value: ValueView::Bytes(encode_utf8(t)) }],
        None => seq![],
    };
    let pw: Seq<FieldView> = match m.ice_pwd {
        Some(t) => seq![FieldView { tag: 3, value: ValueView::Bytes(encode_utf8(t)) }],
        None => seq![],
    };
    let cf = video_codecs_fields(m.receive_video_codecs);
    let br: Seq<FieldView> = match m.max_bitrate_bps {
        Some(x) => seq![FieldView { tag: 5, value: ValueView::Varint(x) }],
        None => seq![],
    };
    assert(fs == pk + uf + pw + cf + br);
    assert forall|i: int| 0 <= i < fs.len() implies crate::protobuf::wire::encodable(#[trigger] fs[i]) by {
        if i >= (pk + uf + pw).len() && i < (pk + uf + pw + cf).len() {
            assert(fs[i] == cf[i - (pk + uf + pw).len()]);
        }
    }
    lemma_short_fields_writable(fs);
    law_message_fields_roundtrip(fs, depth);
    let any = FieldView { tag: 1, value: ValueView::Other };
    let s0 = empty_connection_parameters();
    let s1 = ConnectionParametersV4View { public_key: m.public_key, ..s0 };
    let s2 = ConnectionParametersV4View { ice_ufrag: m.ice_ufrag, ..s1 };
    let s3 = ConnectionParametersV4View { ice_pwd: m.ice_pwd, ..s2 };
    let s4 = ConnectionParametersV4View { receive_video_codecs: m.receive_video_codecs, ..s3 };
    if let Some(t) = m.ice_ufrag {
        lemma_string_value_roundtrip(t);
    }
    if let Some(t) = m.ice_pwd {
        lemma_string_value_roundtrip(t);
    }
    lemma_fold_fields_single(if pk.len() > 0 { pk[0] } else { any }, s0, steps);
    lemma_fold_fields_single(if uf.len() > 0 { uf[0] } else { any }, s1, steps);
    lemma_fold_fields_single(if pw.len() > 0 { pw[0] } else { any }, s2, steps);
    lemma_fold_fields_single(if br.len() > 0 { br[0] } else { any }, s4, steps);
    assert(pk.len() > 0 ==> pk =~= seq![pk[0]]);
    assert(uf.len() > 0 ==> uf =~= seq![uf[0]]);
    assert(pw.len() > 0 ==> pw =~= seq![pw[0]]);
    assert(br.len() > 0 ==> br =~= seq![br[0]]);
    assert(fold_fields(pk, s0, steps) == Some(s1));
    assert(fold_fields(uf, s1, steps) == Some(s2));
    assert(fold_fields(pw, s2, steps) == Some(s3));
    lemma_video_codecs_fold(m.receive_video_codecs, s3, depth);
    assert(s3.receive_video_codecs + m.receive_video_codecs =~= m.receive_video_codecs);
    assert(fold_fields(cf, s3, steps) == Some(s4));
    assert(fold_fields(br, s4, steps) == Some(m));
    lemma_fold_fields_concat(pk, uf, s0, steps);
    lemma_fold_fields_concat(pk + uf, pw, s0, steps);
    lemma_fold_fields_concat(pk + uf + pw, cf, s0, steps);
    lemma_fold_fields_concat(pk + uf + pw + cf, br, s0, steps);
}
// ---------------------------------------------------------------------------
// Offer { optional ConnectionParametersV4 v4 = 4; }
// Answer { optional ConnectionParametersV4 v4 = 4; }

/// The caller's offer.
#[derive(Clone)]
pub struct Offer {
    pub v4: Option<ConnectionParametersV4>,
}

/// The callee's answer.
#[derive(Clone)]
pub struct Answer {
    pub v4: Option<ConnectionParametersV4>,
}

/// An offer or an answer: both carry only their V4 parameters.
pub struct V4MessageView {
    pub v4: Option<ConnectionParametersV4View>,
}

pub open spec fn opt_parameters(v4: Option<ConnectionParametersV4>) -> Option<ConnectionParametersV4View> {
    match v4 {
        Some(x) => Some(x@),
        None => None,
    }
}

impl View for Offer {
    type V = V4MessageView;

    open spec fn view(&self) -> V4MessageView {
        V4MessageView { v4: opt_parameters(self.v4) }
    }
}

impl View for Answer {
    type V = V4MessageView;

    open spec fn view(&self) -> V4MessageView {
        V4MessageView { v4: opt_parameters(self.v4) }
    }
}

pub open spec fn v4_message_step(m: V4MessageView, f: FieldView, depth: nat) -> Option<V4MessageView> {
    if f.tag == 4 {
        match bytes_value(f.value) {
            Some(b) => if depth == 0 {
                None
            } else {
                let cur = match m.v4 {
                    Some(x) => x,
                    None => empty_connection_parameters(),
                };
                match merge_message(cur, b, (depth - 1) as nat, connection_parameters_steps((depth - 1) as nat)) {
                    Some(x) => Some(V4MessageView { v4: Some(x) }),
                    None => None,
                }
            },
            None => None,
        }
    } else {
        Some(m)
    }
}

pub open spec fn v4_message_steps(depth: nat) -> spec_fn(V4MessageView, FieldView) -> Option<V4MessageView> {
    |m: V4MessageView, f: FieldView| v4_message_step(m, f, depth)
}

pub open spec fn v4_message_fields(m: V4MessageView) -> Seq<FieldView> {
    match m.v4 {
        Some(x) => seq![FieldView { tag: 4, value: ValueView::Bytes(connection_parameters_bytes(x)) }],
        None => seq![],
    }
}

pub open spec fn v4_message_bytes(m: V4MessageView) -> Seq<u8> {
    fields_bytes(v4_message_fields(m))
}

/// An offer or answer read from a whole buffer.
pub open spec fn decode_v4_message(data: Seq<u8>) -> Option<V4MessageView> {
    merge_message(
        V4MessageView { v4: None },
        data,
        RECURSION_LIMIT as nat,
        v4_message_steps(RECURSION_LIMIT as nat),
    )
}

fn decode_v4(data: &[u8]) -> (r: Option<Option<ConnectionParametersV4>>)
    ensures
        r is None <==> decode_v4_message(data@) is None,
        r matches Some(x) ==> decode_v4_message(data@) == Some(V4MessageView { v4: opt_parameters(x) }),
{
    let depth = RECURSION_LIMIT;
    let fs = match read_fields(data, 0, None, depth) {
        Some((fs, _)) => fs,
        None => return None,
    };
    let ghost views = field_views(fs@);
    let ghost steps = v4_message_steps(depth as nat);
    let mut v4: Option<ConnectionParametersV4> = None;
    let mut i: usize = 0;
    assert(views.subrange(0, views.len() as int) =~= views);
    while i < fs.len()
        invariant
            i <= fs@.len(),
            depth == RECURSION_LIMIT,
            views == field_views(fs@),
            steps == v4_message_steps(depth as nat),
            decode_v4_message(data@) == fold_fields(
                views.subrange(i as int, views.len() as int),
                V4MessageView { v4: opt_parameters(v4) },
                steps,
            ),
        decreases fs@.len() - i,
    {
        proof {
            lemma_fold_fields_at(views, i as int, V4MessageView { v4: opt_parameters(v4) }, steps);
            assert(views[i as int] == fs@[i as int]@);
        }
        let f = &fs[i];
        if f.tag == 4 {
            match &f.value {
                WireValue::Bytes(b) => {
                    let cur = match v4 {
                        Some(x) => x,
                        None => ConnectionParametersV4::empty(),
                    };
                    match merge_connection_parameters(cur, b.as_slice(), depth - 1) {
                        Some(x) => {
                            v4 = Some(x);
                        },
                        None => return None,
                    }
                },
                _ => return None,
            }
        }
        i = i + 1;
    }
    Some(v4)
}

fn encode_v4(v4: &Option<ConnectionParametersV4>) -> (r: Vec<u8>)
    ensures
        r@ == v4_message_bytes(V4MessageView { v4: opt_parameters(*v4) }),
{
    let mut fs: Vec<WireField> = Vec::new();
    match v4 {
        Some(x) => fs.push(WireField { tag: 4, value: WireValue::Bytes(encode_connection_parameters(x)) }),
        None => {},
    }
    assert(field_views(fs@) =~= v4_message_fields(V4MessageView { v4: opt_parameters(*v4) }));
    write_fields(&fs)
}

/// An offer or answer reads back as itself from its encoding.
pub proof fn law_v4_message_roundtrip(m: V4MessageView)
    requires
        v4_message_bytes(m).len() < 0x1_0000_0000_0000_0000,
    ensures
        decode_v4_message(v4_message_bytes(m)) == Some(m),
{
    let depth = RECURSION_LIMIT as nat;
    let fs = v4_message_fields(m);
    lemma_short_fields_writable(fs);
    law_message_fields_roundtrip(fs, depth);
    let steps = v4_message_steps(depth);
    if let Some(x) = m.v4 {
        lemma_payload_short(fs, 0, connection_parameters_bytes(x));
        law_connection_parameters_roundtrip(x, (depth - 1) as nat);
        lemma_fold_fields_single(fs[0], V4MessageView { v4: None }, steps);
    } else {
        lemma_fold_fields_single(FieldView { tag: 1, value: ValueView::Other }, m, steps);
    }
}

impl Offer {
    /// Reads an offer from a buffer.
    pub fn decode(data: &[u8]) -> (r: Result<Offer, crate::protobuf::wire::DecodeError>)
        ensures
            r is Err <==> decode_v4_message(data@) is None,
            r matches Ok(x) ==> decode_v4_message(data@) == Some(x@),
    {
        match decode_v4(data) {
            Some(v4) => Ok(Offer { v4 }),
            None => Err(crate::protobuf::wire::DecodeError),
        }
    }

    /// The offer's encoding.
    pub fn encode(&self) -> (r: Vec<u8>)
        ensures
            r@ == v4_message_bytes(self@),
    {
        encode_v4(&self.v4)
    }
}

impl Answer {
    /// Reads an answer from a buffer.
    pub fn decode(data: &[u8]) -> (r: Result<Answer, crate::protobuf::wire::DecodeError>)
        ensures
            r is Err <==> decode_v4_message(data@) is None,
            r matches Ok(x) ==> decode_v4_message(data@) == Some(x@),
    {
        match decode_v4(data) {
            Some(v4) => Ok(Answer { v4 }),
            None => Err(crate::protobuf::wire::DecodeError),
        }
    }

    /// The answer's encoding.
    pub fn encode(&self) -> (r: Vec<u8>)
        ensures
            r@ == v4_message_bytes(self@),
    {
        encode_v4(&self.v4)
    }
}
/// An ICE candidate message read from a whole buffer.
pub open spec fn decode_ice_candidate_message(data: Seq<u8>) -> Option<IceCandidateView> {
    decode_ice_candidate(data, RECURSION_LIMIT as nat)
}

impl IceCandidate {
    /// Reads an ICE candidate message from a buffer.
    pub fn decode(data: &[u8]) -> (r: Result<IceCandidate, crate::protobuf::wire::DecodeError>)
        ensures
            r is Err <==> decode_ice_candidate_message(data@) is None,
            r matches Ok(x) ==> decode_ice_candidate_message(data@) == Some(x@),
    {
        match merge_ice_candidate(IceCandidate { added_v3: None, removed: None }, data, RECURSION_LIMIT) {
            Some(x) => Ok(x),
            None => Err(crate::protobuf::wire::DecodeError),
        }
    }

    /// The message's encoding.
    pub fn encode(&self) -> (r: Vec<u8>)
        ensures
            r@ == ice_candidate_bytes(self@),
    {
        encode_ice_candidate(self)
    }
}
} // verus!
