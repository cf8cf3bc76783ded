use ringrtc::protobuf::signaling::{ConnectionParametersV4, VideoCodec};
use ringrtc::protobuf::wire::DecodeError;
use ringrtc::signaling::{
    Answer, CallMediaType, Hangup, HangupType, IceCandidate, IpAddress, Message, MessageType,
    Offer, SocketAddress, Version,
};

fn sample_parameters() -> ConnectionParametersV4 {
    ConnectionParametersV4 {
        public_key: Some(vec![1, 2, 3, 4]),
        ice_ufrag: Some("ufrag".to_string()),
        ice_pwd: Some("pwd".to_string()),
        receive_video_codecs: vec![
            VideoCodec { codec_type: Some(8), level: None },
            VideoCodec { codec_type: Some(-1), level: Some(300) },
        ],
        max_bitrate_bps: Some(2_000_000),
    }
}

fn same_parameters(a: &ConnectionParametersV4, b: &ConnectionParametersV4) -> bool {
    a.public_key == b.public_key
        && a.ice_ufrag == b.ice_ufrag
        && a.ice_pwd == b.ice_pwd
        && a.max_bitrate_bps == b.max_bitrate_bps
        && a.receive_video_codecs.len() == b.receive_video_codecs.len()
        && a.receive_video_codecs
            .iter()
            .zip(b.receive_video_codecs.iter())
            .all(|(x, y)| x.codec_type == y.codec_type && x.level == y.level)
}

#[test]
fn offer_from_v4_round_trips() {
    let offer = Offer::from_v4(CallMediaType::Video, sample_parameters()).unwrap();
    assert_eq!(CallMediaType::Video, offer.call_media_type);
    assert!(same_parameters(&sample_parameters(), &offer.to_v4().unwrap()));
    let again = Offer::new(CallMediaType::Audio, offer.opaque.clone()).unwrap();
    assert!(same_parameters(&sample_parameters(), &again.to_v4().unwrap()));
    assert_eq!(Version::V4, again.latest_version());
}

#[test]
fn answer_from_v4_round_trips() {
    let answer = Answer::from_v4(sample_parameters()).unwrap();
    assert!(same_parameters(&sample_parameters(), &answer.to_v4().unwrap()));
    assert_eq!(Version::V4, answer.latest_version());
}

#[test]
fn offer_encoding_is_exact() {
    let parameters = ConnectionParametersV4 {
        public_key: Some(vec![0xaa]),
        ice_ufrag: None,
        ice_pwd: None,
        receive_video_codecs: vec![],
        max_bitrate_bps: Some(300),
    };
    let offer = Offer::from_v4(CallMediaType::Audio, parameters).unwrap();
    // Field 4 (length 6) holding field 1 (bytes aa) and field 5 (varint 300).
    assert_eq!(vec![0x22, 0x06, 0x0a, 0x01, 0xaa, 0x28, 0xac, 0x02], offer.opaque);
}

#[test]
fn empty_opaque_is_an_offer_without_parameters() {
    let offer = Offer::new(CallMediaType::Audio, vec![]).unwrap();
    assert!(offer.to_v4().is_none());
}

#[test]
fn unknown_fields_are_skipped() {
    // Field 9 as a varint, field 10 as fixed 32 bits, then a group 11, then v4.
    let opaque = vec![0x48, 0x01, 0x55, 1, 2, 3, 4, 0x5b, 0x08, 0x05, 0x5c, 0x22, 0x02, 0x28, 0x07];
    let offer = Offer::new(CallMediaType::Audio, opaque).unwrap();
    assert_eq!(Some(7), offer.to_v4().unwrap().max_bitrate_bps);
}

#[test]
fn repeated_embedded_messages_merge() {
    // Two v4 fields: the first sets max_bitrate_bps, the second the ufrag.
    let opaque = vec![0x22, 0x02, 0x28, 0x07, 0x22, 0x03, 0x12, 0x01, b'u'];
    let answer = Answer::new(opaque).unwrap();
    let v4 = answer.to_v4().unwrap();
    assert_eq!(Some(7), v4.max_bitrate_bps);
    assert_eq!(Some("u".to_string()), v4.ice_ufrag);
}

#[test]
fn malformed_opaque_is_refused() {
    // A length running past the end.
    assert!(matches!(Offer::new(CallMediaType::Audio, vec![0x22, 0x05, 0x28]), Err(DecodeError)));
    // A key with field number zero.
    assert!(matches!(Answer::new(vec![0x02, 0x00]), Err(DecodeError)));
    // A truncated varint.
    assert!(matches!(Answer::new(vec![0x48, 0x80]), Err(DecodeError)));
    // Wire type 6 does not exist.
    assert!(matches!(Answer::new(vec![0x0e]), Err(DecodeError)));
    // v4 as a varint.
    assert!(matches!(Answer::new(vec![0x20, 0x01]), Err(DecodeError)));
    // ice_ufrag that is not UTF-8.
    assert!(matches!(Answer::new(vec![0x22, 0x03, 0x12, 0x01, 0xff]), Err(DecodeError)));
    // An end-group key with no group.
    assert!(matches!(Answer::new(vec![0x0c]), Err(DecodeError)));
    // An eleven-byte varint.
    assert!(matches!(
        Answer::new(vec![0x48, 0xff, 0xff, 0xff, 0xff, 0xff, 0xff, 0xff, 0xff, 0xff, 0xff, 0x01]),
        Err(DecodeError)
    ));
}

#[test]
fn info_strings() {
    let offer = Offer::from_v4(CallMediaType::Video, sample_parameters()).unwrap();
    assert_eq!(
        format!("opaque.len={}\tproto.version=V4\ttype=Video", offer.opaque.len()),
        offer.to_info_string()
    );
    let answer = Answer::new(vec![]).unwrap();
    assert_eq!("opaque.len=0\tproto.version=V4", answer.to_info_string());
    let candidate = IceCandidate::new(vec![1, 2, 3]);
    assert_eq!("opaque.len=3", candidate.to_info_string());
}

#[test]
fn ice_candidate_sdp_round_trips() {
    let candidate = IceCandidate::from_v3_sdp("candidate:1 1 udp 2 10.0.0.1 5000 typ host".to_string()).unwrap();
    assert_eq!(
        Some("candidate:1 1 udp 2 10.0.0.1 5000 typ host".to_string()),
        candidate.v3_sdp()
    );
    assert_eq!(None, candidate.removed_address());
}

#[test]
fn ice_candidate_removed_address_round_trips() {
    let v4 = SocketAddress { ip: IpAddress::V4([192, 0, 2, 1]), port: 443 };
    let candidate = IceCandidate::from_removed_address(v4).unwrap();
    assert_eq!(Some(v4), candidate.removed_address());
    assert_eq!(
        Some("candidate:FAKE 1 tcp 0 127.0.0.1 0 typ host".to_string()),
        candidate.v3_sdp()
    );
    let v6 = SocketAddress { ip: IpAddress::V6([0xfe, 0x80, 0, 0, 0, 0, 0, 0, 0, 0, 0, 0, 0, 0, 0, 1]), port: 0 };
    let candidate = IceCandidate::from_removed_address(v6).unwrap();
    assert_eq!(Some(v6), candidate.removed_address());
}

#[test]
fn removed_address_needs_a_usable_address() {
    // removed { ip: 3 bytes, port: 1 }
    let candidate = IceCandidate::new(vec![0x1a, 0x07, 0x0a, 0x03, 1, 2, 3, 0x10, 0x01]);
    assert_eq!(None, candidate.removed_address());
    // removed { ip: 4 bytes, port: 70000 }
    let candidate = IceCandidate::new(vec![0x1a, 0x0a, 0x0a, 0x04, 1, 2, 3, 4, 0x10, 0xf0, 0xa2, 0x04]);
    assert_eq!(None, candidate.removed_address());
    // Not a message at all.
    assert_eq!(None, IceCandidate::new(vec![0xff]).removed_address());
    assert_eq!(None, IceCandidate::new(vec![0xff]).v3_sdp());
}

#[test]
fn hangup_type_and_device_id() {
    let cases = [
        (Hangup::Normal, HangupType::Normal, None),
        (Hangup::AcceptedOnAnotherDevice(3), HangupType::AcceptedOnAnotherDevice, Some(3)),
        (Hangup::DeclinedOnAnotherDevice(4), HangupType::DeclinedOnAnotherDevice, Some(4)),
        (Hangup::BusyOnAnotherDevice(5), HangupType::BusyOnAnotherDevice, Some(5)),
        (Hangup::NeedPermission(Some(6)), HangupType::NeedPermission, Some(6)),
        (Hangup::NeedPermission(None), HangupType::NeedPermission, None),
    ];
    for (hangup, typ, device_id) in cases.iter() {
        assert_eq!((*typ, *device_id), hangup.to_type_and_device_id());
    }
    assert_eq!(Hangup::Normal, Hangup::from_type_and_device_id(HangupType::Normal, 9));
    assert_eq!(
        Hangup::NeedPermission(Some(0)),
        Hangup::from_type_and_device_id(HangupType::NeedPermission, 0)
    );
    for (hangup, typ, device_id) in cases.iter().take(5) {
        assert_eq!(*hangup, Hangup::from_type_and_device_id(*typ, device_id.unwrap_or(77)));
    }
}

#[test]
fn hangup_type_numbers() {
    for value in 0..5 {
        assert_eq!(value, HangupType::from_i32(value).unwrap().to_i32());
    }
    assert_eq!(None, HangupType::from_i32(5));
    assert_eq!(None, HangupType::from_i32(-1));
}

#[test]
fn display_strings() {
    assert_eq!("V3", Version::V3.to_display_string());
    assert_eq!("Audio", CallMediaType::Audio.to_display_string());
    assert_eq!("BusyOnAnotherDevice/12", Hangup::BusyOnAnotherDevice(12).to_display_string());
    assert_eq!("NeedPermission/None", Hangup::NeedPermission(None).to_display_string());
    assert_eq!("Normal/None", Hangup::Normal.to_display_string());
    assert_eq!("(Hangup(NeedPermission(Some(3))))", Message::Hangup(Hangup::NeedPermission(Some(3))).to_display_string());
    assert_eq!("(Hangup(AcceptedOnAnotherDevice(2)))", Message::Hangup(Hangup::AcceptedOnAnotherDevice(2)).to_display_string());
    assert_eq!("(Busy)", Message::Busy.to_display_string());
    let offer = Offer::new(CallMediaType::Video, vec![]).unwrap();
    let message = Message::Offer(offer);
    assert_eq!("(Offer(Video, ...))", message.to_display_string());
    assert_eq!(MessageType::Offer, message.typ());
    assert_eq!(MessageType::Busy, Message::Busy.typ());
}
