use ringrtc::protobuf::signaling::{IceCandidate, IceCandidateV3, SocketAddr};
use ringrtc::protobuf::wire::{read_fields, read_varint, write_field, write_fields, write_varint, WireField, WireValue};

#[test]
fn varints() {
    for value in [0u64, 1, 127, 128, 300, 16384, u32::MAX as u64, u64::MAX] {
        let mut out = Vec::new();
        write_varint(&mut out, value);
        assert_eq!(Some((value, out.len())), read_varint(&out, 0));
    }
    let mut out = Vec::new();
    write_varint(&mut out, 300);
    assert_eq!(vec![0xac, 0x02], out);
    let mut out = vec![9];
    write_varint(&mut out, u64::MAX);
    assert_eq!(11, out.len());
    assert_eq!(Some((u64::MAX, 11)), read_varint(&out, 1));
    // The tenth byte may carry only one bit.
    assert_eq!(None, read_varint(&[0xff, 0xff, 0xff, 0xff, 0xff, 0xff, 0xff, 0xff, 0xff, 0x02], 0));
    assert_eq!(None, read_varint(&[0x80], 0));
    assert_eq!(None, read_varint(&[], 0));
}

#[test]
fn fields_read_back() {
    let fields = vec![
        WireField { tag: 1, value: WireValue::Varint(5) },
        WireField { tag: 300, value: WireValue::Bytes(vec![1, 2, 3]) },
    ];
    let bytes = write_fields(&fields);
    assert_eq!(vec![0x08, 0x05, 0xe2, 0x12, 0x03, 1, 2, 3], bytes);
    let (read, end) = read_fields(&bytes, 0, None, 100).unwrap();
    assert_eq!(bytes.len(), end);
    assert_eq!(2, read.len());
    assert_eq!(1, read[0].tag);
    assert!(matches!(read[0].value, WireValue::Varint(5)));
    assert_eq!(300, read[1].tag);
    assert!(matches!(&read[1].value, WireValue::Bytes(b) if b == &vec![1, 2, 3]));
    let mut one = Vec::new();
    write_field(&mut one, &WireField { tag: 2, value: WireValue::Varint(1) });
    assert_eq!(vec![0x10, 0x01], one);
}

#[test]
fn groups_and_depth() {
    // A group 3 holding a varint field 1, then field 2.
    let bytes = vec![0x1b, 0x08, 0x01, 0x1c, 0x10, 0x02];
    let (read, _) = read_fields(&bytes, 0, None, 100).unwrap();
    assert_eq!(2, read.len());
    assert!(matches!(read[0].value, WireValue::Other));
    assert_eq!(2, read[1].tag);
    // At depth one the group's own field cannot be read.
    assert!(read_fields(&bytes, 0, None, 1).is_none());
    // A group that never ends.
    assert!(read_fields(&[0x1b, 0x08, 0x01], 0, None, 100).is_none());
    // An end key for another group.
    assert!(read_fields(&[0x1b, 0x24], 0, None, 100).is_none());
}

#[test]
fn ice_candidate_messages() {
    let message = IceCandidate {
        added_v3: Some(IceCandidateV3 { sdp: Some("a".to_string()) }),
        removed: Some(SocketAddr { ip: Some(vec![1, 2, 3, 4]), port: Some(80) }),
    };
    let bytes = message.encode();
    assert_eq!(
        vec![0x12, 0x03, 0x0a, 0x01, b'a', 0x1a, 0x08, 0x0a, 0x04, 1, 2, 3, 4, 0x10, 80],
        bytes
    );
    let back = IceCandidate::decode(&bytes).unwrap();
    assert_eq!(Some("a".to_string()), back.added_v3.unwrap().sdp);
    let removed = back.removed.unwrap();
    assert_eq!(Some(vec![1, 2, 3, 4]), removed.ip);
    assert_eq!(Some(80), removed.port);
    // A port over 32 bits keeps its low bits.
    let truncated = IceCandidate::decode(&[0x1a, 0x06, 0x10, 0x81, 0x80, 0x80, 0x80, 0x10]).unwrap();
    assert_eq!(Some(1), truncated.removed.unwrap().port);
}
