use ringrtc::group_call::sfu_to_device::{dispatch_sfu_to_device, PeekUpdate, SfuToDeviceActions, SfuToDeviceParts};

fn parts() -> SfuToDeviceParts {
    SfuToDeviceParts {
        content: None,
        speaker: Some(Some(7)),
        has_endorsements: true,
        device_joined_or_left: Some(true),
        has_current_devices: true,
        removed: true,
        raised_hands: Some(Some(3)),
    }
}

#[test]
fn every_part_reaches_its_handler() {
    assert_eq!(
        SfuToDeviceActions {
            decode_content: None,
            speaker: Some(7),
            endorsements: true,
            peek: PeekUpdate::ApplyPeekInfo,
            forwarding_video: true,
            removed: true,
            raised_hands: Some(3),
        },
        dispatch_sfu_to_device(parts())
    );
}

#[test]
fn nested_content_is_handled_alone() {
    let mut m = parts();
    m.content = Some(vec![1, 2, 3]);
    assert_eq!(
        SfuToDeviceActions {
            decode_content: Some(vec![1, 2, 3]),
            speaker: None,
            endorsements: false,
            peek: PeekUpdate::Unchanged,
            forwarding_video: false,
            removed: false,
            raised_hands: None,
        },
        dispatch_sfu_to_device(m)
    );
}

#[test]
fn incomplete_parts_are_ignored() {
    let m = SfuToDeviceParts {
        content: None,
        speaker: Some(None),
        has_endorsements: false,
        device_joined_or_left: Some(false),
        has_current_devices: false,
        removed: false,
        raised_hands: Some(None),
    };
    let r = dispatch_sfu_to_device(m);
    assert_eq!(None, r.speaker);
    assert_eq!(PeekUpdate::RequestRemoteDevices, r.peek);
    assert_eq!(None, r.raised_hands);
    assert!(!r.endorsements && !r.forwarding_video && !r.removed);
}
