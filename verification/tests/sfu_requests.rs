use ringrtc::error::RingRtcError;
use ringrtc::group_call::connection::{end_reason_for_join_failure, CallEndReason};
use ringrtc::group_call::sfu_requests::{
    join_failure_error, join_state_for_status, room_id_header, ClientStatus, JoinFailure,
};
use ringrtc::group_call::JoinState;

#[test]
fn room_id_header_is_lowercase_hex() {
    assert_eq!(Some("00ff10ab".to_string()), room_id_header(Some(&[0x00, 0xff, 0x10, 0xab])));
    assert_eq!(Some(String::new()), room_id_header(Some(&[])));
    assert_eq!(None, room_id_header(None));
}

#[test]
fn join_response_status_gives_join_state() {
    assert_eq!(JoinState::Joined(7), join_state_for_status(ClientStatus::Active, 7));
    assert_eq!(JoinState::Pending(7), join_state_for_status(ClientStatus::Pending, 7));
    assert_eq!(JoinState::Pending(7), join_state_for_status(ClientStatus::Blocked, 7));
}

#[test]
fn join_failures_map_to_errors_and_end_reasons() {
    assert!(matches!(join_failure_error(JoinFailure::RequestFailed), RingRtcError::SfuClientRequestFailed));
    assert!(matches!(join_failure_error(JoinFailure::GroupCallFull), RingRtcError::GroupCallFull));
    assert!(matches!(
        join_failure_error(JoinFailure::Status(418)),
        RingRtcError::UnexpectedResponseCodeFromSFu(418)
    ));
    assert_eq!(
        CallEndReason::HasMaxDevices,
        end_reason_for_join_failure(&join_failure_error(JoinFailure::GroupCallFull))
    );
}
