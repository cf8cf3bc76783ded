use ringrtc::group_call::connection::CallEndReason;
use ringrtc::group_call::joining::{
    joined_on_acceptance, on_join_accepted, on_join_accepted_media, JoinMediaStep,
};
use ringrtc::group_call::ring::OutgoingRingState;
use ringrtc::group_call::srtp::{DheState, SrtpKeys};
use ringrtc::group_call::{ConnectionState, JoinState, RingId};
use x25519_dalek::{EphemeralSecret, PublicKey};

struct StepCryptoRng(rand::rngs::mock::StepRng);

impl rand::RngCore for StepCryptoRng {
    fn next_u32(&mut self) -> u32 {
        self.0.next_u32()
    }

    fn next_u64(&mut self) -> u64 {
        self.0.next_u64()
    }

    fn fill_bytes(&mut self, dest: &mut [u8]) {
        self.0.fill_bytes(dest)
    }

    fn try_fill_bytes(&mut self, dest: &mut [u8]) -> std::result::Result<(), rand::Error> {
        self.0.try_fill_bytes(dest)
    }
}

impl rand::CryptoRng for StepCryptoRng {}

fn secrets() -> (EphemeralSecret, [u8; 32]) {
    let mut rng = StepCryptoRng(rand::rngs::mock::StepRng::new(3, 7));
    let client = EphemeralSecret::random_from_rng(&mut rng);
    let server = EphemeralSecret::random_from_rng(&mut rng);
    (client, *PublicKey::from(&server).as_bytes())
}

#[test]
fn join_acceptance_starts_media_only_while_connecting() {
    let (client, server_pub_key) = secrets();
    let mut dhe = DheState::start(client);
    assert_eq!(
        JoinMediaStep::Ignore,
        on_join_accepted_media(ConnectionState::NotConnected, &mut dhe, server_pub_key, b"info")
    );
    assert!(matches!(dhe, DheState::WaitingForServerPublicKey { .. }));
    assert_eq!(
        JoinMediaStep::Ignore,
        on_join_accepted_media(ConnectionState::Connected, &mut dhe, server_pub_key, b"info")
    );
    assert_eq!(
        JoinMediaStep::StartPeerConnection,
        on_join_accepted_media(ConnectionState::Connecting, &mut dhe, server_pub_key, b"info")
    );
    assert!(matches!(dhe, DheState::Negotiated { .. }));

    let mut not_started = DheState::default();
    assert_eq!(
        JoinMediaStep::End(CallEndReason::FailedToNegotiatedSrtpKeys),
        on_join_accepted_media(ConnectionState::Connecting, &mut not_started, server_pub_key, b"info")
    );

    let keys = SrtpKeys::from_master_key_material(&[3u8; 56]);
    let mut negotiated = DheState::Negotiated { srtp_keys: keys.clone() };
    assert_eq!(
        JoinMediaStep::StartPeerConnection,
        on_join_accepted_media(ConnectionState::Connecting, &mut negotiated, server_pub_key, b"info")
    );
    match negotiated {
        DheState::Negotiated { srtp_keys } => assert_eq!(keys, srtp_keys),
        _ => panic!("keys should be kept"),
    }
}

#[test]
fn join_acceptance_adopts_join_state_and_ring_permission() {
    let me = Some(vec![1u8, 2]);
    let other = Some(vec![3u8]);
    let era = "1122334455667788";

    let (join, ring, effects) = on_join_accepted(
        JoinState::Joining,
        OutgoingRingState::WantsToRing { recipient: None },
        JoinState::Joined(9),
        &me,
        &me,
        era,
    );
    assert_eq!(JoinState::Joined(9), join);
    assert!(effects.adopted);
    assert_eq!(Some(None), effects.ring_now);
    match ring {
        OutgoingRingState::PermittedToRing { ring_id } => {
            assert_eq!(0x1122334455667788i64, i64::from(ring_id));
            assert_eq!(RingId::from_era_id(era), ring_id);
        }
        other => panic!("unexpected ring state {:?}", other),
    }

    let (_, ring, effects) =
        on_join_accepted(JoinState::Joining, OutgoingRingState::Unknown, JoinState::Pending(4), &other, &me, era);
    assert!(matches!(ring, OutgoingRingState::NotPermittedToRing));
    assert_eq!(None, effects.ring_now);

    let (_, ring, _) =
        on_join_accepted(JoinState::Joining, OutgoingRingState::Unknown, JoinState::Joined(4), &me, &None, era);
    assert!(matches!(ring, OutgoingRingState::NotPermittedToRing));

    let (join, ring, effects) =
        on_join_accepted(JoinState::Joining, OutgoingRingState::Unknown, JoinState::Joined(4), &None, &me, era);
    assert_eq!(JoinState::Joined(4), join);
    assert!(matches!(ring, OutgoingRingState::Unknown));
    assert!(effects.adopted);

    let (join, ring, effects) = on_join_accepted(
        JoinState::Joined(2),
        OutgoingRingState::Unknown,
        JoinState::Joined(4),
        &me,
        &me,
        era,
    );
    assert_eq!(JoinState::Joined(2), join);
    assert!(matches!(ring, OutgoingRingState::Unknown));
    assert!(!effects.adopted);
    assert_eq!(None, effects.ring_now);

    let (join, _, effects) = on_join_accepted(
        JoinState::NotJoined(None),
        OutgoingRingState::Unknown,
        JoinState::Joined(4),
        &me,
        &me,
        era,
    );
    assert_eq!(JoinState::NotJoined(None), join);
    assert!(!effects.adopted);
}

#[test]
fn client_joined_only_when_both_say_joined() {
    assert!(joined_on_acceptance(JoinState::Joined(1), JoinState::Joined(1)));
    assert!(!joined_on_acceptance(JoinState::Pending(1), JoinState::Joined(1)));
    assert!(!joined_on_acceptance(JoinState::Joined(1), JoinState::NotJoined(None)));
}
