use std::convert::TryInto;

use hkdf::Hkdf;
use sha2::Sha256;
use x25519_dalek::{EphemeralSecret, PublicKey};

use ringrtc::group_call::srtp::{derive_srtp_keys, DheState, SrtpCryptoSuite, SrtpKey, SrtpKeys};

#[test]
fn srtp_keys_from_master_key_material() {
    assert_eq!(
        SrtpKeys {
            client: SrtpKey {
                suite: SrtpCryptoSuite::AeadAes128Gcm,
                key: (1..=16).collect(),
                salt: (17..=28).collect(),
            },
            server: SrtpKey {
                suite: SrtpCryptoSuite::AeadAes128Gcm,
                key: (29..=44).collect(),
                salt: (45..=56).collect(),
            }
        },
        SrtpKeys::from_master_key_material(&((1..=56).collect::<Vec<u8>>().try_into().unwrap()))
    )
}

struct NotCryptoRng<T: rand::RngCore>(T);

impl<T: rand::RngCore> rand::RngCore for NotCryptoRng<T> {
    fn next_u32(&mut self) -> u32 {
        self.0.next_u32()
    }

    fn next_u64(&mut self) -> u64 {
        self.0.next_u64()
    }

    fn fill_bytes(&mut self, dest: &mut [u8]) {
        self.0.fill_bytes(dest)
    }

    fn try_fill_bytes(&mut self, dest: &mut [u8]) -> std::result::Result<(), rand::Error> {
        self.0.try_fill_bytes(dest)
    }
}

impl<T: rand::RngCore> rand::CryptoRng for NotCryptoRng<T> {}

#[test]
fn dhe_state() {
    let mut rand = NotCryptoRng(rand::rngs::mock::StepRng::new(1, 1));
    let client_secret = EphemeralSecret::random_from_rng(&mut rand);
    let server_secret = EphemeralSecret::random_from_rng(&mut rand);
    let client_pub_key = PublicKey::from(&client_secret);
    let server_pub_key = PublicKey::from(&server_secret);
    let server_cert = &b"server_cert"[..];

    let mut state = DheState::default();
    assert!(matches!(state, DheState::NotYetStarted));
    state.negotiate_in_place(*server_pub_key.as_bytes(), server_cert);
    assert!(matches!(state, DheState::NotYetStarted));

    state = DheState::start(client_secret);
    assert!(matches!(state, DheState::WaitingForServerPublicKey { .. }));
    state.negotiate_in_place(*server_pub_key.as_bytes(), server_cert);
    assert!(matches!(state, DheState::Negotiated { .. }));
    if let DheState::Negotiated { srtp_keys } = state {
        let server_master_key_material = {
            let shared_secret = server_secret.diffie_hellman(&client_pub_key);
            let mut master_key_material = [0u8; 56];
            Hkdf::<Sha256>::new(Some(&[0u8; 32]), shared_secret.as_bytes())
                .expand_multi_info(
                    &[
                        b"Signal_Group_Call_20211105_SignallingDH_SRTPKey_KDF",
                        server_cert,
                    ],
                    &mut master_key_material,
                )
                .unwrap();
            master_key_material
        };
        let expected_srtp_keys = SrtpKeys::from_master_key_material(&server_master_key_material);
        assert_eq!(expected_srtp_keys, srtp_keys);
    };
}

#[test]
fn negotiated_keys_stay_negotiated() {
    let keys = SrtpKeys::from_master_key_material(&[7u8; 56]);
    let mut state = DheState::Negotiated { srtp_keys: keys.clone() };
    state.negotiate_in_place([9u8; 32], b"other");
    match state {
        DheState::Negotiated { srtp_keys } => assert_eq!(keys, srtp_keys),
        _ => panic!("state should stay negotiated"),
    }
}

#[test]
fn crypto_suite_sizes() {
    assert_eq!(16, SrtpCryptoSuite::Aes128CmSha1.key_size());
    assert_eq!(14, SrtpCryptoSuite::Aes128CmSha1.salt_size());
    assert_eq!(16, SrtpCryptoSuite::AeadAes128Gcm.key_size());
    assert_eq!(12, SrtpCryptoSuite::AeadAes128Gcm.salt_size());
    assert_eq!(32, SrtpCryptoSuite::AeadAes256Gcm.key_size());
    assert_eq!(12, SrtpCryptoSuite::AeadAes256Gcm.salt_size());
}

#[test]
fn srtp_keys_derived_from_shared_secret() {
    let shared_secret = [5u8; 32];
    let extra = &b"extra info"[..];
    let mut master_key_material = [0u8; 56];
    Hkdf::<Sha256>::new(Some(&[0u8; 32]), &shared_secret)
        .expand_multi_info(
            &[b"Signal_Group_Call_20211105_SignallingDH_SRTPKey_KDF", extra],
            &mut master_key_material,
        )
        .unwrap();
    let keys = derive_srtp_keys(&shared_secret, extra);
    assert_eq!(SrtpKeys::from_master_key_material(&master_key_material), keys);
    assert_ne!(keys, derive_srtp_keys(&shared_secret, b"other info"));
    assert_ne!(keys.client.key, shared_secret[..16].to_vec());
}
