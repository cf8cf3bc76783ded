//! SRTP keys derived by Diffie-Hellman with the SFU.

use vstd::prelude::*;
use hkdf::Hkdf;
use sha2::Sha256;
use x25519_dalek::{EphemeralSecret, PublicKey};
use crate::util::bytes::slice_to_vec;

verus! {

#[verifier::external_type_specification]
#[verifier::external_body]
pub struct ExEphemeralSecret(EphemeralSecret);

/// The HKDF-SHA256 output of `len` bytes for a salt, input key material and
/// info.
pub uninterp spec fn hkdf_sha256(salt: Seq<u8>, ikm: Seq<u8>, info: Seq<u8>, len: nat) -> Seq<u8>;

/// Calls `hkdf::Hkdf::<Sha256>::new(Some(salt), ikm).expand_multi_info` with
/// the two info components.  Trusted to fill `okm` with the HKDF output for
/// the concatenated info (the crate documents feeding the components in
/// sequence as feeding their concatenation); it can only fail for outputs
/// longer than 255 SHA-256 blocks, which `requires` rules out.
#[verifier::external_body]
fn hkdf_sha256_expand(salt: &[u8], ikm: &[u8], info1: &[u8], info2: &[u8], okm_len: usize) -> (okm: Vec<u8>)
    requires
        okm_len <= 255 * 32,
    ensures
        okm@ == hkdf_sha256(salt@, ikm@, info1@ + info2@, okm_len as nat),
        okm@.len() == okm_len,
{
    let mut okm = vec![0u8; okm_len];
    let _ = Hkdf::<Sha256>::new(Some(salt), ikm).expand_multi_info(&[info1, info2], &mut okm);
    okm
}

/// The X25519 shared secret of a client secret and the server's public key
/// bytes.
pub uninterp spec fn x25519_shared(client_secret: EphemeralSecret, server_pub_key: Seq<u8>) -> Seq<u8>;

/// Calls `x25519_dalek::EphemeralSecret::diffie_hellman` with the server's
/// public key and returns the shared secret's bytes.  The crate computes them
/// from the secret and the key alone (the key's point multiplied by the
/// clamped secret); they are named `x25519_shared`.
#[verifier::external_body]
fn x25519_diffie_hellman(client_secret: EphemeralSecret, server_pub_key: [u8; 32]) -> (r: [u8; 32])
    ensures
        r@ == x25519_shared(client_secret, server_pub_key@),
{
    *client_secret.diffie_hellman(&PublicKey::from(server_pub_key)).as_bytes()
}

/// SRTP protection profiles.
#[derive(Clone, Copy, Debug, PartialEq, Eq, Structural)]
pub enum SrtpCryptoSuite {
    Aes128CmSha1,
    AeadAes128Gcm,
    AeadAes256Gcm,
}

impl SrtpCryptoSuite {
    pub open spec fn spec_key_size(self) -> nat {
        match self {
            SrtpCryptoSuite::Aes128CmSha1 => 16,
            SrtpCryptoSuite::AeadAes128Gcm => 16,
            SrtpCryptoSuite::AeadAes256Gcm => 32,
        }
    }

    pub open spec fn spec_salt_size(self) -> nat {
        match self {
            SrtpCryptoSuite::Aes128CmSha1 => 14,
            SrtpCryptoSuite::AeadAes128Gcm => 12,
            SrtpCryptoSuite::AeadAes256Gcm => 12,
        }
    }

    /// Key length in bytes.
    pub fn key_size(self) -> (n: usize)
        ensures
            n == self.spec_key_size(),
    {
        match self {
            SrtpCryptoSuite::Aes128CmSha1 => 16,
            SrtpCryptoSuite::AeadAes128Gcm => 16,
            SrtpCryptoSuite::AeadAes256Gcm => 32,
        }
    }

    /// Salt length in bytes.
    pub fn salt_size(self) -> (n: usize)
        ensures
            n == self.spec_salt_size(),
    {
        match self {
            SrtpCryptoSuite::Aes128CmSha1 => 14,
            SrtpCryptoSuite::AeadAes128Gcm => 12,
            SrtpCryptoSuite::AeadAes256Gcm => 12,
        }
    }
}

/// An SRTP key and salt for one direction.
#[derive(Clone, Debug, PartialEq, Eq)]
pub struct SrtpKey {
    pub suite: SrtpCryptoSuite,
    pub key: Vec<u8>,
    pub salt: Vec<u8>,
}

/// The client's and the server's SRTP keys.
#[derive(Clone, Debug, PartialEq, Eq)]
pub struct SrtpKeys {
    pub client: SrtpKey,
    pub server: SrtpKey,
}

pub const SRTP_KEY_LEN: usize = 16;

pub const SRTP_SALT_LEN: usize = 12;

pub const SRTP_MASTER_KEY_MATERIAL_LEN: usize = 56;

/// The HKDF label for deriving SRTP master key material from the DH secret:
/// the ASCII bytes of "Signal_Group_Call_20211105_SignallingDH_SRTPKey_KDF".
pub open spec fn srtp_kdf_label() -> Seq<u8> {
    seq![0x53u8, 0x69, 0x67, 0x6e, 0x61, 0x6c, 0x5f, 0x47, 0x72, 0x6f, 0x75, 0x70, 0x5f, 0x43, 0x61, 0x6c, 0x6c, 0x5f, 0x32, 0x30, 0x32, 0x31, 0x31, 0x31, 0x30, 0x35, 0x5f, 0x53, 0x69, 0x67, 0x6e, 0x61, 0x6c, 0x6c, 0x69, 0x6e, 0x67, 0x44, 0x48, 0x5f, 0x53, 0x52, 0x54, 0x50, 0x4b, 0x65, 0x79, 0x5f, 0x4b, 0x44, 0x46]
}

fn srtp_kdf_label_bytes() -> (r: Vec<u8>)
    ensures
        r@ == srtp_kdf_label(),
{
    let r = vec![0x53u8, 0x69, 0x67, 0x6e, 0x61, 0x6c, 0x5f, 0x47, 0x72, 0x6f, 0x75, 0x70, 0x5f, 0x43, 0x61, 0x6c, 0x6c, 0x5f, 0x32, 0x30, 0x32, 0x31, 0x31, 0x31, 0x30, 0x35, 0x5f, 0x53, 0x69, 0x67, 0x6e, 0x61, 0x6c, 0x6c, 0x69, 0x6e, 0x67, 0x44, 0x48, 0x5f, 0x53, 0x52, 0x54, 0x50, 0x4b, 0x65, 0x79, 0x5f, 0x4b, 0x44, 0x46];
    assert(r@ =~= srtp_kdf_label());
    r
}

/// The keys are the consecutive pieces of the master key material: client
/// key, client salt, server key, server salt, all for AES-128-GCM.
pub open spec fn keys_from_material(keys: SrtpKeys, m: Seq<u8>) -> bool {
    &&& keys.client.suite == SrtpCryptoSuite::AeadAes128Gcm
    &&& keys.server.suite == SrtpCryptoSuite::AeadAes128Gcm
    &&& keys.client.key@ == m.subrange(0, 16)
    &&& keys.client.salt@ == m.subrange(16, 28)
    &&& keys.server.key@ == m.subrange(28, 44)
    &&& keys.server.salt@ == m.subrange(44, 56)
}

impl SrtpKeys {
    /// Splits 56 bytes of master key material into the client's and server's
    /// key and salt.
    pub fn from_master_key_material(master_key_material: &[u8; 56]) -> (r: SrtpKeys)
        ensures
            keys_from_material(r, master_key_material@),
    {
        Self::from_material_slice(master_key_material.as_slice())
    }

    fn from_material_slice(m: &[u8]) -> (r: SrtpKeys)
        requires
            m@.len() == 56,
        ensures
            keys_from_material(r, m@),
    {
        SrtpKeys {
            client: SrtpKey {
                suite: SrtpCryptoSuite::AeadAes128Gcm,
                key: slice_to_vec(m, 0, 16),
                salt: slice_to_vec(m, 16, 28),
            },
            server: SrtpKey {
                suite: SrtpCryptoSuite::AeadAes128Gcm,
                key: slice_to_vec(m, 28, 44),
                salt: slice_to_vec(m, 44, 56),
            },
        }
    }
}

/// Progress of the Diffie-Hellman exchange with the SFU.
pub enum DheState {
    NotYetStarted,
    WaitingForServerPublicKey { client_secret: EphemeralSecret },
    Negotiated { srtp_keys: SrtpKeys },
}

/// The keys derived from a shared secret and the SFU's extra info.
pub open spec fn negotiated_keys(keys: SrtpKeys, shared_secret: Seq<u8>, hkdf_extra_info: Seq<u8>) -> bool {
    keys_from_material(
        keys,
        hkdf_sha256(Seq::new(32, |i: int| 0u8), shared_secret, srtp_kdf_label() + hkdf_extra_info, 56),
    )
}

/// Derives the SRTP keys from a Diffie-Hellman shared secret: HKDF-SHA256
/// with an all-zero salt and the SRTP label followed by the SFU's extra info,
/// split into the client's and server's key and salt.
pub fn derive_srtp_keys(shared_secret: &[u8; 32], hkdf_extra_info: &[u8]) -> (r: SrtpKeys)
    ensures
        negotiated_keys(r, shared_secret@, hkdf_extra_info@),
{
    let salt = [0u8; 32];
    let master_key_material = hkdf_sha256_expand(
        salt.as_slice(),
        shared_secret.as_slice(),
        srtp_kdf_label_bytes().as_slice(),
        hkdf_extra_info,
        SRTP_MASTER_KEY_MATERIAL_LEN,
    );
    assert(salt@ =~= Seq::new(32, |i: int| 0u8));
    SrtpKeys::from_material_slice(master_key_material.as_slice())
}

impl DheState {
    pub fn default() -> (r: DheState)
        ensures
            r is NotYetStarted,
    {
        DheState::NotYetStarted
    }

    pub fn start(client_secret: EphemeralSecret) -> (r: DheState)
        ensures
            r == (DheState::WaitingForServerPublicKey { client_secret }),
    {
        DheState::WaitingForServerPublicKey { client_secret }
    }

    /// Derives the SRTP keys once the server's public key arrives.  Only a
    /// state waiting for the key changes: it becomes negotiated, with keys
    /// derived by HKDF from the Diffie-Hellman shared secret of its client
    /// secret and the server's public key.
    pub fn negotiate(self, server_pub_key: [u8; 32], hkdf_extra_info: &[u8]) -> (r: DheState)
        ensures
            self is NotYetStarted ==> r is NotYetStarted,
            self matches DheState::WaitingForServerPublicKey { client_secret } ==> (
                r matches DheState::Negotiated { srtp_keys }
                && negotiated_keys(srtp_keys, x25519_shared(client_secret, server_pub_key@), hkdf_extra_info@)),
            self is Negotiated ==> r == self,
    {
        match self {
            DheState::NotYetStarted => self,
            DheState::WaitingForServerPublicKey { client_secret } => {
                let shared_secret = x25519_diffie_hellman(client_secret, server_pub_key);
                let srtp_keys = derive_srtp_keys(&shared_secret, hkdf_extra_info);
                DheState::Negotiated { srtp_keys }
            },
            DheState::Negotiated { .. } => self,
        }
    }

    /// `negotiate` in place.
    pub fn negotiate_in_place(&mut self, server_pub_key: [u8; 32], hkdf_extra_info: &[u8])
        ensures
            *old(self) is NotYetStarted ==> *final(self) is NotYetStarted,
            *old(self) matches DheState::WaitingForServerPublicKey { client_secret } ==> (
                *final(self) matches DheState::Negotiated { srtp_keys }
                && negotiated_keys(srtp_keys, x25519_shared(client_secret, server_pub_key@), hkdf_extra_info@)),
            *old(self) is Negotiated ==> *final(self) == *old(self),
    {
        let mut taken = DheState::NotYetStarted;
        std::mem::swap(&mut taken, self);
        *self = taken.negotiate(server_pub_key, hkdf_extra_info);
    }
}

} // verus!
