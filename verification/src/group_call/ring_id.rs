//! Ring identifiers, derived from the SFU's era ID.

use vstd::prelude::*;
use sha2::{Digest, Sha256};
use vstd::string::StringSliceAdditionalSpecFns;
use crate::util::bytes::{le_value, lemma_le_value_bound, pow256};

verus! {

/// The SHA-256 digest of the given bytes.
pub uninterp spec fn sha256(data: Seq<u8>) -> Seq<u8>;

/// Calls `sha2::Sha256::digest` on the bytes.  Trusted to return the digest,
/// named `sha256`, which is 32 bytes long.
#[verifier::external_body]
fn sha256_digest(data: &[u8]) -> (r: Vec<u8>)
    ensures
        r@ == sha256(data@),
        r@.len() == 32,
{
    Sha256::digest(data).to_vec()
}

/// Identifies a ring of a group call.
#[derive(Clone, Copy, Debug, PartialEq, Eq, Structural)]
pub struct RingId(i64);

pub open spec fn is_hex_digit(b: u8) -> bool {
    (0x30 <= b <= 0x39) || (0x61 <= b <= 0x66) || (0x41 <= b <= 0x46)
}

pub open spec fn hex_digit_value(b: u8) -> int {
    if 0x30 <= b <= 0x39 {
        b - 0x30
    } else if 0x61 <= b <= 0x66 {
        b - 0x61 + 10
    } else {
        b - 0x41 + 10
    }
}

/// The value of a sequence of hexadecimal digits, most significant first.
pub open spec fn hex_value(s: Seq<u8>) -> int
    decreases s.len(),
{
    if s.len() == 0 {
        0
    } else {
        hex_value(s.drop_last()) * 16 + hex_digit_value(s.last())
    }
}

/// The bytes after an optional leading `+`.
pub open spec fn sign_stripped(s: Seq<u8>) -> Seq<u8> {
    if s.len() > 0 && s[0] == 0x2b {
        s.drop_first()
    } else {
        s
    }
}

pub open spec fn all_hex(s: Seq<u8>) -> bool {
    forall|i: int| 0 <= i < s.len() ==> is_hex_digit(#[trigger] s[i])
}

pub open spec fn pow16(n: nat) -> int
    decreases n,
{
    if n == 0 {
        1
    } else {
        16 * pow16((n - 1) as nat)
    }
}

/// What `u64::from_str_radix(s, 16)` gives for the bytes of a string: an
/// optional leading `+` and then at least one hex digit whose value fits.
pub open spec fn parse_hex_u64(s: Seq<u8>) -> Option<u64> {
    let digits = sign_stripped(s);
    if digits.len() > 0 && all_hex(digits) && hex_value(digits) <= u64::MAX {
        Some(hex_value(digits) as u64)
    } else {
        None
    }
}

/// The ring ID value for an era ID: 16 hex digits are read as a number (with
/// 0 mapped to -1); anything else is hashed and the first 8 bytes of the
/// digest read as a little-endian number.
pub open spec fn ring_id_value(era_id: Seq<u8>) -> i64 {
    if era_id.len() == 16 && parse_hex_u64(era_id) is Some {
        let i = parse_hex_u64(era_id).unwrap();
        if i == 0 {
            -1i64
        } else {
            i as i64
        }
    } else {
        le_value(sha256(era_id).subrange(0, 8)) as u64 as i64
    }
}

proof fn lemma_hex_value_bound(s: Seq<u8>)
    requires
        forall|i: int| 0 <= i < s.len() ==> is_hex_digit(#[trigger] s[i]),
    ensures
        0 <= hex_value(s) < pow16(s.len()),
    decreases s.len(),
{
    if s.len() > 0 {
        let t = s.drop_last();
        assert forall|i: int| 0 <= i < t.len() implies is_hex_digit(#[trigger] t[i]) by {
            assert(t[i] == s[i]);
        }
        lemma_hex_value_bound(t);
        assert(is_hex_digit(s[s.len() - 1]));
        assert(pow16(s.len()) == 16 * pow16(t.len()));
    }
}

/// Parses bytes the way `u64::from_str_radix(_, 16)` does, for inputs of at
/// most 16 bytes.
fn parse_hex_u64_exec(s: &[u8]) -> (r: Option<u64>)
    requires
        s@.len() <= 16,
    ensures
        r == parse_hex_u64(s@),
{
    let start: usize = if s.len() > 0 && s[0] == 0x2b { 1 } else { 0 };
    let ghost digits = sign_stripped(s@);
    assert(digits =~= s@.subrange(start as int, s@.len() as int));
    if start >= s.len() {
        return None;
    }
    let mut acc: u64 = 0;
    let mut i: usize = start;
    proof {
        lemma_pow16_mono(0, 16);
    }
    while i < s.len()
        invariant
            start <= i <= s.len(),
            s@.len() <= 16,
            digits =~= s@.subrange(start as int, s@.len() as int),
            digits == sign_stripped(s@),
            forall|k: int| start <= k < i ==> is_hex_digit(#[trigger] s@[k]),
            acc as int == hex_value(s@.subrange(start as int, i as int)),
            acc < pow16((i - start) as nat),
            pow16((i - start) as nat) <= pow16(16),
        decreases s.len() - i,
    {
        let b = s[i];
        let d: u64 = if 0x30 <= b && b <= 0x39 {
            (b - 0x30) as u64
        } else if 0x61 <= b && b <= 0x66 {
            (b - 0x61 + 10) as u64
        } else if 0x41 <= b && b <= 0x46 {
            (b - 0x41 + 10) as u64
        } else {
            assert(digits[i - start] == s@[i as int]);
            assert(!is_hex_digit(digits[i - start]));
            assert(!all_hex(digits));
            return None;
        };
        proof {
            reveal_with_fuel(pow16, 17);
            assert(pow16(16) == 0x1_0000_0000_0000_0000);
            assert(pow16((i + 1 - start) as nat) == 16 * pow16((i - start) as nat));
            assert(i + 1 - start <= 16);
            lemma_pow16_mono((i + 1 - start) as nat, 16);
            assert(s@.subrange(start as int, i + 1).drop_last() =~= s@.subrange(start as int, i as int));
        }
        acc = acc * 16 + d;
        i = i + 1;
    }
    assert(s@.subrange(start as int, s@.len() as int) =~= digits);
    Some(acc)
}

proof fn lemma_pow16_mono(a: nat, b: nat)
    requires
        a <= b,
    ensures
        pow16(a) <= pow16(b),
        pow16(a) >= 1,
    decreases b,
{
    if a < b {
        lemma_pow16_mono(a, (b - 1) as nat);
    } else if a > 0 {
        lemma_pow16_mono((a - 1) as nat, (a - 1) as nat);
    }
}

impl RingId {
    pub closed spec fn value(self) -> i64 {
        self.0
    }

    /// The ring ID for an era ID (see `ring_id_value`).
    pub fn from_era_id(era_id: &str) -> (r: RingId)
        ensures
            r.value() == ring_id_value(era_id.spec_bytes()),
    {
        let bytes = era_id.as_bytes();
        if bytes.len() == 16 {
            if let Some(i) = parse_hex_u64_exec(bytes) {
                if i == 0 {
                    return RingId(-1);
                }
                return RingId(i as i64);
            }
        }
        let digest = sha256_digest(bytes);
        RingId::from_digest(digest.as_slice())
    }

    /// The ring ID whose value is the first 8 bytes of a digest read as a
    /// little-endian number.
    pub fn from_digest(digest: &[u8]) -> (r: RingId)
        requires
            digest@.len() >= 8,
        ensures
            r.value() == le_value(digest@.subrange(0, 8)) as u64 as i64,
    {
        let mut acc: u64 = 0;
        let mut k: usize = 8;
        while k > 0
            invariant
                digest@.len() >= 8,
                k <= 8,
                acc as int == le_value(digest@.subrange(k as int, 8)),
                acc < pow256((8 - k) as nat),
            decreases k,
        {
            k = k - 1;
            proof {
                lemma_le_value_bound(digest@.subrange(k as int, 8));
                assert(digest@.subrange(k as int, 8).drop_first() =~= digest@.subrange(k + 1, 8));
                reveal_with_fuel(pow256, 9);
            }
            acc = (digest[k] as u64) + acc * 256;
        }
        RingId(acc as i64)
    }

}

impl From<i64> for RingId {
    fn from(raw_id: i64) -> (r: RingId) {
        RingId(raw_id)
    }
}

impl vstd::std_specs::convert::FromSpecImpl<i64> for RingId {
    open spec fn obeys_from_spec() -> bool {
        true
    }

    closed spec fn from_spec(v: i64) -> RingId {
        RingId(v)
    }
}

/// The ring ID made from a number has that number as its value.
pub proof fn lemma_ring_id_from_i64(v: i64)
    ensures
        <RingId as vstd::std_specs::convert::FromSpec<i64>>::from_spec(v).value() == v,
{
}


impl From<RingId> for i64 {
    fn from(id: RingId) -> (r: i64) {
        id.0
    }
}

impl vstd::std_specs::convert::FromSpecImpl<RingId> for i64 {
    open spec fn obeys_from_spec() -> bool {
        true
    }

    open spec fn from_spec(v: RingId) -> i64 {
        v.value()
    }
}

} // verus!
