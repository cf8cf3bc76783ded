//! Text helpers: UTF-8 conversion and decimal formatting.

use vstd::prelude::*;
use vstd::utf8::*;
use vstd::string::StringSliceAdditionalSpecFns;

verus! {

/// Calls `std::str::from_utf8`.  Trusted, as its documentation says, to
/// succeed exactly on valid UTF-8, with a string whose bytes are the input.
#[verifier::external_body]
fn str_from_utf8(bytes: &[u8]) -> (r: Option<&str>)
    ensures
        r is Some <==> valid_utf8(bytes@),
        r matches Some(s) ==> s.spec_bytes() == bytes@,
{
    std::str::from_utf8(bytes).ok()
}

/// The string whose UTF-8 encoding is `bytes`, if they are valid UTF-8.
pub fn string_from_utf8(bytes: &[u8]) -> (r: Option<String>)
    ensures
        r is Some <==> valid_utf8(bytes@),
        r matches Some(s) ==> s@ == decode_utf8(bytes@),
{
    match str_from_utf8(bytes) {
        Some(s) => {
            proof {
                encode_utf8_decode_utf8(s@);
            }
            Some(s.to_owned())
        },
        None => None,
    }
}

/// The UTF-8 encoding of a string.
pub fn string_bytes(s: &String) -> (r: Vec<u8>)
    ensures
        r@ == encode_utf8(s@),
{
    let b = s.as_str().as_bytes();
    crate::util::bytes::slice_to_vec(b, 0, b.len())
}

/// Calls `String::push`.  Trusted, as its documentation says, to append the
/// character.
#[verifier::external_body]
pub(crate) fn push_char(s: &mut String, c: char)
    ensures
        final(s)@ == old(s)@.push(c),
{
    s.push(c)
}

/// The decimal digit for `d` below ten.
pub open spec fn digit_char(d: nat) -> char {
    (48 + d) as char
}

/// The decimal notation of a number: its digits, most significant first,
/// without leading zeros.
pub open spec fn decimal(n: nat) -> Seq<char>
    decreases n,
{
    if n < 10 {
        seq![digit_char(n)]
    } else {
        decimal(n / 10).push(digit_char(n % 10))
    }
}

/// Appends the decimal notation of `n`.
pub fn push_decimal(s: &mut String, n: u64)
    ensures
        final(s)@ == old(s)@ + decimal(n as nat),
    decreases n,
{
    if n >= 10 {
        push_decimal(s, n / 10);
    }
    let d = (n % 10) as u8;
    push_char(s, (48 + d) as char);
    proof {
        if n >= 10 {
            assert(decimal(n as nat) == decimal((n / 10) as nat).push(digit_char((n % 10) as nat)));
        }
    }
    assert(s@ =~= old(s)@ + decimal(n as nat));
}

/// The decimal notation of `n`.
pub fn decimal_string(n: u64) -> (r: String)
    ensures
        r@ == decimal(n as nat),
{
    let mut s = String::new();
    push_decimal(&mut s, n);
    assert(s@ =~= decimal(n as nat));
    s
}

/// The characters of a string.
pub fn chars_of(s: &str) -> (r: Vec<char>)
    ensures
        r@ == s@,
{
    broadcast use vstd::string::axiom_spec_iter;
    let mut r: Vec<char> = Vec::new();
    for c in it: s.chars()
        invariant
            it.seq() == s@,
            r@ == it.seq().take(it.index() as int),
    {
        r.push(c);
    }
    r
}
/// The lowercase hexadecimal digit for `d` below sixteen.
pub open spec fn hex_digit(d: nat) -> char {
    if d < 10 {
        (48 + d) as char
    } else {
        (87 + d) as char
    }
}

/// The first `k` bytes of a UUID as text: two hex digits each, with a hyphen
/// after the 4th, 6th, 8th and 10th byte.
pub open spec fn uuid_prefix(b: Seq<u8>, k: nat) -> Seq<char>
    decreases k,
{
    if k == 0 {
        seq![]
    } else {
        let i = k - 1;
        let byte = b[i as int];
        uuid_prefix(b, i as nat) + seq![hex_digit((byte / 16) as nat), hex_digit((byte % 16) as nat)] + if i == 3
            || i == 5 || i == 7 || i == 9 {
            seq!['-']
        } else {
            seq![]
        }
    }
}

fn hex_char(d: u8) -> (c: char)
    requires
        d < 16,
    ensures
        c == hex_digit(d as nat),
{
    if d < 10 {
        (48 + d) as char
    } else {
        (87 + d) as char
    }
}

/// Writes the bytes of a UUID as text, or gives an empty string if there are
/// not sixteen of them.
pub fn uuid_to_string(bytes: &[u8]) -> (r: String)
    ensures
        r@ == if bytes@.len() == 16 {
            uuid_prefix(bytes@, 16)
        } else {
            seq![]
        },
{
    let mut result = String::new();
    if bytes.len() != 16 {
        return result;
    }
    let mut i: usize = 0;
    while i < 16
        invariant
            i <= 16,
            bytes@.len() == 16,
            result@ == uuid_prefix(bytes@, i as nat),
        decreases 16 - i,
    {
        let byte = bytes[i];
        push_char(&mut result, hex_char(byte / 16));
        push_char(&mut result, hex_char(byte % 16));
        if i == 3 || i == 5 || i == 7 || i == 9 {
            push_char(&mut result, '-');
        }
        i = i + 1;
        assert(result@ =~= uuid_prefix(bytes@, i as nat));
    }
    result
}
} // verus!
