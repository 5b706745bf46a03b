//! The hex text form of byte strings: two lowercase digits per byte.
use vstd::prelude::*;
use vstd::utf8::{encode_utf8, is_ascii_chars, is_ascii_chars_encode_utf8};

verus! {

/// The digit that stands for a nibble `v < 16`.
pub open spec fn hex_digit(v: u8) -> char {
    if v < 10 {
        (v + 48) as char
    } else {
        (v + 87) as char
    }
}

/// The lowercase hex text of a byte string: byte `i` gives the digits at `2i` and `2i + 1`.
pub open spec fn hex_text(b: Seq<u8>) -> Seq<char> {
    Seq::new(
        2 * b.len(),
        |k: int|
            if k % 2 == 0 {
                hex_digit(b[k / 2] / 16)
            } else {
                hex_digit(b[k / 2] % 16)
            },
    )
}

/// Relies on `String::push`: the character is appended at the end.
pub assume_specification[ std::string::String::push ](s: &mut std::string::String, ch: char)
    ensures
        final(s)@ == old(s)@.push(ch),
;

/// The digit for a nibble.
pub fn digit(v: u8) -> (c: char)
    requires
        v < 16,
    ensures
        c == hex_digit(v),
{
    if v < 10 {
        (v + 48) as char
    } else {
        (v + 87) as char
    }
}

/// Whether an ASCII byte is a hex digit of either case.
pub open spec fn is_hex_byte(c: u8) -> bool {
    (48 <= c <= 57) || (97 <= c <= 102) || (65 <= c <= 70)
}

/// The value of a hex digit byte.
pub open spec fn hex_value(c: u8) -> int {
    if c <= 57 {
        c - 48
    } else if c <= 70 {
        c - 55
    } else {
        c - 87
    }
}

/// The bytes that a hex text of even length stands for.
pub open spec fn hex_bytes(t: Seq<u8>) -> Seq<u8> {
    Seq::new(t.len() / 2, |i: int| (hex_value(t[2 * i]) * 16 + hex_value(t[2 * i + 1])) as u8)
}

/// Whether `k` is the first position of `t` that holds no hex digit.
pub open spec fn first_bad_digit(t: Seq<u8>, k: int) -> bool {
    &&& 0 <= k < t.len()
    &&& !is_hex_byte(t[k])
    &&& forall|j: int| 0 <= j < k ==> is_hex_byte(#[trigger] t[j])
}

/// Why a hex text was refused.
#[derive(Clone, Copy, Debug, PartialEq, Eq)]
pub enum HexError {
    /// A byte that is no hex digit, and its position.
    InvalidHexCharacter { c: char, index: usize },
    /// The text has an odd number of bytes.
    OddLength,
    /// The text has an even length other than twice the output's.
    InvalidStringLength,
}

/// What decoding the text `t` into `n` bytes gives.
pub open spec fn decode_spec(t: Seq<u8>, n: nat) -> Result<Seq<u8>, HexError> {
    if t.len() % 2 != 0 {
        Err(HexError::OddLength)
    } else if t.len() != 2 * n {
        Err(HexError::InvalidStringLength)
    } else if exists|k: int| first_bad_digit(t, k) {
        let k = choose|k: int| first_bad_digit(t, k);
        Err(HexError::InvalidHexCharacter { c: t[k] as char, index: k as usize })
    } else {
        Ok(hex_bytes(t))
    }
}

/// Whether a character is a lowercase hex digit.
pub open spec fn is_lower_hex_char(c: char) -> bool {
    ('0' <= c <= '9') || ('a' <= c <= 'f')
}

proof fn lemma_digit_of_nibble(v: u8)
    requires
        v < 16,
    ensures
        is_lower_hex_char(hex_digit(v)),
        is_hex_byte(hex_digit(v) as u8),
        hex_value(hex_digit(v) as u8) == v,
{
}

proof fn lemma_nibble_of_digit(c: char)
    requires
        is_lower_hex_char(c),
    ensures
        is_hex_byte(c as u8),
        0 <= hex_value(c as u8) < 16,
        hex_digit(hex_value(c as u8) as u8) == c,
{
}

proof fn lemma_ascii_lower_hex(t: Seq<char>)
    requires
        forall|k: int| 0 <= k < t.len() ==> is_lower_hex_char(#[trigger] t[k]),
    ensures
        encode_utf8(t) == Seq::new(t.len(), |k: int| t[k] as u8),
{
    assert(is_ascii_chars(t));
    is_ascii_chars_encode_utf8(t);
    assert(encode_utf8(t) =~= Seq::new(t.len(), |k: int| t[k] as u8));
}

/// Decoding the hex text of sixteen bytes gives those bytes back.
pub proof fn lemma_decode_of_encode(b: Seq<u8>)
    requires
        b.len() == 16,
    ensures
        decode_spec(encode_utf8(hex_text(b)), 16) == Ok::<Seq<u8>, HexError>(b),
{
    let t = hex_text(b);
    assert forall|k: int| 0 <= k < t.len() implies is_lower_hex_char(#[trigger] t[k]) by {
        lemma_digit_of_nibble(b[k / 2] / 16);
        lemma_digit_of_nibble(b[k / 2] % 16);
    }
    lemma_ascii_lower_hex(t);
    let e = encode_utf8(t);
    assert forall|k: int| 0 <= k < e.len() implies is_hex_byte(#[trigger] e[k]) by {
        lemma_digit_of_nibble(b[k / 2] / 16);
        lemma_digit_of_nibble(b[k / 2] % 16);
    }
    assert(!exists|k: int| first_bad_digit(e, k));
    assert forall|i: int| 0 <= i < 16 implies #[trigger] hex_bytes(e)[i] == b[i] by {
        lemma_digit_of_nibble(b[i] / 16);
        lemma_digit_of_nibble(b[i] % 16);
        assert(e[2 * i] == hex_digit(b[(2 * i) / 2] / 16) as u8);
        assert(e[2 * i + 1] == hex_digit(b[(2 * i + 1) / 2] % 16) as u8);
    }
    assert(hex_bytes(e) =~= b);
}

/// Decoding 32 lowercase hex digits succeeds, and encoding the bytes gives the
/// same text back.
pub proof fn lemma_encode_of_decode(t: Seq<char>)
    requires
        t.len() == 32,
        forall|k: int| 0 <= k < t.len() ==> is_lower_hex_char(#[trigger] t[k]),
    ensures
        decode_spec(encode_utf8(t), 16) matches Ok(b) && hex_text(b) == t,
{
    lemma_ascii_lower_hex(t);
    let e = encode_utf8(t);
    assert forall|k: int| 0 <= k < e.len() implies is_hex_byte(#[trigger] e[k]) by {
        lemma_nibble_of_digit(t[k]);
    }
    assert(!exists|k: int| first_bad_digit(e, k));
    let b = hex_bytes(e);
    assert forall|k: int| 0 <= k < 32 implies #[trigger] hex_text(b)[k] == t[k] by {
        let i = k / 2;
        lemma_nibble_of_digit(t[2 * i]);
        lemma_nibble_of_digit(t[2 * i + 1]);
        let hi = hex_value(e[2 * i]);
        let lo = hex_value(e[2 * i + 1]);
        assert(b[i] == hi * 16 + lo);
        assert(b[i] / 16 == hi && b[i] % 16 == lo) by (nonlinear_arith)
            requires
                b[i] == hi * 16 + lo,
                0 <= hi < 16,
                0 <= lo < 16,
        ;
    }
    assert(hex_text(b) =~= t);
}

/// Decoding refuses a text of any length other than 32 bytes, and a text that
/// holds a byte which is no hex digit.
pub proof fn lemma_decode_rejects(t: Seq<u8>)
    requires
        t.len() != 32 || exists|k: int| 0 <= k < t.len() && !is_hex_byte(#[trigger] t[k]),
    ensures
        decode_spec(t, 16) is Err,
{
    if t.len() == 32 {
        let k0 = choose|k: int| 0 <= k < t.len() && !is_hex_byte(#[trigger] t[k]);
        lemma_first_bad_exists(t, k0);
    }
}

proof fn lemma_first_bad_exists(t: Seq<u8>, k0: int)
    requires
        0 <= k0 < t.len(),
        !is_hex_byte(t[k0]),
    ensures
        exists|k: int| first_bad_digit(t, k),
    decreases k0,
{
    if exists|j: int| 0 <= j < k0 && !is_hex_byte(#[trigger] t[j]) {
        let j = choose|j: int| 0 <= j < k0 && !is_hex_byte(#[trigger] t[j]);
        lemma_first_bad_exists(t, j);
    } else {
        assert(first_bad_digit(t, k0));
    }
}

/// Relies on `hex::decode_to_slice`: it checks the length (odd first), then
/// decodes digit pairs in order and stops at the first byte that is no hex digit.
#[verifier::external_body]
pub(crate) fn decode_to_array(data: &[u8], out: &mut [u8; 16]) -> (r: Result<(), HexError>)
    ensures
        match decode_spec(data@, 16) {
            Ok(b) => r == Ok::<(), HexError>(()) && final(out)@ == b,
            Err(e) => r == Err::<(), HexError>(e),
        },
{
    match hex::decode_to_slice(data, out) {
        Ok(()) => Ok(()),
        Err(hex::FromHexError::InvalidHexCharacter { c, index }) => Err(
            HexError::InvalidHexCharacter { c, index },
        ),
        Err(hex::FromHexError::OddLength) => Err(HexError::OddLength),
        Err(hex::FromHexError::InvalidStringLength) => Err(HexError::InvalidStringLength),
    }
}

} // verus!
