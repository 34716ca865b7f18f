//! Hexadecimal text: what it denotes, and the calls that read and write it.

use vstd::prelude::*;

verus! {

/// A hexadecimal digit, in either case.
pub open spec fn is_hex_digit(c: char) -> bool {
    ('0' <= c && c <= '9') || ('a' <= c && c <= 'f') || ('A' <= c && c <= 'F')
}

/// The value of a hexadecimal digit.
pub open spec fn hex_digit_value(c: char) -> nat {
    if '0' <= c && c <= '9' {
        (c as nat - '0' as nat) as nat
    } else if 'a' <= c && c <= 'f' {
        (c as nat - 'a' as nat + 10) as nat
    } else {
        (c as nat - 'A' as nat + 10) as nat
    }
}

/// Every character is a hexadecimal digit.
pub open spec fn all_hex_digits(s: Seq<char>) -> bool {
    forall|i: int| 0 <= i < s.len() ==> is_hex_digit(#[trigger] s[i])
}

/// Text that decodes to bytes: an even number of hexadecimal digits.
pub open spec fn is_hex_text(s: Seq<char>) -> bool {
    s.len() % 2 == 0 && all_hex_digits(s)
}

/// The bytes that hexadecimal text denotes, two digits per byte, high digit first.
pub open spec fn hex_bytes(s: Seq<char>) -> Seq<u8> {
    Seq::new(
        s.len() / 2,
        |i: int| (16 * hex_digit_value(s[2 * i]) + hex_digit_value(s[2 * i + 1])) as u8,
    )
}

/// The lower-case hexadecimal digit for a value below sixteen.
pub open spec fn lower_hex_digit(v: nat) -> char {
    if v < 10 {
        (48 + v) as char
    } else {
        (87 + v) as char
    }
}

/// Lower-case hexadecimal text of bytes, two digits per byte, high digit first.
pub open spec fn hex_text(bytes: Seq<u8>) -> Seq<char> {
    Seq::new(
        2 * bytes.len(),
        |i: int|
            if i % 2 == 0 {
                lower_hex_digit((bytes[i / 2] / 16) as nat)
            } else {
                lower_hex_digit((bytes[i / 2] % 16) as nat)
            },
    )
}

/// The value of a non-empty run of hexadecimal digits, most significant first.
pub open spec fn hex_number_value(digits: Seq<char>) -> nat
    decreases digits.len(),
{
    if digits.len() == 0 {
        0
    } else {
        16 * hex_number_value(digits.drop_last()) + hex_digit_value(digits.last())
    }
}

/// The digits of number text: the text without one leading `+`.
pub open spec fn number_digits(s: Seq<char>) -> Seq<char> {
    if s.len() > 0 && s[0] == '+' {
        s.drop_first()
    } else {
        s
    }
}

/// Text that reads as a `u32` in base sixteen: an optional `+`, then at least one
/// hexadecimal digit, denoting a value that fits in 32 bits.
pub open spec fn is_hex_u32_text(s: Seq<char>) -> bool {
    let digits = number_digits(s);
    digits.len() > 0 && all_hex_digits(digits) && hex_number_value(digits) <= u32::MAX
}

proof fn lemma_lower_hex_digit(v: nat)
    requires
        v < 16,
    ensures
        is_hex_digit(lower_hex_digit(v)),
        hex_digit_value(lower_hex_digit(v)) == v,
{
    if v < 10 {
        assert(((48 + v) as char) as nat == 48 + v);
    } else {
        assert(((87 + v) as char) as nat == 87 + v);
    }
}

/// Lower-case hexadecimal text decodes back to the bytes it was written from.
pub proof fn lemma_hex_roundtrip(bytes: Seq<u8>)
    ensures
        is_hex_text(hex_text(bytes)),
        hex_bytes(hex_text(bytes)) == bytes,
{
    let t = hex_text(bytes);
    assert forall|i: int| 0 <= i < t.len() implies is_hex_digit(#[trigger] t[i]) by {
        if i % 2 == 0 {
            lemma_lower_hex_digit((bytes[i / 2] / 16) as nat);
        } else {
            lemma_lower_hex_digit((bytes[i / 2] % 16) as nat);
        }
    }
    assert forall|i: int| 0 <= i < bytes.len() implies #[trigger] hex_bytes(t)[i] == bytes[i] by {
        lemma_lower_hex_digit((bytes[i] / 16) as nat);
        lemma_lower_hex_digit((bytes[i] % 16) as nat);
        assert((2 * i) % 2 == 0);
        assert((2 * i + 1) % 2 == 1);
        assert((2 * i) / 2 == i);
        assert((2 * i + 1) / 2 == i);
    }
    assert(hex_bytes(t) =~= bytes);
}

/// A lower-case hexadecimal digit.
pub open spec fn is_lower_hex_digit(c: char) -> bool {
    ('0' <= c && c <= '9') || ('a' <= c && c <= 'f')
}

proof fn lemma_digit_of_value(c: char)
    requires
        is_lower_hex_digit(c),
    ensures
        hex_digit_value(c) < 16,
        lower_hex_digit(hex_digit_value(c)) == c,
{
    let v = hex_digit_value(c);
    if '0' <= c && c <= '9' {
        assert(v + 48 == c as nat);
        assert(((48 + v) as char) as nat == c as nat);
    } else {
        assert(v + 87 == c as nat);
        assert(((87 + v) as char) as nat == c as nat);
    }
}

/// Lower-case hexadecimal text of even length is written back unchanged from the
/// bytes it denotes.
pub proof fn lemma_lower_hex_text_roundtrip(s: Seq<char>)
    requires
        s.len() % 2 == 0,
        forall|i: int| 0 <= i < s.len() ==> is_lower_hex_digit(#[trigger] s[i]),
    ensures
        hex_text(hex_bytes(s)) == s,
{
    let b = hex_bytes(s);
    let t = hex_text(b);
    assert forall|i: int| 0 <= i < s.len() implies #[trigger] t[i] == s[i] by {
        let k = i / 2;
        assert(0 <= 2 * k + 1 < s.len());
        lemma_digit_of_value(s[2 * k]);
        lemma_digit_of_value(s[2 * k + 1]);
        let hi = hex_digit_value(s[2 * k]);
        let lo = hex_digit_value(s[2 * k + 1]);
        assert(16 * hi + lo < 256);
        assert(b[k] == 16 * hi + lo);
        assert(b[k] / 16 == hi);
        assert(b[k] % 16 == lo);
        if i % 2 == 0 {
            assert(i == 2 * k);
        } else {
            assert(i == 2 * k + 1);
        }
    }
    assert(t =~= s);
}

/// The value of bytes read most significant first.
pub open spec fn be_value(bytes: Seq<u8>) -> nat
    decreases bytes.len(),
{
    if bytes.len() == 0 {
        0
    } else {
        256 * be_value(bytes.drop_last()) + bytes.last() as nat
    }
}

/// The digits of lower-case hexadecimal text of bytes have the bytes' value, and
/// are lower-case hexadecimal digits.
pub proof fn lemma_hex_text_value(bytes: Seq<u8>)
    ensures
        hex_number_value(hex_text(bytes)) == be_value(bytes),
        forall|i: int| 0 <= i < hex_text(bytes).len() ==> is_lower_hex_digit(#[trigger] hex_text(bytes)[i]),
    decreases bytes.len(),
{
    let t = hex_text(bytes);
    assert forall|i: int| 0 <= i < t.len() implies is_lower_hex_digit(#[trigger] t[i]) by {
        lemma_lower_digit((bytes[i / 2] / 16) as nat);
        lemma_lower_digit((bytes[i / 2] % 16) as nat);
    }
    if bytes.len() > 0 {
        let p = bytes.drop_last();
        let b = bytes.last();
        lemma_hex_text_value(p);
        let n = bytes.len() as int;
        assert(t.drop_last().drop_last() =~= hex_text(p));
        assert((2 * n - 2) % 2 == 0 && (2 * n - 2) / 2 == n - 1);
        assert((2 * n - 1) % 2 == 1 && (2 * n - 1) / 2 == n - 1);
        assert(t.drop_last().last() == lower_hex_digit((b / 16) as nat));
        assert(t.last() == lower_hex_digit((b % 16) as nat));
        lemma_lower_hex_digit((b / 16) as nat);
        lemma_lower_hex_digit((b % 16) as nat);
        let hi = hex_digit_value(t.drop_last().last());
        let lo = hex_digit_value(t.last());
        assert(hex_number_value(t.drop_last()) == 16 * hex_number_value(hex_text(p)) + hi);
        assert(hex_number_value(t) == 16 * hex_number_value(t.drop_last()) + lo);
        assert(16 * hi + lo == b);
    }
}

proof fn lemma_lower_digit(v: nat)
    requires
        v < 16,
    ensures
        is_lower_hex_digit(lower_hex_digit(v)),
{
    if v < 10 {
        assert(((48 + v) as char) as nat == 48 + v);
    } else {
        assert(((87 + v) as char) as nat == 87 + v);
    }
}

#[verifier::external_type_specification]
#[verifier::external_body]
pub struct ExFromHexError(hex::FromHexError);

#[verifier::external_type_specification]
#[verifier::external_body]
pub struct ExParseIntError(std::num::ParseIntError);

#[verifier::external_type_specification]
#[verifier::external_body]
pub struct ExHexToArrayError(bitcoin::hex::HexToArrayError);

/// Calls `hex::decode`, which reads pairs of hexadecimal digits of either case
/// and fails on text of odd length or on any other character.
#[verifier::external_body]
pub(crate) fn decode_hex(text: &str) -> (r: Result<Vec<u8>, hex::FromHexError>)
    ensures
        r is Ok <==> is_hex_text(text@),
        r matches Ok(bytes) ==> bytes@ == hex_bytes(text@),
{
    hex::decode(text)
}

/// Calls `hex::encode`, which writes each byte as two lower-case hexadecimal
/// digits, high digit first.
#[verifier::external_body]
pub(crate) fn encode_hex(bytes: &[u8]) -> (r: String)
    ensures
        r@ == hex_text(bytes@),
{
    hex::encode(bytes)
}

/// Calls `u32::from_str_radix` with radix sixteen, which accepts an optional `+`
/// followed by hexadecimal digits whose value fits in a `u32`.
#[verifier::external_body]
pub(crate) fn parse_u32_hex(text: &str) -> (r: Result<u32, std::num::ParseIntError>)
    ensures
        r is Ok <==> is_hex_u32_text(text@),
        r matches Ok(v) ==> v as nat == hex_number_value(number_digits(text@)),
{
    u32::from_str_radix(text, 16)
}

/// Calls `<bitcoin::BlockHash as FromStr>::from_str`, which reads exactly
/// sixty-four hexadecimal digits and reverses the decoded bytes (hashes are
/// displayed last byte first); the result is the hash's internal byte array.
#[verifier::external_body]
pub(crate) fn parse_display_hash(text: &str) -> (r: Result<[u8; 32], bitcoin::hex::HexToArrayError>)
    ensures
        r is Ok <==> (text@.len() == 64 && all_hex_digits(text@)),
        r matches Ok(bytes) ==> bytes@ == hex_bytes(text@).reverse(),
{
    text.parse::<bitcoin::BlockHash>().map(<bitcoin::BlockHash as bitcoin::hashes::Hash>::to_byte_array)
}

} // verus!
