//! CSRF protection: a per-session secret, tokens that mask it with a fresh
//! random value, and the check that a posted token was masked from the secret.
//!
//! A token is `hex(mask) + ":" + hex(mask XOR secret)`, both halves written
//! with `hex::encode` (64 lower-case digits each), so every token differs while
//! all of them are checked against the same secret.

use vstd::prelude::*;
use vstd::string::*;
use vstd::utf8::*;
use crate::text::hex_digit;

verus! {

/// The error of `hex::decode`, carried opaquely.
#[verifier::external_type_specification]
#[verifier::external_body]
pub struct ExFromHexError(hex::FromHexError);

/// Lower-case hexadecimal rendering: two digits per byte, high nibble first.
pub open spec fn hex_encoding(bytes: Seq<u8>) -> Seq<char> {
    Seq::new(
        2 * bytes.len(),
        |i: int|
            if i % 2 == 0 {
                hex_digit(bytes[i / 2] as int / 16)
            } else {
                hex_digit(bytes[i / 2] as int % 16)
            },
    )
}

/// The value of an ASCII hexadecimal digit of either case.
pub open spec fn hex_value(c: u8) -> Option<int> {
    if 48 <= c <= 57 {
        Some(c - 48)
    } else if 97 <= c <= 102 {
        Some(c - 87)
    } else if 65 <= c <= 70 {
        Some(c - 55)
    } else {
        None
    }
}

/// Decoding of hexadecimal text: defined when its length is even and every
/// byte is a digit; each pair of digits gives one byte.
pub open spec fn hex_decoding(text: Seq<u8>) -> Option<Seq<u8>> {
    if text.len() % 2 == 0 && forall|i: int| 0 <= i < text.len() ==> #[trigger] hex_value(text[i]) is Some {
        Some(
            Seq::new(
                text.len() / 2,
                |i: int|
                    (hex_value(text[2 * i]).unwrap() * 16 + hex_value(text[2 * i + 1]).unwrap()) as u8,
            ),
        )
    } else {
        None
    }
}

/// Byte-wise exclusive or of two sequences of the same length.
pub open spec fn xor_bytes(a: Seq<u8>, b: Seq<u8>) -> Seq<u8> {
    Seq::new(a.len(), |i: int| a[i] ^ b[i])
}

/// The token that `mask` hides `secret` behind.
pub open spec fn masked_token(mask: Seq<u8>, secret: Seq<u8>) -> Seq<char> {
    hex_encoding(mask) + seq![':'] + hex_encoding(xor_bytes(mask, secret))
}

/// A half of a token decoded, or 32 zero bytes where it is not hexadecimal.
pub open spec fn decoded_or_zeros(part: Seq<u8>) -> Seq<u8> {
    match hex_decoding(part) {
        Some(v) => v,
        None => Seq::new(32, |i: int| 0u8),
    }
}

/// The token splits at `:` into exactly two parts of 64 bytes each.
pub open spec fn token_well_formed(token: Seq<u8>) -> bool {
    &&& token.len() == 129
    &&& token[64] == 58
    &&& forall|i: int| 0 <= i < 129 && i != 64 ==> #[trigger] token[i] != 58
}

/// The bytes of `token` are a well-formed token whose second half, unmasked
/// with `secret`, equals its first half.
pub open spec fn token_accepted(token: Seq<u8>, secret: Seq<u8>) -> bool {
    &&& token_well_formed(token)
    &&& forall|i: int|
        0 <= i < 32 ==> #[trigger] decoded_or_zeros(token.subrange(65, 129))[i] ^ secret[i]
            == decoded_or_zeros(token.subrange(0, 64))[i]
}

/// Each hexadecimal digit is an ASCII character other than `:` whose byte
/// decodes to the digit's value.
proof fn lemma_hex_digit(d: int)
    requires
        0 <= d < 16,
    ensures
        hex_value(hex_digit(d) as u8) == Some(d),
        hex_digit(d) as u8 != 58,
        '\0' <= hex_digit(d) <= '\u{7f}',
{
    if d == 0 {} else if d == 1 {} else if d == 2 {} else if d == 3 {} else if d == 4 {}
    else if d == 5 {} else if d == 6 {} else if d == 7 {} else if d == 8 {} else if d == 9 {}
    else if d == 10 {} else if d == 11 {} else if d == 12 {} else if d == 13 {} else if d == 14 {}
    else {}
}

/// Hexadecimal renderings are ASCII, and their bytes decode back to the
/// rendered bytes.
pub proof fn lemma_hex_round_trip(bytes: Seq<u8>)
    ensures
        is_ascii_chars(hex_encoding(bytes)),
        encode_utf8(hex_encoding(bytes)).len() == 2 * bytes.len(),
        forall|i: int| 0 <= i < 2 * bytes.len() ==> #[trigger] encode_utf8(hex_encoding(bytes))[i] != 58,
        hex_decoding(encode_utf8(hex_encoding(bytes))) == Some(bytes),
{
    let h = hex_encoding(bytes);
    assert forall|i: int| 0 <= i < h.len() implies '\0' <= #[trigger] h[i] <= '\u{7f}'
        && hex_value(h[i] as u8) is Some && h[i] as u8 != 58 by {
        if i % 2 == 0 {
            lemma_hex_digit(bytes[i / 2] as int / 16);
        } else {
            lemma_hex_digit(bytes[i / 2] as int % 16);
        }
    }
    assert(is_ascii_chars(h));
    is_ascii_chars_encode_utf8(h);
    let e = encode_utf8(h);
    assert forall|i: int| 0 <= i < e.len() implies #[trigger] hex_value(e[i]) is Some by {
        assert(e[i] == h[i] as u8);
    }
    assert forall|i: int| 0 <= i < bytes.len() implies
        (hex_value(e[2 * i]).unwrap() * 16 + hex_value(e[2 * i + 1]).unwrap()) as u8 == #[trigger] bytes[i] by {
        let b = bytes[i];
        assert(h[2 * i] == hex_digit(b as int / 16));
        assert(h[2 * i + 1] == hex_digit(b as int % 16));
        lemma_hex_digit(b as int / 16);
        lemma_hex_digit(b as int % 16);
        assert(e[2 * i] == h[2 * i] as u8);
        assert(e[2 * i + 1] == h[2 * i + 1] as u8);
    }
    assert(hex_decoding(e).unwrap() =~= bytes);
}

/// The ASCII bytes of a token are its characters, and its halves are the
/// bytes of the two hexadecimal renderings.
proof fn lemma_token_bytes(mask: Seq<u8>, secret: Seq<u8>)
    requires
        mask.len() == 32,
        secret.len() == 32,
    ensures
        token_well_formed(encode_utf8(masked_token(mask, secret))),
        encode_utf8(masked_token(mask, secret)).subrange(0, 64) == encode_utf8(hex_encoding(mask)),
        encode_utf8(masked_token(mask, secret)).subrange(65, 129)
            == encode_utf8(hex_encoding(xor_bytes(mask, secret))),
{
    let h1 = hex_encoding(mask);
    let h2 = hex_encoding(xor_bytes(mask, secret));
    let t = masked_token(mask, secret);
    lemma_hex_round_trip(mask);
    lemma_hex_round_trip(xor_bytes(mask, secret));
    is_ascii_chars_encode_utf8(h1);
    is_ascii_chars_encode_utf8(h2);
    assert(is_ascii_chars(seq![':']));
    assert(is_ascii_chars(h1 + seq![':']));
    assert(is_ascii_chars(t));
    is_ascii_chars_encode_utf8(t);
    let e = encode_utf8(t);
    assert(e.len() == 129);
    assert(e[64] == t[64] as u8);
    assert(t[64] == ':');
    assert forall|i: int| 0 <= i < 129 && i != 64 implies #[trigger] e[i] != 58 by {
        assert(e[i] == t[i] as u8);
        if i < 64 {
            assert(t[i] == h1[i]);
            assert(encode_utf8(h1)[i] == h1[i] as u8);
        } else {
            assert(t[i] == h2[i - 65]);
            assert(encode_utf8(h2)[i - 65] == h2[i - 65] as u8);
        }
    }
    assert forall|i: int| 0 <= i < 64 implies #[trigger] e.subrange(0, 64)[i] == encode_utf8(h1)[i] by {
        assert(e[i] == t[i] as u8);
        assert(t[i] == h1[i]);
    }
    assert(e.subrange(0, 64) =~= encode_utf8(h1));
    assert forall|i: int| 0 <= i < 64 implies #[trigger] e.subrange(65, 129)[i] == encode_utf8(h2)[i] by {
        assert(e[i + 65] == t[i + 65] as u8);
        assert(t[i + 65] == h2[i]);
    }
    assert(e.subrange(65, 129) =~= encode_utf8(h2));
}

/// A token masked from a secret is accepted for that secret, whatever the
/// mask bytes were.
pub proof fn lemma_masked_token_accepted(mask: Seq<u8>, secret: Seq<u8>)
    requires
        mask.len() == 32,
        secret.len() == 32,
    ensures
        token_accepted(encode_utf8(masked_token(mask, secret)), secret),
{
    lemma_token_bytes(mask, secret);
    lemma_hex_round_trip(mask);
    lemma_hex_round_trip(xor_bytes(mask, secret));
    let e = encode_utf8(masked_token(mask, secret));
    assert(decoded_or_zeros(e.subrange(0, 64)) == mask);
    assert(decoded_or_zeros(e.subrange(65, 129)) == xor_bytes(mask, secret));
    assert forall|i: int| 0 <= i < 32 implies #[trigger] xor_bytes(mask, secret)[i] ^ secret[i] == mask[i] by {
        let m = mask[i];
        let s = secret[i];
        assert((m ^ s) ^ s == m) by (bit_vector);
    }
}

/// A token masked from one secret is refused for every other secret,
/// whatever the mask bytes were.
pub proof fn lemma_other_secret_refused(mask: Seq<u8>, secret: Seq<u8>, other: Seq<u8>)
    requires
        mask.len() == 32,
        secret.len() == 32,
        other.len() == 32,
        secret != other,
    ensures
        !token_accepted(encode_utf8(masked_token(mask, secret)), other),
{
    lemma_token_bytes(mask, secret);
    lemma_hex_round_trip(mask);
    lemma_hex_round_trip(xor_bytes(mask, secret));
    let e = encode_utf8(masked_token(mask, secret));
    assert(decoded_or_zeros(e.subrange(0, 64)) == mask);
    assert(decoded_or_zeros(e.subrange(65, 129)) == xor_bytes(mask, secret));
    let i = choose|i: int| 0 <= i < 32 && secret[i] != other[i];
    assert(exists|i: int| 0 <= i < 32 && secret[i] != other[i]) by {
        if forall|i: int| 0 <= i < 32 ==> secret[i] == other[i] {
            assert(secret =~= other);
        }
    }
    let m = mask[i];
    let s = secret[i];
    let o = other[i];
    assert(s != o ==> (m ^ s) ^ o != m) by (bit_vector);
    assert(xor_bytes(mask, secret)[i] ^ other[i] != mask[i]);
}

/// Every token is 129 characters long: two halves of 64 hexadecimal digits
/// around a colon.
pub proof fn lemma_masked_token_length(mask: Seq<u8>, secret: Seq<u8>)
    requires
        mask.len() == 32,
        secret.len() == 32,
    ensures
        masked_token(mask, secret).len() == 129,
{
}

/// A token that does not split at `:` into two halves of 64 bytes is refused,
/// whatever the secret.
pub proof fn lemma_malformed_token_refused(token: Seq<u8>, secret: Seq<u8>)
    requires
        !token_well_formed(token),
    ensures
        !token_accepted(token, secret),
{
}

/// `hex::encode`: the contract states its documented output, two lower-case
/// hexadecimal digits per byte in order.
#[verifier::external_body]
fn hex_encode(data: &[u8]) -> (text: String)
    ensures
        text@ == hex_encoding(data@),
{
    hex::encode(data)
}

/// `hex::decode`: the contract states what its source computes: an error for
/// odd lengths or a byte that is no hexadecimal digit, else the pairs of digits
/// as bytes.
#[verifier::external_body]
fn hex_decode(text: &[u8]) -> (res: Result<Vec<u8>, hex::FromHexError>)
    ensures
        res is Ok <==> hex_decoding(text@) is Some,
        res matches Ok(v) ==> hex_decoding(text@) == Some(v@),
{
    hex::decode(text)
}

/// `rand::fill` on 32 bytes from the thread-local generator. Nothing is
/// stated of the bytes: they are random.
#[verifier::external_body]
fn random_bytes() -> (bytes: [u8; 32]) {
    let mut bytes = [0u8; 32];
    rand::fill(&mut bytes);
    bytes
}

/// A fresh random secret of 32 bytes.
pub fn generate_secret() -> (secret: [u8; 32])
    ensures
        secret@.len() == 32,
{
    random_bytes()
}

/// The token that hides `secret` behind the given mask bytes.
pub fn mask_with(secret: &[u8; 32], secret_mask: &[u8; 32]) -> (token: String)
    ensures
        token@ == masked_token(secret_mask@, secret@),
{
    let mut secret_masked: Vec<u8> = Vec::new();
    for i in 0..32
        invariant
            secret@.len() == 32,
            secret_mask@.len() == 32,
            secret_masked@.len() == i,
            forall|j: int| 0 <= j < i ==> secret_masked@[j] == secret_mask@[j] ^ secret@[j],
    {
        let mask_value = secret_mask[i];
        let secret_value = secret[i];
        secret_masked.push(mask_value ^ secret_value);
    }
    assert(secret_masked@ =~= xor_bytes(secret_mask@, secret@));
    let mask_text = hex_encode(secret_mask.as_slice());
    let masked_text = hex_encode(secret_masked.as_slice());
    proof {
        reveal_strlit(":");
    }
    let token = mask_text.concat(":").concat(masked_text.as_str());
    token
}

/// A fresh token for `secret`, masked with random bytes.
pub fn mask(secret: &[u8; 32]) -> (token: String)
    ensures
        exists|m: Seq<u8>| m.len() == 32 && token@ == masked_token(m, secret@),
{
    let secret_mask = random_bytes();
    mask_with(secret, &secret_mask)
}

/// One half of a token decoded, with 32 zero bytes standing in for text that
/// is not hexadecimal.
fn decode_part(part: &[u8]) -> (bytes: Vec<u8>)
    requires
        part@.len() == 64,
    ensures
        bytes@ == decoded_or_zeros(part@),
        bytes@.len() == 32,
{
    match hex_decode(part) {
        Ok(v) => v,
        Err(_) => {
            let mut zeros: Vec<u8> = Vec::new();
            for i in 0..32
                invariant
                    zeros@.len() == i,
                    forall|j: int| 0 <= j < i ==> zeros@[j] == 0u8,
            {
                zeros.push(0u8);
            }
            assert(zeros@ =~= Seq::new(32, |i: int| 0u8));
            zeros
        },
    }
}

/// Whether `token` was masked from `secret`.
pub fn verify(token: &str, secret: &[u8; 32]) -> (accepted: bool)
    ensures
        accepted == token_accepted(token.spec_bytes(), secret@),
{
    let t = token.as_bytes();
    if t.len() != 129 {
        return false;
    }
    if t[64] != 58u8 {
        return false;
    }
    let mut i: usize = 0;
    while i < 129
        invariant
            t@.len() == 129,
            t@ == token.spec_bytes(),
            i <= 129,
            forall|j: int| 0 <= j < i && j != 64 ==> #[trigger] t@[j] != 58,
        decreases 129 - i,
    {
        if i != 64 && t[i] == 58u8 {
            return false;
        }
        i = i + 1;
    }
    let secret_mask = decode_part(&t[0..64]);
    let secret_masked = decode_part(&t[65..129]);
    let mut result = true;
    for i in 0..32
        invariant
            secret@.len() == 32,
            secret_mask@.len() == 32,
            secret_masked@.len() == 32,
            result <==> forall|j: int| 0 <= j < i ==> secret_masked@[j] ^ secret@[j] == secret_mask@[j],
    {
        let reconciled = secret_masked[i] ^ secret[i];
        result = reconciled == secret_mask[i] && result;
    }
    assert(token_well_formed(t@));
    result
}

} // verus!
