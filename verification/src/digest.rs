use vstd::prelude::*;

verus! {

/// The SHA-512 digest of a byte sequence. The algorithm itself is not
/// restated here; the digest is a pure function of the input bytes, computed
/// by the outside hash implementation.
pub uninterp spec fn sha512_of(bytes: Seq<u8>) -> Seq<u8>;

/// Relies on hmac_sha512::Hash::hash: the SHA-512 digest of the input, 64
/// bytes long, a function of the input bytes alone.
#[verifier::external_body]
pub fn sha512(bytes: &[u8]) -> (r: Vec<u8>)
    ensures
        r@ == sha512_of(bytes@),
        r@.len() == 64,
{
    hmac_sha512::Hash::hash(bytes).to_vec()
}

/// The lowercase hexadecimal digit for a value below sixteen.
pub open spec fn hex_digit(d: nat) -> char {
    if d == 0 {
        '0'
    } else if d == 1 {
        '1'
    } else if d == 2 {
        '2'
    } else if d == 3 {
        '3'
    } else if d == 4 {
        '4'
    } else if d == 5 {
        '5'
    } else if d == 6 {
        '6'
    } else if d == 7 {
        '7'
    } else if d == 8 {
        '8'
    } else if d == 9 {
        '9'
    } else if d == 10 {
        'a'
    } else if d == 11 {
        'b'
    } else if d == 12 {
        'c'
    } else if d == 13 {
        'd'
    } else if d == 14 {
        'e'
    } else {
        'f'
    }
}

/// Two lowercase hexadecimal digits for one byte, high nibble first.
pub open spec fn hex_of_byte(b: u8) -> Seq<char> {
    seq![hex_digit((b / 16) as nat), hex_digit((b % 16) as nat)]
}

/// Lowercase hexadecimal rendering of a byte sequence: two digits per byte,
/// in order.
pub open spec fn hex_of(bytes: Seq<u8>) -> Seq<char>
    decreases bytes.len(),
{
    if bytes.len() == 0 {
        Seq::empty()
    } else {
        hex_of_byte(bytes[0]) + hex_of(bytes.skip(1))
    }
}

/// Relies on hex::encode: lowercase hexadecimal, two digits per byte, high
/// nibble first, bytes in order.
#[verifier::external_body]
pub fn hex_encode(bytes: &Vec<u8>) -> (r: String)
    ensures
        r@ == hex_of(bytes@),
{
    hex::encode(bytes)
}

/// The hexadecimal rendering is twice as long as the input.
pub proof fn lemma_hex_of_len(bytes: Seq<u8>)
    ensures
        hex_of(bytes).len() == 2 * bytes.len(),
    decreases bytes.len(),
{
    if bytes.len() > 0 {
        lemma_hex_of_len(bytes.skip(1));
    }
}

} // verus!
