use vstd::prelude::*;
use vstd::string::StringSliceAdditionalSpecFns;

verus! {

/// The SHA-256 digest of a byte sequence, as the `sha2` crate computes it.
/// The digest is a function of the input bytes alone.
pub uninterp spec fn sha256_of(data: Seq<u8>) -> Seq<u8>;

/// Lower-case hexadecimal digit for a value below 16.
pub open spec fn hex_digit(n: u8) -> char
    recommends
        n < 16,
{
    if n < 10 {
        (48 + n) as char
    } else {
        (87 + n) as char
    }
}

/// Lower-case hexadecimal encoding of a byte sequence: two digits per byte,
/// high nibble first.
pub open spec fn hex_of(data: Seq<u8>) -> Seq<char> {
    Seq::new(
        data.len() * 2,
        |i: int|
            if i % 2 == 0 {
                hex_digit((data[i / 2] >> 4) as u8)
            } else {
                hex_digit((data[i / 2] & 0xf) as u8)
            },
    )
}

/// Relies on sha2::Sha256::digest: the 32-byte SHA-256 digest of the input.
#[verifier::external_body]
fn sha256(data: &[u8]) -> (r: Vec<u8>)
    ensures
        r@ == sha256_of(data@),
        r@.len() == 32,
{
    <sha2::Sha256 as sha2::Digest>::digest(data).to_vec()
}

/// Relies on String::push: appends exactly the given character.
#[verifier::external_body]
pub(crate) fn push_char(s: &mut String, c: char)
    ensures
        final(s)@ == old(s)@.push(c),
{
    s.push(c);
}

/// Relies on hex::encode: lower-case hexadecimal, two digits per byte.
#[verifier::external_body]
fn hex_encode(data: &Vec<u8>) -> (r: String)
    ensures
        r@ == hex_of(data@),
{
    hex::encode(data)
}

/// Lower-case hexadecimal form of the SHA-256 digest of a string's bytes.
pub open spec fn spec_sha256_hex(data: Seq<u8>) -> Seq<char> {
    hex_of(sha256_of(data))
}

/// Computes the lower-case hexadecimal SHA-256 digest of a string.
pub fn sha256_hex(input: &str) -> (r: String)
    ensures
        r@ == spec_sha256_hex(input.spec_bytes()),
        r@.len() == 64,
{
    let bytes = input.as_bytes();
    let digest = sha256(bytes);
    hex_encode(&digest)
}

} // verus!
