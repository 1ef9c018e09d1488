use vstd::prelude::*;
use vstd::string::StringExecFns;
use sha2::Digest;
use crate::numerals::{dec_str_of, u128_to_dec};

verus! {

/// The SHA-256 digest of the UTF-8 bytes of a text.
pub uninterp spec fn sha256_of(s: Seq<char>) -> Seq<u8>;

/// Relies on `sha2::Sha256`: the digest is a pure function of the text
/// alone and is exactly 32 bytes long.
#[verifier::external_body]
pub fn sha256_str(s: &str) -> (d: Vec<u8>)
    ensures
        d@ == sha256_of(s@),
        d@.len() == 32,
{
    sha2::Sha256::digest(s.as_bytes()).to_vec()
}

/// The lowercase hexadecimal digit for a value in `0..16`.
pub open spec fn hex_char_of(v: int) -> char {
    if v == 0 {
        '0'
    } else if v == 1 {
        '1'
    } else if v == 2 {
        '2'
    } else if v == 3 {
        '3'
    } else if v == 4 {
        '4'
    } else if v == 5 {
        '5'
    } else if v == 6 {
        '6'
    } else if v == 7 {
        '7'
    } else if v == 8 {
        '8'
    } else if v == 9 {
        '9'
    } else if v == 10 {
        'a'
    } else if v == 11 {
        'b'
    } else if v == 12 {
        'c'
    } else if v == 13 {
        'd'
    } else if v == 14 {
        'e'
    } else {
        'f'
    }
}

/// The lowercase hexadecimal encoding of a byte string: two digits per
/// byte, most significant nibble first.
pub open spec fn hex_lower_of(bs: Seq<u8>) -> Seq<char>
    decreases bs.len(),
{
    if bs.len() == 0 {
        Seq::empty()
    } else {
        seq![
            hex_char_of((bs.first() / 16) as int),
            hex_char_of((bs.first() % 16) as int),
        ] + hex_lower_of(bs.drop_first())
    }
}

/// Relies on `base16::encode_lower`: two lowercase hexadecimal digits per
/// byte, most significant nibble first.
#[verifier::external_body]
pub fn hex_lower(bs: &Vec<u8>) -> (s: String)
    ensures
        s@ == hex_lower_of(bs@),
{
    base16::encode_lower(bs.as_slice())
}

/// The canonical text whose digest identifies a content triple: the URI,
/// the commission and the price, the numbers in decimal, concatenated.
pub open spec fn content_str_of(uri: Seq<char>, commission: u128, price: u128) -> Seq<char> {
    uri + dec_str_of(commission as int) + dec_str_of(price as int)
}

/// The content digest that identifies a (URI, commission, price) triple:
/// lowercase hex of the SHA-256 digest of the canonical text.
pub open spec fn content_digest_of(uri: Seq<char>, commission: u128, price: u128) -> Seq<char> {
    hex_lower_of(sha256_of(content_str_of(uri, commission, price)))
}

/// Computes the content digest of a (URI, commission, price) triple.
pub fn content_digest(uri: &String, commission: u128, price: u128) -> (h: String)
    ensures
        h@ == content_digest_of(uri@, commission, price),
{
    let mut text = uri.clone();
    let c = u128_to_dec(commission);
    text.append(c.as_str());
    let p = u128_to_dec(price);
    text.append(p.as_str());
    let digest = sha256_str(text.as_str());
    hex_lower(&digest)
}

} // verus!
