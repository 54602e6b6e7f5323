//! Bytes as hexadecimal text, and the Keccak-256 digest.
//!
//! Both are done by outside crates (`hex`, `tiny-keccak`). Hexadecimal text
//! is simple enough to be stated here in full; of the digest the library only
//! says that it is a function of the bytes hashed, 32 bytes long.

use hex::FromHexError;
use tiny_keccak::Hasher;
use tiny_keccak::Keccak;
use vstd::prelude::*;

verus! {

/// The hexadecimal digit, in lower case, of a number below 16.
pub open spec fn hex_digit(n: nat) -> char {
    if n < 10 {
        (48 + n) as char
    } else {
        (87 + n) as char
    }
}

/// The two lower-case hexadecimal digits of every byte, in order.
pub open spec fn hex_string(bytes: Seq<u8>) -> Seq<char>
    decreases bytes.len(),
{
    if bytes.len() == 0 {
        Seq::empty()
    } else {
        hex_string(bytes.drop_last()).push(hex_digit(bytes.last() as nat / 16)).push(
            hex_digit(bytes.last() as nat % 16),
        )
    }
}

/// The number that a hexadecimal digit of either case stands for.
pub open spec fn digit_value(c: char) -> Option<nat> {
    let n = c as int;
    if 48 <= n <= 57 {
        Some((n - 48) as nat)
    } else if 97 <= n <= 102 {
        Some((n - 87) as nat)
    } else if 65 <= n <= 70 {
        Some((n - 55) as nat)
    } else {
        None
    }
}

/// The bytes that hexadecimal text spells: two digits to a byte. Text of
/// odd length, or with anything but hexadecimal digits, spells nothing.
pub open spec fn unhex(text: Seq<char>) -> Option<Seq<u8>>
    decreases text.len(),
{
    if text.len() == 0 {
        Some(Seq::empty())
    } else if text.len() == 1 {
        None
    } else {
        let n = text.len() as int;
        match (unhex(text.subrange(0, n - 2)), digit_value(text[n - 2]), digit_value(text[n - 1])) {
            (Some(bytes), Some(high), Some(low)) => Some(bytes.push((high * 16 + low) as u8)),
            _ => None,
        }
    }
}

/// Reading back the hexadecimal text of bytes gives the bytes.
pub proof fn lemma_unhex_hex(bytes: Seq<u8>)
    ensures
        hex_string(bytes).len() == 2 * bytes.len(),
        unhex(hex_string(bytes)) == Some(bytes),
    decreases bytes.len(),
{
    if bytes.len() > 0 {
        lemma_unhex_hex(bytes.drop_last());
        let text = hex_string(bytes);
        let n = text.len() as int;
        let b = bytes.last() as nat;
        assert(text.subrange(0, n - 2) =~= hex_string(bytes.drop_last()));
        assert(digit_value(hex_digit(b / 16)) == Some(b / 16));
        assert(digit_value(hex_digit(b % 16)) == Some(b % 16));
        assert(((b / 16) * 16 + b % 16) as u8 == bytes.last());
        assert(bytes =~= bytes.drop_last().push(bytes.last()));
    }
}

/// `hex::FromHexError`, with which `hex::decode` fails. Nothing is known
/// of what it holds.
#[verifier::external_type_specification]
#[verifier::external_body]
pub struct ExFromHexError(FromHexError);

/// Trusted: `hex::encode`. It writes every byte as two lower-case
/// hexadecimal digits, in order.
#[verifier::external_body]
fn hex_encode(bytes: &Vec<u8>) -> (r: String)
    ensures
        r@ == hex_string(bytes@),
{
    hex::encode(bytes)
}

/// Trusted: `hex::decode`. It succeeds on an even number of hexadecimal
/// digits of either case, and then gives the bytes they spell; on any other
/// text it fails.
#[verifier::external_body]
fn hex_decode(text: &str) -> (r: Result<Vec<u8>, FromHexError>)
    ensures
        r.is_ok() <==> unhex(text@).is_some(),
        r.is_ok() ==> r.unwrap()@ == unhex(text@).unwrap(),
{
    hex::decode(text)
}

/// The Keccak-256 digest of `data`, as `tiny-keccak` computes it.
pub uninterp spec fn keccak256(data: Seq<u8>) -> Seq<u8>;

/// Trusted: `Keccak::v256`, `Hasher::update` and `Hasher::finalize` of
/// `tiny-keccak`, squeezed into 32 bytes. The digest depends on nothing but
/// the bytes hashed.
#[verifier::external_body]
fn keccak256_digest(data: &Vec<u8>) -> (r: Vec<u8>)
    ensures
        r@ == keccak256(data@),
        r@.len() == 32,
{
    let mut hasher = Keccak::v256();
    hasher.update(data.as_slice());
    let mut out = [0u8; 32];
    hasher.finalize(&mut out);
    out.to_vec()
}

/// The lower-case hexadecimal text of `bytes`.
pub fn to_hex(bytes: &Vec<u8>) -> (r: String)
    ensures
        r@ == hex_string(bytes@),
{
    hex_encode(bytes)
}

/// The bytes that the hexadecimal text `text` spells, if it spells any.
pub fn from_hex(text: &str) -> (r: Option<Vec<u8>>)
    ensures
        r.is_some() <==> unhex(text@).is_some(),
        r.is_some() ==> r.unwrap()@ == unhex(text@).unwrap(),
{
    match hex_decode(text) {
        Ok(bytes) => Some(bytes),
        Err(_) => None,
    }
}

/// The Keccak-256 digest of `data`: 32 bytes.
pub fn keccak(data: &Vec<u8>) -> (r: Vec<u8>)
    ensures
        r@ == keccak256(data@),
        r@.len() == 32,
{
    keccak256_digest(data)
}

/// `a` followed by `b`.
pub fn join_bytes(a: &Vec<u8>, b: &Vec<u8>) -> (r: Vec<u8>)
    ensures
        r@ == a@ + b@,
{
    let mut out: Vec<u8> = a.clone();
    let n: usize = b.len();
    let mut i: usize = 0;
    while i < n
        invariant
            n == b@.len(),
            i <= n,
            out@ == a@ + b@.subrange(0, i as int),
        decreases n - i,
    {
        out.push(b[i]);
        assert(out@ =~= a@ + b@.subrange(0, i + 1));
        i = i + 1;
    }
    assert(b@.subrange(0, n as int) =~= b@);
    out
}

} // verus!
