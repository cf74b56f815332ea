use sha1::{Digest, Sha1};
use vstd::prelude::*;

verus! {

/// What SHA-1 makes of a sequence of bytes.
pub uninterp spec fn sha1_of(b: Seq<u8>) -> Seq<u8>;

/// The lowercase hexadecimal digit for a value below sixteen.
pub open spec fn hex_digit(n: u8) -> char {
    seq!['0', '1', '2', '3', '4', '5', '6', '7', '8', '9', 'a', 'b', 'c', 'd', 'e', 'f'][(n % 16) as int]
}

/// Two lowercase hexadecimal digits per byte, the high half first.
pub open spec fn hex_of(b: Seq<u8>) -> Seq<char>
    decreases b.len(),
{
    if b.len() == 0 {
        Seq::<char>::empty()
    } else {
        hex_of(b.drop_last()) + seq![hex_digit(b.last() / 16), hex_digit(b.last() % 16)]
    }
}

/// The digest of a text as the blocklist writes it: SHA-1 of its UTF-8 bytes, in lowercase hex.
pub open spec fn digest_of(s: Seq<char>) -> Seq<char> {
    hex_of(sha1_of(vstd::utf8::encode_utf8(s)))
}

pub proof fn lemma_hex_len(b: Seq<u8>)
    ensures
        hex_of(b).len() == 2 * b.len(),
    decreases b.len(),
{
    if b.len() > 0 {
        lemma_hex_len(b.drop_last());
    }
}

/// Relies on sha1's `Sha1::digest`: the SHA-1 digest of the bytes, which is twenty bytes long.
#[verifier::external_body]
fn sha1_digest(b: &[u8]) -> (r: Vec<u8>)
    ensures
        r@ == sha1_of(b@),
        r@.len() == 20,
{
    Sha1::digest(b).to_vec()
}

/// Relies on `hex::encode`: two lowercase digits for each byte, in order.
#[verifier::external_body]
fn hex_encode(b: &Vec<u8>) -> (r: String)
    ensures
        r@ == hex_of(b@),
{
    hex::encode(b)
}

/// The lowercase hex SHA-1 digest of the UTF-8 bytes of `input`: forty characters.
pub fn digest_hex(input: &str) -> (r: String)
    ensures
        r@ == digest_of(input@),
        r@.len() == 40,
{
    let bytes = input.as_bytes();
    let d = sha1_digest(bytes);
    proof {
        lemma_hex_len(d@);
    }
    hex_encode(&d)
}

/// The digest depends on the text alone: equal texts have equal digests.
pub proof fn lemma_digest_deterministic(a: Seq<char>, b: Seq<char>)
    requires
        a == b,
    ensures
        digest_of(a) == digest_of(b),
{
}

} // verus!
