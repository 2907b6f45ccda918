//! SHA3-224 digests and their lowercase hexadecimal rendering.

use sha3::Digest;
use vstd::prelude::*;

verus! {

/// The SHA3-224 digest of `message` (FIPS 202), as computed by the `sha3`
/// crate. The function itself is not modelled: contracts only rely on it
/// being a function of the message.
pub uninterp spec fn sha3_224(message: Seq<u8>) -> Seq<u8>;

/// Number of bytes in a SHA3-224 digest.
pub const DIGEST_LEN: usize = 28;

/// The sixteen lowercase hexadecimal digits, indexed by their value.
pub open spec fn hex_digits() -> Seq<char> {
    seq!['0', '1', '2', '3', '4', '5', '6', '7', '8', '9', 'a', 'b', 'c', 'd', 'e', 'f']
}

/// Lowercase hexadecimal rendering of `bytes`: two digits per byte, the high
/// nibble first.
pub open spec fn hex_text(bytes: Seq<u8>) -> Seq<char> {
    Seq::new(
        2 * bytes.len(),
        |i: int|
            if i % 2 == 0 {
                hex_digits()[bytes[i / 2] as int / 16]
            } else {
                hex_digits()[bytes[i / 2] as int % 16]
            },
    )
}

/// Calls `sha3::Sha3_224::digest` (`digest::Digest::digest`) on the whole
/// message. Trusted: the result is the SHA3-224 digest of the message, and it
/// is 28 bytes long (the hasher's `OutputSize` is `U28`).
#[verifier::external_body]
pub(crate) fn sha3_224_digest(message: &Vec<u8>) -> (digest: Vec<u8>)
    ensures
        digest@ == sha3_224(message@),
        digest@.len() == DIGEST_LEN,
{
    sha3::Sha3_224::digest(message).to_vec()
}

/// Calls `hex::encode`. Trusted: the result spells every input byte as two
/// lowercase hexadecimal digits, high nibble first, in input order.
#[verifier::external_body]
fn hex_encode(bytes: &Vec<u8>) -> (text: String)
    ensures
        text@ == hex_text(bytes@),
{
    hex::encode(bytes)
}

/// Renders a digest (or any byte string) as lowercase hexadecimal text.
pub fn encode_digest(digest: &Vec<u8>) -> (text: String)
    ensures
        text@ == hex_text(digest@),
        text@.len() == 2 * digest@.len(),
{
    hex_encode(digest)
}

/// Hexadecimal rendering loses nothing: different byte strings have
/// different renderings.
pub proof fn lemma_hex_text_injective(a: Seq<u8>, b: Seq<u8>)
    requires
        hex_text(a) == hex_text(b),
    ensures
        a == b,
{
    assert(a.len() == b.len()) by {
        assert(hex_text(a).len() == 2 * a.len());
        assert(hex_text(b).len() == 2 * b.len());
    }
    assert forall|k: int| 0 <= k < a.len() implies a[k] == b[k] by {
        let hi_a = a[k] as int / 16;
        let lo_a = a[k] as int % 16;
        let hi_b = b[k] as int / 16;
        let lo_b = b[k] as int % 16;
        assert(hex_text(a)[2 * k] == hex_digits()[hi_a]);
        assert(hex_text(b)[2 * k] == hex_digits()[hi_b]);
        assert(hex_text(a)[2 * k + 1] == hex_digits()[lo_a]);
        assert(hex_text(b)[2 * k + 1] == hex_digits()[lo_b]);
        lemma_hex_digits_distinct(hi_a, hi_b);
        lemma_hex_digits_distinct(lo_a, lo_b);
    }
    assert(a =~= b);
}

/// The sixteen digits are pairwise different.
proof fn lemma_hex_digits_distinct(i: int, j: int)
    requires
        0 <= i < 16,
        0 <= j < 16,
        hex_digits()[i] == hex_digits()[j],
    ensures
        i == j,
{
}

/// Every character of a rendering is a lowercase hexadecimal digit.
pub proof fn lemma_hex_text_digits(bytes: Seq<u8>, i: int)
    requires
        0 <= i < 2 * bytes.len(),
    ensures
        hex_digits().contains(hex_text(bytes)[i]),
{
    let b = bytes[i / 2] as int;
    if i % 2 == 0 {
        assert(hex_text(bytes)[i] == hex_digits()[b / 16]);
    } else {
        assert(hex_text(bytes)[i] == hex_digits()[b % 16]);
    }
}

} // verus!
