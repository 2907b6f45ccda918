//! The fingerprint of a requirement set and an optional interpreter
//! selector: what is hashed, and what the hash is rendered as.

use crate::digest::{hex_text, lemma_hex_text_injective, sha3_224};
use crate::order::{lemma_encoding_injective, sorted_members};
use vstd::prelude::*;
use vstd::string::StringSliceAdditionalSpecFns;
use vstd::utf8::encode_utf8;

verus! {

/// The bytes `py:`, which precede an interpreter selector in the hashed
/// message. A message that starts with a requirement name has no such tag in
/// front of it.
pub open spec fn selector_tag() -> Seq<u8> {
    seq![0x70u8, 0x79u8, 0x3au8]
}

/// The encodings of `names`, one after the other with nothing in between.
pub open spec fn joined(names: Seq<Seq<char>>) -> Seq<u8>
    decreases names.len(),
{
    if names.len() == 0 {
        Seq::empty()
    } else {
        joined(names.drop_last()) + encode_utf8(names.last())
    }
}

/// What opens the hashed message: the tag and the selector's bytes where a
/// selector is given, nothing otherwise.
pub open spec fn selector_prefix(selector: Option<Seq<char>>) -> Seq<u8> {
    match selector {
        Some(s) => selector_tag() + encode_utf8(s),
        None => Seq::empty(),
    }
}

/// The message that is hashed for a set of names and a selector: the selector
/// prefix, then every member in ascending byte order.
pub open spec fn fingerprint_message(members: Set<Seq<char>>, selector: Option<Seq<char>>) -> Seq<
    u8,
> {
    selector_prefix(selector) + joined(sorted_members(members))
}

/// The fingerprint: the SHA3-224 digest of the message, in lowercase
/// hexadecimal.
pub open spec fn fingerprint(members: Set<Seq<char>>, selector: Option<Seq<char>>) -> Seq<char> {
    hex_text(sha3_224(fingerprint_message(members, selector)))
}

/// The text of an optional string.
pub open spec fn text_of(s: Option<&str>) -> Option<Seq<char>> {
    match s {
        Some(t) => Some(t@),
        None => None,
    }
}

/// Two requirement sets with the same members have the same fingerprint under
/// the same selector, whatever the order in which the members were found.
pub proof fn law_fingerprint_of_equal_sets(
    first: Set<Seq<char>>,
    second: Set<Seq<char>>,
    selector: Option<Seq<char>>,
)
    requires
        first =~= second,
    ensures
        fingerprint_message(first, selector) == fingerprint_message(second, selector),
        fingerprint(first, selector) == fingerprint(second, selector),
{
}

/// For a fixed requirement set, two different selectors (one of them may be
/// absent) never lead to the same hashed message.
pub proof fn law_selector_changes_message(
    members: Set<Seq<char>>,
    first: Option<Seq<char>>,
    second: Option<Seq<char>>,
)
    requires
        first != second,
    ensures
        fingerprint_message(members, first) != fingerprint_message(members, second),
{
    let tail = joined(sorted_members(members));
    let p = selector_prefix(first);
    let q = selector_prefix(second);
    if p + tail == q + tail {
        assert((p + tail).len() == (q + tail).len());
        assert forall|k: int| 0 <= k < p.len() implies p[k] == q[k] by {
            assert((p + tail)[k] == (q + tail)[k]);
        }
        assert(p =~= q);
        match (first, second) {
            (Some(a), Some(b)) => {
                let x = encode_utf8(a);
                let y = encode_utf8(b);
                assert(x.len() == y.len());
                assert forall|k: int| 0 <= k < x.len() implies x[k] == y[k] by {
                    assert(p[k + 3] == x[k]);
                    assert(q[k + 3] == y[k]);
                }
                assert(x =~= y);
                lemma_encoding_injective(a, b);
            },
            _ => {},
        }
    }
}

/// For a fixed requirement set, two different selectors give the same
/// fingerprint only if SHA3-224 maps two different messages to one digest.
pub proof fn law_selector_changes_fingerprint(
    members: Set<Seq<char>>,
    first: Option<Seq<char>>,
    second: Option<Seq<char>>,
)
    requires
        first != second,
        fingerprint(members, first) == fingerprint(members, second),
    ensures
        fingerprint_message(members, first) != fingerprint_message(members, second),
        sha3_224(fingerprint_message(members, first)) == sha3_224(
            fingerprint_message(members, second),
        ),
{
    law_selector_changes_message(members, first, second);
    lemma_hex_text_injective(
        sha3_224(fingerprint_message(members, first)),
        sha3_224(fingerprint_message(members, second)),
    );
}

/// Appends `bytes` to `buffer`.
pub fn append_bytes(buffer: &mut Vec<u8>, bytes: &[u8])
    ensures
        final(buffer)@ == old(buffer)@ + bytes@,
{
    let mut i: usize = 0;
    while i < bytes.len()
        invariant
            i <= bytes@.len(),
            buffer@ == old(buffer)@ + bytes@.take(i as int),
        decreases bytes@.len() - i,
    {
        buffer.push(bytes[i]);
        i += 1;
        assert(bytes@.take(i as int) =~= bytes@.take(i - 1).push(bytes@[i - 1]));
    }
    assert(bytes@.take(i as int) =~= bytes@);
}

/// The bytes that open the hashed message for `selector`.
pub fn selector_bytes(selector: Option<&str>) -> (bytes: Vec<u8>)
    ensures
        bytes@ == selector_prefix(text_of(selector)),
{
    let mut bytes: Vec<u8> = Vec::new();
    match selector {
        Some(s) => {
            let tag = "py:";
            proof {
                reveal_strlit("py:");
                vstd::string::is_ascii_spec_bytes(tag);
                assert(tag.spec_bytes() =~= selector_tag());
            }
            append_bytes(&mut bytes, tag.as_bytes());
            append_bytes(&mut bytes, s.as_bytes());
            assert(bytes@ =~= selector_tag() + encode_utf8(s@));
        },
        None => {},
    }
    bytes
}

} // verus!
