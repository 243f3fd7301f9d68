//! Stable node identifiers: a node's identifier is a hash of a key made of
//! 64-bit words.

use vstd::bytes::{spec_u64_to_le_bytes, u64_to_le_bytes};
use vstd::prelude::*;
use crate::NodeId;

verus! {

/// The XXH3 64-bit hash of a byte string, as `xxhash_rust::xxh3::xxh3_64`
/// computes it with the default seed and secret.
pub uninterp spec fn xxh3_64_of(bytes: Seq<u8>) -> u64;

/// Hashes bytes with `xxhash_rust::xxh3::xxh3_64`. Claimed of it: the result
/// is a function of the bytes alone.
#[verifier::external_body]
fn xxh3(bytes: &[u8]) -> (h: u64)
    ensures
        h == xxh3_64_of(bytes@),
{
    xxhash_rust::xxh3::xxh3_64(bytes)
}

/// The first `upto` words of a key as bytes, each word little-endian.
pub open spec fn encoded(words: Seq<u64>, upto: int) -> Seq<u8>
    decreases upto,
{
    if upto <= 0 || upto > words.len() {
        Seq::empty()
    } else {
        encoded(words, upto - 1) + spec_u64_to_le_bytes(words[upto - 1])
    }
}

/// The identifier that a key stands for: the hash of its bytes.
pub open spec fn id_of(words: Seq<u64>) -> NodeId {
    xxh3_64_of(encoded(words, words.len() as int))
}

/// The bytes of a key.
pub fn key_bytes(words: &Vec<u64>) -> (bytes: Vec<u8>)
    ensures
        bytes@ == encoded(words@, words@.len() as int),
{
    let mut bytes: Vec<u8> = Vec::new();
    let mut i: usize = 0;
    while i < words.len()
        invariant
            i <= words@.len(),
            bytes@ == encoded(words@, i as int),
        decreases words.len() - i,
    {
        let word = u64_to_le_bytes(words[i]);
        let ghost before = bytes@;
        let mut j: usize = 0;
        while j < 8
            invariant
                j <= 8,
                word@.len() == 8,
                bytes@ == before + word@.take(j as int),
            decreases 8 - j,
        {
            bytes.push(word[j]);
            assert(bytes@ =~= before + word@.take(j + 1));
            j += 1;
        }
        assert(word@.take(8) =~= word@);
        i += 1;
    }
    bytes
}

/// The identifier that a key stands for.
pub fn stable_id(words: &Vec<u64>) -> (id: NodeId)
    ensures
        id == id_of(words@),
{
    let bytes = key_bytes(words);
    xxh3(bytes.as_slice())
}

/// The characters of a text as words.
pub open spec fn chars_of(text: Seq<char>) -> Seq<u64> {
    text.map_values(|c: char| c as u64)
}

/// The words that stand for a text in a key: its length and its characters.
pub open spec fn text_words(text: Seq<char>) -> Seq<u64> {
    seq![text.len() as u64] + chars_of(text)
}

/// The words that stand for a sequence of identifiers in a key: its length
/// and the identifiers.
pub open spec fn id_words(ids: Seq<NodeId>) -> Seq<u64> {
    seq![ids.len() as u64] + ids
}

/// Appends the words of a text to a key.
pub fn push_text(key: &mut Vec<u64>, text: &str)
    ensures
        final(key)@ == old(key)@ + text_words(text@),
{
    let ghost before = key@;
    let len = text.unicode_len();
    key.push(len as u64);
    let mut i: usize = 0;
    while i < len
        invariant
            i <= len,
            len == text@.len(),
            key@ == before + seq![len as u64] + chars_of(text@).take(i as int),
        decreases len - i,
    {
        let c = text.get_char(i);
        let ghost so_far = key@;
        key.push(c as u64);
        assert(key@ =~= before + seq![len as u64] + chars_of(text@).take(i + 1));
        i += 1;
    }
    assert(chars_of(text@).take(len as int) =~= chars_of(text@));
    assert(key@ =~= before + text_words(text@));
}

/// Appends the words of a sequence of identifiers to a key.
pub fn push_ids(key: &mut Vec<u64>, ids: &[NodeId])
    ensures
        final(key)@ == old(key)@ + id_words(ids@),
{
    let ghost before = key@;
    key.push(ids.len() as u64);
    let mut i: usize = 0;
    while i < ids.len()
        invariant
            i <= ids@.len(),
            key@ == before + seq![ids@.len() as u64] + ids@.take(i as int),
        decreases ids.len() - i,
    {
        key.push(ids[i]);
        assert(key@ =~= before + seq![ids@.len() as u64] + ids@.take(i + 1));
        i += 1;
    }
    assert(ids@.take(ids@.len() as int) =~= ids@);
    assert(key@ =~= before + id_words(ids@));
}

} // verus!
