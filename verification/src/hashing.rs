//! SHA-256 over byte strings, and the byte strings that the ledger hashes.

use sha2::{Digest, Sha256};
use vstd::prelude::*;
use vstd::string::*;
use vstd::utf8::encode_utf8;
use crate::text::{hex_text, to_hex};

verus! {

/// The SHA-256 digest of a byte string, as the `sha2` crate computes it.
pub uninterp spec fn sha256_digest(data: Seq<u8>) -> Seq<u8>;

/// Feeds `data` to a fresh `sha2::Sha256` hasher (`Digest::new`,
/// `Digest::update`, `Digest::finalize`) and returns the digest bytes.
/// Trusted: the result is the digest of exactly the bytes given, and the
/// same bytes always give the same digest.
#[verifier::external_body]
fn sha256(data: &Vec<u8>) -> (digest: Vec<u8>)
    ensures
        digest@ == sha256_digest(data@),
{
    let mut hasher = Sha256::new();
    hasher.update(data);
    hasher.finalize().to_vec()
}

/// The lowercase hexadecimal text of the SHA-256 digest of `data`.
pub open spec fn sha256_hex_text(data: Seq<u8>) -> Seq<char> {
    hex_text(sha256_digest(data))
}

/// The UTF-8 bytes of each part, one after the other.
pub open spec fn concat_utf8(parts: Seq<Seq<char>>) -> Seq<u8>
    decreases parts.len(),
{
    if parts.len() == 0 {
        Seq::empty()
    } else {
        concat_utf8(parts.drop_last()) + encode_utf8(parts.last())
    }
}

/// The character sequences held by a sequence of strings.
pub open spec fn string_views(strings: Seq<String>) -> Seq<Seq<char>> {
    strings.map_values(|s: String| s@)
}

/// A copy of a list of strings.
pub fn clone_strings(strings: &Vec<String>) -> (copy: Vec<String>)
    ensures
        copy@ == strings@,
{
    let mut copy: Vec<String> = Vec::new();
    let mut i: usize = 0;
    while i < strings.len()
        invariant
            i <= strings.len(),
            copy@ == strings@.take(i as int),
        decreases strings.len() - i,
    {
        copy.push(strings[i].clone());
        i += 1;
        assert(copy@ =~= strings@.take(i as int));
    }
    assert(strings@.take(i as int) =~= strings@);
    copy
}

/// Hashes `data` with SHA-256 and renders the digest in hexadecimal.
pub fn sha256_hex(data: &Vec<u8>) -> (hash: String)
    ensures
        hash@ == sha256_hex_text(data@),
{
    let digest = sha256(data);
    to_hex(&digest)
}

/// Appends the UTF-8 bytes of `s` to `out`.
pub fn push_utf8(out: &mut Vec<u8>, s: &str)
    ensures
        final(out)@ == old(out)@ + encode_utf8(s@),
{
    let bytes = s.as_bytes();
    let mut i: usize = 0;
    while i < bytes.len()
        invariant
            i <= bytes.len(),
            bytes@ == encode_utf8(s@),
            out@ == old(out)@ + bytes@.take(i as int),
        decreases bytes.len() - i,
    {
        out.push(bytes[i]);
        i += 1;
        assert(out@ =~= old(out)@ + bytes@.take(i as int));
    }
    assert(bytes@.take(i as int) =~= bytes@);
}

/// Appends the UTF-8 bytes of every string of `parts`, in order, to `out`.
pub fn push_all_utf8(out: &mut Vec<u8>, parts: &Vec<String>)
    ensures
        final(out)@ == old(out)@ + concat_utf8(string_views(parts@)),
{
    let mut i: usize = 0;
    assert(string_views(parts@).take(0) =~= Seq::<Seq<char>>::empty());
    assert(out@ =~= old(out)@ + concat_utf8(string_views(parts@).take(0)));
    while i < parts.len()
        invariant
            i <= parts.len(),
            out@ == old(out)@ + concat_utf8(string_views(parts@).take(i as int)),
        decreases parts.len() - i,
    {
        let ghost before = out@;
        push_utf8(out, parts[i].as_str());
        proof {
            let views = string_views(parts@);
            assert(views.take(i + 1).drop_last() =~= views.take(i as int));
            assert(views.take(i + 1).last() == parts@[i as int]@);
            assert(out@ =~= old(out)@ + concat_utf8(views.take(i + 1)));
        }
        i += 1;
    }
    assert(string_views(parts@).take(i as int) =~= string_views(parts@));
}

} // verus!
