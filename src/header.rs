//! Recognition of the SQLite on-disk signature at the start of a file.
use vstd::prelude::*;

verus! {

/// Number of leading bytes that identify the format.
pub const HEADER_LEN: usize = 16;

/// The signature `"SQLite format 3\0"` as bytes.
pub open spec fn signature() -> Seq<u8> {
    seq![
        0x53u8, 0x51u8, 0x4cu8, 0x69u8, 0x74u8, 0x65u8, 0x20u8, 0x66u8,
        0x6fu8, 0x72u8, 0x6du8, 0x61u8, 0x74u8, 0x20u8, 0x33u8, 0x00u8,
    ]
}

/// A file prefix carries the signature when it holds at least the signature's
/// length and its first bytes equal the signature.
pub open spec fn carries_signature(prefix: Seq<u8>) -> bool {
    prefix.len() >= 16 && prefix.take(16) == signature()
}

/// The signature as an executable array.
pub fn signature_bytes() -> (r: [u8; 16])
    ensures
        r@ == signature(),
{
    let r: [u8; 16] = [
        0x53u8, 0x51u8, 0x4cu8, 0x69u8, 0x74u8, 0x65u8, 0x20u8, 0x66u8,
        0x6fu8, 0x72u8, 0x6du8, 0x61u8, 0x74u8, 0x20u8, 0x33u8, 0x00u8,
    ];
    assert(r@ =~= signature());
    r
}

/// Decides whether the bytes read from the start of a file carry the
/// signature. `prefix` holds what could be read, up to its first sixteen
/// bytes; a shorter prefix means the file ended early, which is no error.
pub fn has_sqlite_header(prefix: &[u8]) -> (r: bool)
    ensures
        r == carries_signature(prefix@),
{
    if prefix.len() < HEADER_LEN {
        return false;
    }
    let sig = signature_bytes();
    let mut i: usize = 0;
    while i < HEADER_LEN
        invariant
            i <= 16,
            prefix@.len() >= 16,
            sig@ == signature(),
            forall|k: int| 0 <= k < i ==> prefix@[k] == sig@[k],
        decreases 16 - i,
    {
        if prefix[i] != sig[i] {
            assert(prefix@.take(16)[i as int] != signature()[i as int]);
            return false;
        }
        i = i + 1;
    }
    assert(prefix@.take(16) =~= signature());
    true
}

/// A file that ends before the sixteenth byte is never taken for a database.
pub proof fn lemma_short_file_rejected(prefix: Seq<u8>)
    requires
        prefix.len() < 16,
    ensures
        !carries_signature(prefix),
{
}

/// Sixteen bytes equal to the signature are accepted, and changing any single
/// one of them makes the prefix rejected.
pub proof fn lemma_signature_exact(i: int, b: u8)
    requires
        0 <= i < 16,
        b != signature()[i],
    ensures
        carries_signature(signature()),
        !carries_signature(signature().update(i, b)),
{
    assert(signature().take(16) =~= signature());
    let m = signature().update(i, b);
    assert(m.take(16)[i] != signature()[i]);
}

} // verus!
