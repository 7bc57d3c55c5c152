use vstd::prelude::*;

verus! {

/// The SHA-256 digest (32 bytes) of a byte sequence.
pub uninterp spec fn sha256_of(data: Seq<u8>) -> Seq<u8>;

/// The lowercase hexadecimal digits, indexed by value.
pub open spec fn hex_digits() -> Seq<char> {
    seq!['0', '1', '2', '3', '4', '5', '6', '7', '8', '9', 'a', 'b', 'c', 'd', 'e', 'f']
}

/// Lowercase hexadecimal text of a byte sequence: two digits per byte, high nibble first.
pub open spec fn hex_of(bytes: Seq<u8>) -> Seq<char> {
    Seq::new(
        2 * bytes.len(),
        |i: int|
            if i % 2 == 0 {
                hex_digits()[bytes[i / 2] as int / 16]
            } else {
                hex_digits()[bytes[i / 2] as int % 16]
            },
    )
}

/// The content hash of a byte sequence: its SHA-256 digest in lowercase hexadecimal.
pub open spec fn content_digest(data: Seq<u8>) -> Seq<char> {
    hex_of(sha256_of(data))
}

/// A well-formed content hash: 64 lowercase hexadecimal digits.
pub open spec fn is_content_hash(h: Seq<char>) -> bool {
    &&& h.len() == 64
    &&& forall|i: int| 0 <= i < h.len() ==> #[trigger] hex_digits().contains(h[i])
}

/// Relies on sha2's `Digest::digest` for `Sha256`: the 32-byte SHA-256 digest of `data`.
#[verifier::external_body]
fn sha256_digest(data: &[u8]) -> (r: Vec<u8>)
    ensures
        r@ == sha256_of(data@),
        r@.len() == 32,
{
    <sha2::Sha256 as sha2::Digest>::digest(data).to_vec()
}

/// Relies on `hex::encode`: each byte becomes two lowercase hexadecimal digits,
/// high nibble first.
#[verifier::external_body]
fn hex_encode(bytes: &[u8]) -> (r: String)
    ensures
        r@ == hex_of(bytes@),
{
    hex::encode(bytes)
}

proof fn lemma_hex_of_is_hex(bytes: Seq<u8>)
    ensures
        hex_of(bytes).len() == 2 * bytes.len(),
        forall|i: int| 0 <= i < hex_of(bytes).len() ==> #[trigger] hex_digits().contains(hex_of(bytes)[i]),
{
    assert forall|i: int| 0 <= i < hex_of(bytes).len() implies #[trigger] hex_digits().contains(hex_of(bytes)[i]) by {
        let b = bytes[i / 2] as int;
        if i % 2 == 0 {
            assert(hex_digits()[b / 16] == hex_of(bytes)[i]);
        } else {
            assert(hex_digits()[b % 16] == hex_of(bytes)[i]);
        }
    }
}

/// The content hash of `data`: the lowercase hexadecimal SHA-256 digest, 64 characters long.
pub fn content_hash(data: &[u8]) -> (r: String)
    ensures
        r@ == content_digest(data@),
        sha256_of(data@).len() == 32,
        is_content_hash(r@),
{
    let digest = sha256_digest(data);
    let r = hex_encode(digest.as_slice());
    proof {
        lemma_hex_of_is_hex(digest@);
    }
    r
}

/// Hashing the same bytes twice gives the same digest, a well-formed 64-digit content hash.
pub proof fn lemma_hash_deterministic(a: Seq<u8>, b: Seq<u8>)
    requires
        a == b,
        sha256_of(a).len() == 32,
    ensures
        content_digest(a) == content_digest(b),
        is_content_hash(content_digest(a)),
{
    lemma_hex_of_is_hex(sha256_of(a));
}

} // verus!
