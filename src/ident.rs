//! Stable short identifiers and cache keys derived from path strings.

use sha2::Digest;
use vstd::prelude::*;

use crate::text::{
    all_hex_digits, hex_lower, hex_value, lemma_hex_lower_digits, parse_hex_exact,
};

verus! {

/// The SHA-256 digest of the UTF-8 encoding of a string.
pub uninterp spec fn sha256_of(s: Seq<char>) -> Seq<u8>;

/// Relies on sha2::Sha256 (`update`, then `finalize`): the 32-byte SHA-256
/// digest of the string's UTF-8 bytes, a function of the string alone.
#[verifier::external_body]
fn sha256(s: &str) -> (r: Vec<u8>)
    ensures
        r@ == sha256_of(s@),
        r@.len() == 32,
{
    let mut hasher = sha2::Sha256::new();
    hasher.update(s.as_bytes());
    hasher.finalize().to_vec()
}

/// Relies on hex::encode: two lowercase hexadecimal digits per byte, the
/// high nibble first.
#[verifier::external_body]
fn hex_encode(b: &[u8]) -> (r: String)
    ensures
        r@ == hex_lower(b@),
{
    hex::encode(b)
}

/// Number of digest bytes that an identifier keeps.
pub const ID_BYTES: usize = 8;

/// Number of characters of an identifier.
pub const ID_LEN: usize = 16;

/// The identifier of a path: the first eight bytes of its SHA-256 digest,
/// as sixteen lowercase hexadecimal digits.
pub open spec fn path_id(p: Seq<char>) -> Seq<char> {
    hex_lower(sha256_of(p).subrange(0, ID_BYTES as int))
}

/// The cache key of a path: its whole SHA-256 digest in lowercase hexadecimal.
pub open spec fn path_cache_key(p: Seq<char>) -> Seq<char> {
    hex_lower(sha256_of(p))
}

/// Whether `s` has the shape of an identifier: sixteen lowercase hexadecimal digits.
pub open spec fn is_id(s: Seq<char>) -> bool {
    s.len() == ID_LEN && all_hex_digits(s)
}

/// The number that an identifier spells; the registry is keyed by it.
pub open spec fn id_number(s: Seq<char>) -> u64 {
    hex_value(s) as u64
}

/// Every path's identifier has the shape of an identifier, and spells a
/// number below two to the sixty-fourth.
pub proof fn lemma_path_id_shape(p: Seq<char>)
    requires
        sha256_of(p).len() >= ID_BYTES,
    ensures
        is_id(path_id(p)),
        hex_value(path_id(p)) < 0x1_0000_0000_0000_0000,
{
    lemma_hex_lower_digits(sha256_of(p).subrange(0, ID_BYTES as int));
    crate::text::lemma_hex_value_bound(path_id(p));
    crate::text::lemma_pow16_sixteen();
}

/// The short identifier of a path. The same path always yields the same identifier.
pub fn derive_id(path: &str) -> (id: String)
    ensures
        id@ == path_id(path@),
        is_id(id@),
{
    let digest = sha256(path);
    let mut prefix: Vec<u8> = Vec::new();
    let mut i: usize = 0;
    while i < ID_BYTES
        invariant
            digest@.len() == 32,
            i <= ID_BYTES,
            prefix@ == digest@.subrange(0, i as int),
        decreases ID_BYTES - i,
    {
        prefix.push(digest[i]);
        i = i + 1;
        proof {
            assert(prefix@ =~= digest@.subrange(0, i as int));
        }
    }
    proof {
        lemma_path_id_shape(path@);
    }
    hex_encode(prefix.as_slice())
}

/// The cache key of a path: sixty-four lowercase hexadecimal digits.
pub fn cache_key(path: &str) -> (key: String)
    ensures
        key@ == path_cache_key(path@),
        key@.len() == 64,
{
    let digest = sha256(path);
    hex_encode(digest.as_slice())
}

/// The number that a path's identifier spells: the key of the path in
/// tables that are indexed by identifier.
pub open spec fn path_key_of(p: Seq<char>) -> u64 {
    id_number(path_id(p))
}

/// The identifier of a path, and the number it spells.
pub fn derive_id_and_key(path: &str) -> (r: (String, u64))
    ensures
        r.0@ == path_id(path@),
        is_id(r.0@),
        r.1 == path_key_of(path@),
{
    let id = derive_id(path);
    match id_key(id.as_str()) {
        Some(k) => (id, k),
        None => {
            proof {
                assert(false);
            }
            (id, 0)
        },
    }
}

/// The number that an identifier spells, or `None` when `id` is not sixteen
/// lowercase hexadecimal digits.
pub fn id_key(id: &str) -> (r: Option<u64>)
    ensures
        r == (if is_id(id@) {
            Some(id_number(id@))
        } else {
            None::<u64>
        }),
{
    parse_hex_exact(id, ID_LEN)
}

} // verus!
