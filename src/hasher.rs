use vstd::prelude::*;
use vstd::string::StringSliceAdditionalSpecFns;
use xxhash_rust::xxh3::{xxh3_64, xxh3_64_with_secret};

verus! {

/// The shortest secret that the keyed digest accepts.
pub const MIN_SECRET_LEN: usize = 136;

/// The xxh3 64-bit digest of the UTF-8 encoding of a text.
pub uninterp spec fn xxh3_of(text: Seq<char>) -> u64;

/// The xxh3 64-bit digest of the UTF-8 encoding of a text, keyed by a secret.
pub uninterp spec fn xxh3_secret_of(text: Seq<char>, secret: Seq<u8>) -> u64;

/// Relies on xxhash_rust::xxh3::xxh3_64: a pure function of the bytes it is given.
#[verifier::external_body]
fn xxh3_text(content: &str) -> (r: u64)
    ensures
        r == xxh3_of(content@),
{
    xxh3_64(content.as_bytes())
}

/// Relies on xxhash_rust::xxh3::xxh3_64_with_secret: a pure function of the
/// bytes and the secret; it panics on a secret shorter than 136 bytes.
#[verifier::external_body]
fn xxh3_text_with_secret(content: &str, secret: &[u8]) -> (r: u64)
    requires
        secret@.len() >= MIN_SECRET_LEN,
    ensures
        r == xxh3_secret_of(content@, secret@),
{
    xxh3_64_with_secret(content.as_bytes(), secret)
}

/// The content digest: the same text always gives the same value.
pub fn hash(content: &str) -> (r: u64)
    ensures
        r == xxh3_of(content@),
{
    xxh3_text(content)
}

/// The content digest keyed by a secret, for obfuscation only.
pub fn secret_hash(content: &str, secret: &str) -> (r: u64)
    requires
        secret.spec_bytes().len() >= MIN_SECRET_LEN,
    ensures
        r == xxh3_secret_of(content@, secret.spec_bytes()),
{
    xxh3_text_with_secret(content, secret.as_bytes())
}

/// Hashing is deterministic: equal texts have equal digests.
pub proof fn lemma_hash_deterministic(a: Seq<char>, b: Seq<char>)
    requires
        a == b,
    ensures
        xxh3_of(a) == xxh3_of(b),
{
}

/// Keyed hashing is deterministic: equal texts under equal secrets have equal digests.
pub proof fn lemma_secret_hash_deterministic(a: Seq<char>, b: Seq<char>, s: Seq<u8>, t: Seq<u8>)
    requires
        a == b,
        s == t,
    ensures
        xxh3_secret_of(a, s) == xxh3_secret_of(b, t),
{
}

} // verus!
