//! Content-addressed compilation caching: a cache key is the hex-encoded
//! digest of the source text, and a cached artifact lives under
//! `<cache_dir>/<key>.rs`. The filesystem itself is a boundary collaborator;
//! this module computes keys and paths.
use vstd::prelude::*;
use vstd::string::{StrSliceExecFns, StringSliceAdditionalSpecFns, StringExecFns};
use sha2::Digest;

verus! {

/// The digest of a byte sequence. The result depends on the bytes alone.
pub uninterp spec fn sha256_of(data: Seq<u8>) -> Seq<u8>;

/// Relies on `sha2::Sha256` (`Digest::update` then `Digest::finalize`): the
/// digest depends on the input bytes alone and is 32 bytes long.
#[verifier::external_body]
fn sha256_digest(data: &[u8]) -> (r: Vec<u8>)
    ensures
        r@ == sha256_of(data@),
        r@.len() == 32,
{
    let mut hasher = sha2::Sha256::new();
    hasher.update(data);
    hasher.finalize().to_vec()
}

/// One lowercase hex digit.
pub open spec fn spec_hex_digit(d: int) -> char {
    if d == 0 {
        '0'
    } else if d == 1 {
        '1'
    } else if d == 2 {
        '2'
    } else if d == 3 {
        '3'
    } else if d == 4 {
        '4'
    } else if d == 5 {
        '5'
    } else if d == 6 {
        '6'
    } else if d == 7 {
        '7'
    } else if d == 8 {
        '8'
    } else if d == 9 {
        '9'
    } else if d == 10 {
        'a'
    } else if d == 11 {
        'b'
    } else if d == 12 {
        'c'
    } else if d == 13 {
        'd'
    } else if d == 14 {
        'e'
    } else {
        'f'
    }
}

/// The lowercase hex encoding of a byte sequence: two digits per byte,
/// high nibble first.
pub open spec fn hex_of(b: Seq<u8>) -> Seq<char>
    decreases b.len(),
{
    if b.len() == 0 {
        Seq::empty()
    } else {
        hex_of(b.drop_last()) + seq![
            spec_hex_digit(b.last() as int / 16),
            spec_hex_digit(b.last() as int % 16),
        ]
    }
}

/// The encoding is two characters per byte.
pub proof fn lemma_hex_of_len(b: Seq<u8>)
    ensures
        hex_of(b).len() == 2 * b.len(),
    decreases b.len(),
{
    if b.len() > 0 {
        lemma_hex_of_len(b.drop_last());
    }
}

/// Relies on `hex::encode` (`BytesToHexChars` over `HEX_CHARS_LOWER`): two
/// lowercase digits per input byte, high nibble first.
#[verifier::external_body]
fn hex_encode(b: &Vec<u8>) -> (r: String)
    ensures
        r@ == hex_of(b@),
{
    hex::encode(b)
}

/// The hash-keyed store of previously generated native source text. Reading
/// and writing the store is the caller's part; the key and path logic lives
/// here.
pub struct Cache {
    pub cache_dir: String,
}

impl Cache {
    /// A cache rooted at the given directory; creating the directory on
    /// disk is the caller's part.
    pub fn new(cache_dir: &str) -> (r: Cache)
        ensures
            r.cache_dir@ == cache_dir@,
    {
        Cache { cache_dir: crate::text::str_to_string(cache_dir) }
    }

    /// The cache key of a source text: the hex-encoded digest of its bytes,
    /// 64 characters long.
    pub fn get_hash(source: &str) -> (r: String)
        ensures
            r@ == hex_of(sha256_of(source.spec_bytes())),
            r@.len() == 64,
    {
        let bytes = source.as_bytes();
        let digest = sha256_digest(bytes);
        proof {
            lemma_hex_of_len(digest@);
        }
        hex_encode(&digest)
    }

    /// The artifact path of a cache key: `<cache_dir>/<key>.rs`.
    pub fn get_cache_path(&self, source_hash: &str) -> (r: String)
        ensures
            r@ == self.cache_dir@ + "/"@ + source_hash@ + ".rs"@,
    {
        let mut out = crate::text::str_to_string(self.cache_dir.as_str());
        out.append("/");
        out.append(source_hash);
        out.append(".rs");
        out
    }
}

} // verus!
