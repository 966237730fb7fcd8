//! The fingerprinted, TTL-gated cache of scan results.
//!
//! A cache entry is keyed by a storage directory together with the
//! fingerprint of the search path: the SHA-256 digest of the path text,
//! truncated to its first 16 hexadecimal characters. The entry file is named
//! `repos_<fingerprint>.cache` and holds the records in the tab-separated
//! text form of [`crate::records`]. Freshness is decided purely from the
//! entry's age: an entry is fresh exactly when its age in whole seconds is
//! still below the time-to-live, so a time-to-live of zero means always
//! stale. Reading and writing the entry files is the caller's business; this
//! module supplies the key derivation, the text form, and the freshness
//! rule.

use vstd::prelude::*;
use crate::records::{
    decode_records, encode_records, spec_decode, spec_encode, GitRepo,
};
use vstd::string::{StrSliceExecFns, StringExecFns};

verus! {

/// What SHA-256, rendered in lowercase hexadecimal, makes of a character
/// sequence. The digest is a function of the input characters alone.
pub uninterp spec fn sha256_hex_of(s: Seq<char>) -> Seq<char>;

/// Relies on sha2's `Sha256` through the `Digest` trait: the SHA-256 digest
/// of the UTF-8 bytes of `s`, rendered as 64 lowercase hexadecimal
/// characters (two per digest byte); the result depends on `s` alone.
#[verifier::external_body]
fn sha256_hex(s: &str) -> (r: String)
    ensures
        r@ == sha256_hex_of(s@),
        r@.len() == 64,
{
    let digest = <sha2::Sha256 as sha2::Digest>::digest(s.as_bytes());
    format!("{:x}", digest)
}

/// The fingerprint of a search path: the first 16 hexadecimal characters of
/// its SHA-256 digest.
pub open spec fn spec_fingerprint(p: Seq<char>) -> Seq<char> {
    sha256_hex_of(p).take(16)
}

/// Derives the cache key for a search path, exactly as given: no
/// normalization, so a path and the same path with a trailing separator get
/// different fingerprints.
pub fn fingerprint(search_path: &str) -> (r: String)
    ensures
        r@ == spec_fingerprint(search_path@),
{
    let h = sha256_hex(search_path);
    let prefix = h.as_str().substring_char(0, 16);
    proof {
        assert(prefix@ =~= spec_fingerprint(search_path@));
    }
    prefix.to_owned()
}

/// Equal path texts always yield equal fingerprints: the fingerprint is a
/// function of the path text alone, in every call and every process.
pub proof fn lemma_fingerprint_deterministic(p: Seq<char>, q: Seq<char>)
    requires
        p == q,
    ensures
        spec_fingerprint(p) == spec_fingerprint(q),
{
}

/// The file name of the cache entry for a fingerprint: `repos_`, the
/// fingerprint, then `.cache`.
pub open spec fn spec_cache_file_name(p: Seq<char>) -> Seq<char> {
    "repos_"@ + spec_fingerprint(p) + ".cache"@
}

/// The cache layer: where entries are stored and how long they stay fresh.
#[derive(Debug)]
pub struct Cache {
    /// The storage directory that holds every entry file.
    pub cache_dir: String,
    /// Maximum age, in whole seconds, at which an entry still counts as
    /// fresh.
    pub ttl_seconds: u64,
}

impl Cache {
    /// Builds a cache over the given storage directory with the given
    /// time-to-live.
    pub fn with_dir(cache_dir: String, ttl_seconds: u64) -> (r: Cache)
        ensures
            r.cache_dir@ == cache_dir@,
            r.ttl_seconds == ttl_seconds,
    {
        Cache { cache_dir, ttl_seconds }
    }

    /// The storage directory that holds every entry file.
    pub fn cache_dir(&self) -> (r: &String)
        ensures
            r@ == self.cache_dir@,
    {
        &self.cache_dir
    }

    /// The file name of the entry for `search_path`.
    pub fn cache_file_name(&self, search_path: &str) -> (r: String)
        ensures
            r@ == spec_cache_file_name(search_path@),
    {
        let mut r: String = "repos_".to_owned();
        let fp = fingerprint(search_path);
        r.append(fp.as_str());
        r.append(".cache");
        r
    }

    /// The full path of the entry file for `search_path`: the storage
    /// directory, a separator, then the entry file name.
    pub fn cache_file_path(&self, search_path: &str) -> (r: String)
        ensures
            r@ == self.cache_dir@ + "/"@ + spec_cache_file_name(search_path@),
    {
        let mut r = self.cache_dir.clone();
        r.append("/");
        let name = self.cache_file_name(search_path);
        r.append(name.as_str());
        r
    }

    /// The freshness rule: an entry of the given age is fresh exactly when
    /// the age is still strictly below the time-to-live. An entry is never
    /// fresh under a time-to-live of zero, and stops being fresh the moment
    /// its age reaches the time-to-live.
    pub fn is_fresh(&self, age_seconds: u64) -> (r: bool)
        ensures
            r == (age_seconds < self.ttl_seconds),
    {
        age_seconds < self.ttl_seconds
    }

    /// Serializes records into the cache entry text.
    pub fn encode_entry(&self, repos: &[GitRepo]) -> (r: String)
        ensures
            r@ == spec_encode(repos.deep_view()),
    {
        encode_records(repos)
    }

    /// Parses cache entry text back into records, dropping every malformed
    /// line.
    pub fn decode_entry(&self, contents: &str) -> (r: Vec<GitRepo>)
        ensures
            r.deep_view() == spec_decode(contents@),
    {
        decode_records(contents)
    }
}

/// Whether a file name follows the cache entry convention: a nonempty stem
/// followed by the `.cache` extension.
pub open spec fn spec_is_cache_file_name(n: Seq<char>) -> bool {
    n.len() > 6 && n.skip(n.len() - 6) == ".cache"@
}

/// Recognizes cache entry file names: a nonempty stem followed by the
/// `.cache` extension.
pub fn is_cache_file_name(name: &str) -> (r: bool)
    ensures
        r == spec_is_cache_file_name(name@),
{
    let chars = crate::text::str_to_chars(name);
    if chars.len() <= 6 {
        return false;
    }
    let n = chars.len();
    proof {
        reveal_strlit(".cache");
        assert(".cache"@.len() == 6);
    }
    let ok = chars[n - 6] == '.' && chars[n - 5] == 'c' && chars[n - 4] == 'a' && chars[n - 3]
        == 'c' && chars[n - 2] == 'h' && chars[n - 1] == 'e';
    proof {
        if ok {
            assert(name@.skip(name@.len() - 6) =~= ".cache"@);
        } else {
            if name@.skip(name@.len() - 6) == ".cache"@ {
                assert(name@.skip(name@.len() - 6)[0] == '.');
                assert(name@.skip(name@.len() - 6)[1] == 'c');
                assert(name@.skip(name@.len() - 6)[2] == 'a');
                assert(name@.skip(name@.len() - 6)[3] == 'c');
                assert(name@.skip(name@.len() - 6)[4] == 'h');
                assert(name@.skip(name@.len() - 6)[5] == 'e');
            }
        }
    }
    ok
}

} // verus!
