//! Names for cached images: the file under which the image of a URL is
//! kept.

use vstd::prelude::*;
use vstd::string::StringSliceAdditionalSpecFns;

verus! {

/// The longest input, in bytes, that is handed to the encoder.
pub const MAX_KEY_INPUT: usize = 0x4000_0000;

/// The Crockford base-32 text of `data`, as the `base32` crate encodes it.
pub uninterp spec fn crockford_base32(data: Seq<u8>) -> Seq<char>;

/// A character of the Crockford alphabet: a digit, or a capital letter
/// other than `I`, `L`, `O` and `U`.
pub open spec fn is_crockford_char(c: char) -> bool {
    ('0' <= c && c <= '9') || ('A' <= c && c <= 'Z' && c != 'I' && c != 'L' && c != 'O' && c
        != 'U')
}

/// How many characters encode `n` bytes: one for every five bits, the last
/// one filled up, and no padding.
pub open spec fn crockford_len(n: nat) -> nat {
    (8 * n + 4) / 5
}

/// Calls `base32::encode` with the Crockford alphabet. The encoding is a
/// function of the bytes alone. Of the text itself two things are claimed:
/// every character is taken from the encoder's table of 32 characters, and
/// there is one character for every five bits of input, without padding.
/// Inputs are bounded so that the buffer that the encoder reserves stays
/// within what a vector can hold.
#[verifier::external_body]
fn encode_crockford(data: &[u8]) -> (text: String)
    requires
        data@.len() <= MAX_KEY_INPUT,
    ensures
        text@ == crockford_base32(data@),
        text@.len() == crockford_len(data@.len()),
        forall|i: int| 0 <= i < text@.len() ==> is_crockford_char(#[trigger] text@[i]),
{
    base32::encode(base32::Alphabet::Crockford, data)
}

/// A name that stays within its directory: it holds no path separator and
/// no dot.
pub open spec fn is_plain_file_name(name: Seq<char>) -> bool {
    forall|i: int| 0 <= i < name.len() ==> (#[trigger] name[i]) != '/' && name[i] != '\\' && name[i]
        != '.'
}

/// Where the images of URLs are cached.
#[derive(Debug, Clone, PartialEq, Eq)]
pub struct ImageCache {
    pub cache_dir: String,
}

impl ImageCache {
    pub fn new(cache_dir: String) -> (c: ImageCache)
        ensures
            c.cache_dir == cache_dir,
    {
        ImageCache { cache_dir }
    }

    /// The directory of the cache, relative to the data directory.
    pub fn rel_dir() -> (s: &'static str)
        ensures
            s@ == "img"@,
    {
        "img"
    }

    /// The name of the file that caches the image of `url`: the Crockford
    /// base-32 text of the URL's bytes, which is a plain file name.
    pub fn key(url: &str) -> (k: String)
        requires
            url.spec_bytes().len() <= MAX_KEY_INPUT,
        ensures
            k@ == crockford_base32(url.spec_bytes()),
            k@.len() == crockford_len(url.spec_bytes().len()),
            forall|i: int| 0 <= i < k@.len() ==> is_crockford_char(#[trigger] k@[i]),
            is_plain_file_name(k@),
    {
        encode_crockford(url.as_bytes())
    }
}

} // verus!
