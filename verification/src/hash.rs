//! The canonical post identifier and the cache content address.
//!
//! A post's identity is a pure function of the feed's canonical URL, the
//! verbatim RFC 3339 timestamp string and the verbatim raw content: the
//! three joined by newlines, digested with BLAKE2b-256, Base32-encoded
//! (RFC 4648, no padding), lowercased, and truncated to the last seven
//! characters.  Cache files are addressed by the lowercase hex SHA-256
//! of the request URL.

use vstd::prelude::*;
use vstd::string::StringExecFns;
use sha2::Digest;

verus! {

use crate::text::chars_of;
use crate::text::string_from_chars;

/// The BLAKE2b digest with 32-byte output of the UTF-8 bytes of a string.
pub uninterp spec fn blake2b256_of(payload: Seq<char>) -> Seq<u8>;

/// Relies on `blake2::Blake2b256` (BLAKE2b with a 32-byte output
/// parameter): the digest is a function of the input bytes alone and is
/// 32 bytes long.
#[verifier::external_body]
fn blake2b256_digest(payload: &str) -> (r: Vec<u8>)
    ensures
        r@ == blake2b256_of(payload@),
        r@.len() == 32,
{
    let mut hasher = blake2::Blake2b256::new();
    hasher.update(payload.as_bytes());
    hasher.finalize().to_vec()
}

/// The SHA-256 digest of the UTF-8 bytes of a string.
pub uninterp spec fn sha256_of(text: Seq<char>) -> Seq<u8>;

/// Relies on `sha2::Sha256`: the digest is a function of the input bytes
/// alone and is 32 bytes long.
#[verifier::external_body]
fn sha256_digest(text: &str) -> (r: Vec<u8>)
    ensures
        r@ == sha256_of(text@),
        r@.len() == 32,
{
    let mut hasher = sha2::Sha256::new();
    hasher.update(text.as_bytes());
    hasher.finalize().to_vec()
}

/// The RFC 4648 Base32 encoding, without padding, upper-case alphabet.
pub uninterp spec fn base32_nopad_of(data: Seq<u8>) -> Seq<char>;

/// Relies on `data_encoding::BASE32_NOPAD.encode`: the encoding is a
/// function of the input bytes alone, five bits per character, so the
/// output holds ceil(8n/5) characters.  `encode_len` panics above
/// `usize::MAX / 512`, hence the bound on the input.
#[verifier::external_body]
fn base32_nopad_encode(data: &Vec<u8>) -> (r: String)
    requires
        data@.len() <= usize::MAX / 512,
    ensures
        r@ == base32_nopad_of(data@),
        r@.len() == (data@.len() * 8 + 4) / 5,
{
    data_encoding::BASE32_NOPAD.encode(data.as_slice())
}

/// The lowercase hex digit for a nibble.
pub open spec fn hex_digit(n: int) -> char {
    if n == 0 {
        '0'
    } else if n == 1 {
        '1'
    } else if n == 2 {
        '2'
    } else if n == 3 {
        '3'
    } else if n == 4 {
        '4'
    } else if n == 5 {
        '5'
    } else if n == 6 {
        '6'
    } else if n == 7 {
        '7'
    } else if n == 8 {
        '8'
    } else if n == 9 {
        '9'
    } else if n == 10 {
        'a'
    } else if n == 11 {
        'b'
    } else if n == 12 {
        'c'
    } else if n == 13 {
        'd'
    } else if n == 14 {
        'e'
    } else {
        'f'
    }
}

/// Lowercase hex encoding: two digits per byte, high nibble first.
pub open spec fn hex_of(data: Seq<u8>) -> Seq<char>
    decreases data.len(),
{
    if data.len() == 0 {
        Seq::empty()
    } else {
        seq![hex_digit(data.first() as int / 16), hex_digit(data.first() as int % 16)] + hex_of(
            data.drop_first(),
        )
    }
}

pub proof fn lemma_hex_of_len(data: Seq<u8>)
    ensures
        hex_of(data).len() == 2 * data.len(),
    decreases data.len(),
{
    if data.len() > 0 {
        lemma_hex_of_len(data.drop_first());
    }
}

/// Relies on `hex::encode`: lowercase hex, two digits per byte, high
/// nibble first.
#[verifier::external_body]
fn hex_encode(data: &Vec<u8>) -> (r: String)
    ensures
        r@ == hex_of(data@),
{
    hex::encode(data.as_slice())
}

/// ASCII upper-case letters mapped to lower case; all else unchanged.
pub open spec fn spec_lower_char(c: char) -> char {
    if 65 <= c as u32 && c as u32 <= 90 {
        (((c as u32 + 32) as u8) as char)
    } else {
        c
    }
}

/// Executable counterpart of [`spec_lower_char`].
fn lower_char(c: char) -> (r: char)
    ensures
        r == spec_lower_char(c),
{
    let u = c as u32;
    if 65 <= u && u <= 90 {
        ((u + 32) as u8) as char
    } else {
        c
    }
}

/// Each character lowercased as [`spec_lower_char`].
pub open spec fn spec_lower(s: Seq<char>) -> Seq<char> {
    s.map_values(|c: char| spec_lower_char(c))
}

/// The last seven characters (all of them, when fewer).
pub open spec fn spec_last7(s: Seq<char>) -> Seq<char> {
    if s.len() <= 7 {
        s
    } else {
        s.subrange(s.len() - 7, s.len() as int)
    }
}

/// The three hash inputs joined by single newlines, verbatim.
pub open spec fn twt_hash_payload(url: Seq<char>, ts: Seq<char>, content: Seq<char>) -> Seq<char> {
    url + seq!['\n'] + ts + seq!['\n'] + content
}

/// The canonical post identifier as a function of the three verbatim
/// inputs: BLAKE2b-256 of the joined payload, Base32 without padding,
/// lowercased, last seven characters.
pub open spec fn spec_twt_hash(url: Seq<char>, ts: Seq<char>, content: Seq<char>) -> Seq<char> {
    spec_last7(spec_lower(base32_nopad_of(blake2b256_of(twt_hash_payload(url, ts, content)))))
}

/// Compute the canonical post identifier from the feed's canonical URL,
/// the verbatim RFC 3339 timestamp string, and the verbatim raw content.
/// Deterministic and total; always seven characters.
pub fn compute_twt_hash(feed_url: &str, timestamp: &str, text: &str) -> (r: String)
    ensures
        r@ == spec_twt_hash(feed_url@, timestamp@, text@),
        r@.len() == 7,
{
    let mut payload = String::new();
    payload.append(feed_url);
    payload.append("\n");
    payload.append(timestamp);
    payload.append("\n");
    payload.append(text);
    proof {
        reveal_strlit("\n");
        assert("\n"@ =~= seq!['\n']);
        assert(payload@ =~= twt_hash_payload(feed_url@, timestamp@, text@));
    }
    let digest = blake2b256_digest(payload.as_str());
    let encoded = base32_nopad_encode(&digest);
    let chars = chars_of(encoded.as_str());
    let mut low: Vec<char> = Vec::new();
    let mut i: usize = 0;
    while i < chars.len()
        invariant
            0 <= i <= chars@.len(),
            low@ =~= chars@.subrange(0, i as int).map_values(|c: char| spec_lower_char(c)),
        decreases chars@.len() - i,
    {
        low.push(lower_char(chars[i]));
        proof {
            assert(chars@.subrange(0, i + 1 as int) =~= chars@.subrange(0, i as int).push(
                chars@[i as int],
            ));
        }
        i = i + 1;
    }
    proof {
        assert(chars@.subrange(0, chars@.len() as int) =~= chars@);
        assert(low@ =~= spec_lower(chars@));
    }
    let start: usize = if low.len() <= 7 {
        0
    } else {
        low.len() - 7
    };
    let mut out: Vec<char> = Vec::new();
    let mut j: usize = start;
    while j < low.len()
        invariant
            start <= j <= low@.len(),
            out@ =~= low@.subrange(start as int, j as int),
        decreases low@.len() - j,
    {
        out.push(low[j]);
        proof {
            assert(low@.subrange(start as int, j + 1 as int) =~= low@.subrange(
                start as int,
                j as int,
            ).push(low@[j as int]));
        }
        j = j + 1;
    }
    proof {
        assert(out@ =~= spec_last7(low@));
    }
    string_from_chars(&out)
}

/// The content address of a URL in the disk cache: lowercase hex SHA-256
/// of the URL string.  Also used as the content hash that guards the
/// parsed-bundle cache.
pub fn hash_sha256_str(s: &str) -> (r: String)
    ensures
        r@ == hex_of(sha256_of(s@)),
        r@.len() == 64,
{
    let digest = sha256_digest(s);
    let r = hex_encode(&digest);
    proof {
        lemma_hex_of_len(sha256_of(s@));
    }
    r
}

} // verus!
