//! Conditional-GET cache decisions.
//!
//! The stores are addressed by a digest of the request URL; the I/O
//! layer loads any stored entry, performs the GET with the stored
//! validators attached, and hands the plain outcome (status, validator
//! headers, body) to the decision functions here, which say what to
//! return to the caller and what to write back to disk.  A 304 returns
//! the stored payload unchanged — and is an error when nothing is
//! stored; a 2xx replaces payload and validators; any other status is a
//! transport error.  This layer never retries.

use vstd::prelude::*;

verus! {

use crate::text::opt_string_view;

/// A stored text payload with its validators.
#[derive(Debug)]
pub struct CacheEntry {
    pub content: String,
    pub etag: Option<String>,
    pub last_modified: Option<String>,
}

/// Spec-level value of a [`CacheEntry`].
#[verifier::ext_equal]
pub struct SpecCacheEntry {
    pub content: Seq<char>,
    pub etag: Option<Seq<char>>,
    pub last_modified: Option<Seq<char>>,
}

impl View for CacheEntry {
    type V = SpecCacheEntry;

    open spec fn view(&self) -> SpecCacheEntry {
        SpecCacheEntry {
            content: self.content@,
            etag: opt_string_view(self.etag),
            last_modified: opt_string_view(self.last_modified),
        }
    }
}

pub open spec fn opt_entry_view(o: Option<CacheEntry>) -> Option<SpecCacheEntry> {
    match o {
        Some(e) => Some(e@),
        None => None,
    }
}

/// A stored binary payload with its validators.  Payload and validators
/// live in separate files on disk, so a validator refresh never rewrites
/// a large payload.
#[derive(Debug)]
pub struct BinaryCacheEntry {
    pub data: Vec<u8>,
    pub etag: Option<String>,
    pub last_modified: Option<String>,
}

/// Spec-level value of a [`BinaryCacheEntry`].
#[verifier::ext_equal]
pub struct SpecBinaryCacheEntry {
    pub data: Seq<u8>,
    pub etag: Option<Seq<char>>,
    pub last_modified: Option<Seq<char>>,
}

impl View for BinaryCacheEntry {
    type V = SpecBinaryCacheEntry;

    open spec fn view(&self) -> SpecBinaryCacheEntry {
        SpecBinaryCacheEntry {
            data: self.data@,
            etag: opt_string_view(self.etag),
            last_modified: opt_string_view(self.last_modified),
        }
    }
}

pub open spec fn opt_bin_entry_view(o: Option<BinaryCacheEntry>) -> Option<SpecBinaryCacheEntry> {
    match o {
        Some(e) => Some(e@),
        None => None,
    }
}

/// Why a fetch yielded no payload.
#[derive(PartialEq, Eq, Structural, Clone, Copy, Debug)]
pub enum CacheError {
    /// The server answered 304 Not Modified, but nothing is stored
    /// locally: the server claims "not modified" against content the
    /// client never had.
    NotModifiedWithoutCache,
    /// A response status that is neither 2xx nor 304.
    HttpStatus(u16),
}

/// The validator headers to attach to a conditional GET: the stored
/// entry's `ETag` (as `If-None-Match`) and `Last-Modified` (as
/// `If-Modified-Since`), each only when present.
pub fn conditional_validators(cached: &Option<CacheEntry>) -> (r: (Option<String>, Option<String>))
    ensures
        opt_string_view(r.0) == (match opt_entry_view(*cached) {
            Some(e) => e.etag,
            None => None,
        }),
        opt_string_view(r.1) == (match opt_entry_view(*cached) {
            Some(e) => e.last_modified,
            None => None,
        }),
{
    match cached {
        Some(e) => {
            let etag = match &e.etag {
                Some(t) => Some(t.clone()),
                None => None,
            };
            let last_modified = match &e.last_modified {
                Some(t) => Some(t.clone()),
                None => None,
            };
            (etag, last_modified)
        },
        None => (None, None),
    }
}

/// What a text fetch returns and stores, given the stored entry and the
/// response: on 304 the stored content, storing nothing new; on 2xx the
/// response body, stored together with whatever validators the response
/// carried (an absent validator clears that slot).
pub open spec fn spec_text_decision(
    cached: Option<SpecCacheEntry>,
    status: u16,
    etag: Option<Seq<char>>,
    last_modified: Option<Seq<char>>,
    body: Seq<char>,
) -> Result<(Seq<char>, Option<SpecCacheEntry>), CacheError> {
    if status == 304 {
        match cached {
            Some(e) => Ok((e.content, None)),
            None => Err(CacheError::NotModifiedWithoutCache),
        }
    } else if 200 <= status && status <= 299 {
        Ok((body, Some(SpecCacheEntry { content: body, etag, last_modified })))
    } else {
        Err(CacheError::HttpStatus(status))
    }
}

/// Decide what a text fetch returns and what to write back, from the
/// stored entry and the response's status, validator headers, and body.
pub fn process_text_response(
    cached: Option<CacheEntry>,
    status: u16,
    etag: Option<String>,
    last_modified: Option<String>,
    body: String,
) -> (r: Result<(String, Option<CacheEntry>), CacheError>)
    ensures
        match r {
            Ok(p) => spec_text_decision(
                opt_entry_view(cached),
                status,
                opt_string_view(etag),
                opt_string_view(last_modified),
                body@,
            ) == Ok::<_, CacheError>((p.0@, opt_entry_view(p.1))),
            Err(e) => spec_text_decision(
                opt_entry_view(cached),
                status,
                opt_string_view(etag),
                opt_string_view(last_modified),
                body@,
            ) == Err::<(Seq<char>, Option<SpecCacheEntry>), _>(e),
        },
{
    if status == 304 {
        match cached {
            Some(e) => Ok((e.content, None)),
            None => Err(CacheError::NotModifiedWithoutCache),
        }
    } else if 200 <= status && status <= 299 {
        let entry = CacheEntry { content: body, etag, last_modified };
        let content = entry.content.clone();
        proof {
            assert(content@ == entry.content@);
        }
        Ok((content, Some(entry)))
    } else {
        Err(CacheError::HttpStatus(status))
    }
}

/// What a binary fetch returns and stores; as the text decision, over
/// the stored payload alone (its validators were already attached to
/// the request and do not matter here).
pub open spec fn spec_binary_decision(
    cached: Option<Seq<u8>>,
    status: u16,
    etag: Option<Seq<char>>,
    last_modified: Option<Seq<char>>,
    body: Seq<u8>,
) -> Result<(Seq<u8>, Option<SpecBinaryCacheEntry>), CacheError> {
    if status == 304 {
        match cached {
            Some(d) => Ok((d, None)),
            None => Err(CacheError::NotModifiedWithoutCache),
        }
    } else if 200 <= status && status <= 299 {
        Ok((body, Some(SpecBinaryCacheEntry { data: body, etag, last_modified })))
    } else {
        Err(CacheError::HttpStatus(status))
    }
}

pub open spec fn opt_bytes_view(o: Option<Vec<u8>>) -> Option<Seq<u8>> {
    match o {
        Some(d) => Some(d@),
        None => None,
    }
}

/// Decide what a binary fetch returns and what to write back.  A 304
/// whose stored payload cannot be read is handed in as `None` and is
/// the same consistency error as a missing entry.
pub fn process_binary_response(
    cached: Option<Vec<u8>>,
    status: u16,
    etag: Option<String>,
    last_modified: Option<String>,
    body: Vec<u8>,
) -> (r: Result<(Vec<u8>, Option<BinaryCacheEntry>), CacheError>)
    ensures
        match r {
            Ok(p) => spec_binary_decision(
                opt_bytes_view(cached),
                status,
                opt_string_view(etag),
                opt_string_view(last_modified),
                body@,
            ) == Ok::<_, CacheError>((p.0@, opt_bin_entry_view(p.1))),
            Err(e) => spec_binary_decision(
                opt_bytes_view(cached),
                status,
                opt_string_view(etag),
                opt_string_view(last_modified),
                body@,
            ) == Err::<(Seq<u8>, Option<SpecBinaryCacheEntry>), _>(e),
        },
{
    if status == 304 {
        match cached {
            Some(d) => Ok((d, None)),
            None => Err(CacheError::NotModifiedWithoutCache),
        }
    } else if 200 <= status && status <= 299 {
        let entry = BinaryCacheEntry { data: body, etag, last_modified };
        let data = clone_bytes(&entry.data);
        Ok((data, Some(entry)))
    } else {
        Err(CacheError::HttpStatus(status))
    }
}

/// Copy a byte vector.
fn clone_bytes(v: &Vec<u8>) -> (r: Vec<u8>)
    ensures
        r@ == v@,
{
    let mut r: Vec<u8> = Vec::new();
    let mut i: usize = 0;
    while i < v.len()
        invariant
            0 <= i <= v@.len(),
            r@ == v@.subrange(0, i as int),
        decreases v@.len() - i,
    {
        r.push(v[i]);
        proof {
            assert(v@.subrange(0, i + 1 as int) =~= v@.subrange(0, i as int).push(v@[i as int]));
        }
        i = i + 1;
    }
    proof {
        assert(v@.subrange(0, v@.len() as int) =~= v@);
    }
    r
}

} // verus!
