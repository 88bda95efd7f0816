//! Feed loading: from raw feed text to a parsed, identity-stable
//! bundle, with a parsed-bundle memo keyed by a content hash.
//!
//! Once the I/O layer has the raw text of a feed, the decision here is:
//! reuse the stored parsed bundle when its content hash matches a fresh
//! hash of the text, otherwise parse metadata, derive the canonical
//! author (declared nick, else the URL's host, else the caller's display
//! name), parse the posts, and hand back a bundle worth storing.  When
//! the caller's own identity must win over file content, the author
//! override rewrites every post afterwards.

use vstd::prelude::*;

verus! {

use crate::hash::hex_of;
use crate::hash::sha256_of;
use crate::hash::hash_sha256_str;
use crate::metadata::Metadata;
use crate::metadata::SpecMetadata;
use crate::metadata::spec_parse_metadata;
use crate::metadata::parse_metadata;
use crate::post::Tweet;
use crate::post::SpecTweet;
use crate::post::tweets_view;
use crate::post::spec_parse_tweets;
use crate::post::parse_tweets;
use crate::text::opt_string_view;
use crate::text::str_eq;

/// The unit produced per source: the posts and any metadata.
#[derive(Debug)]
pub struct FeedBundle {
    pub tweets: Vec<Tweet>,
    pub metadata: Option<Metadata>,
}

/// Spec-level value of a [`FeedBundle`].
#[verifier::ext_equal]
pub struct SpecFeedBundle {
    pub tweets: Seq<SpecTweet>,
    pub metadata: Option<SpecMetadata>,
}

pub open spec fn opt_meta_view(o: Option<Metadata>) -> Option<SpecMetadata> {
    match o {
        Some(m) => Some(m@),
        None => None,
    }
}

impl View for FeedBundle {
    type V = SpecFeedBundle;

    open spec fn view(&self) -> SpecFeedBundle {
        SpecFeedBundle { tweets: tweets_view(self.tweets@), metadata: opt_meta_view(self.metadata) }
    }
}

/// A memoized parse: the bundle and the content hash of the raw text it
/// was parsed from.
#[derive(Debug)]
pub struct ParsedCache {
    pub content_hash: String,
    pub bundle: FeedBundle,
}

/// Spec-level value of a [`ParsedCache`].
#[verifier::ext_equal]
pub struct SpecParsedCache {
    pub content_hash: Seq<char>,
    pub bundle: SpecFeedBundle,
}

impl View for ParsedCache {
    type V = SpecParsedCache;

    open spec fn view(&self) -> SpecParsedCache {
        SpecParsedCache { content_hash: self.content_hash@, bundle: self.bundle@ }
    }
}

pub open spec fn opt_parsed_view(o: Option<ParsedCache>) -> Option<SpecParsedCache> {
    match o {
        Some(p) => Some(p@),
        None => None,
    }
}

/// The host component of a URL, when the URL is well-formed and has one.
pub uninterp spec fn host_of(s: Seq<char>) -> Option<Seq<char>>;

/// Relies on `url::Url::parse` and `Url::host_str`: the host component
/// of a well-formed URL, a function of the string alone.
#[verifier::external_body]
fn url_host(s: &str) -> (r: Option<String>)
    ensures
        opt_string_view(r) == host_of(s@),
{
    match url::Url::parse(s) {
        Ok(u) => match u.host_str() {
            Some(h) => Some(h.to_string()),
            None => None,
        },
        Err(_) => None,
    }
}

/// The canonical author of a feed: its declared nick, else the host of
/// its URL, else the caller's display name.
pub open spec fn spec_canonical_author(
    meta: Option<SpecMetadata>,
    url: Seq<char>,
    fallback: Seq<char>,
) -> Seq<char> {
    let from_host = match host_of(url) {
        Some(h) => h,
        None => fallback,
    };
    match meta {
        Some(m) => match m.nick {
            Some(n) => n,
            None => from_host,
        },
        None => from_host,
    }
}

/// The bundle a fresh parse of the raw text yields.
pub open spec fn spec_fresh_bundle(fallback: Seq<char>, url: Seq<char>, raw: Seq<char>) -> SpecFeedBundle {
    let meta = spec_parse_metadata(raw);
    let author = spec_canonical_author(meta, url, fallback);
    SpecFeedBundle { tweets: spec_parse_tweets(author, url, None, raw), metadata: meta }
}

/// The whole decision: the bundle to use, the fresh content hash, and
/// whether the stored parse was reused (in which case nothing new needs
/// to be stored).
pub open spec fn spec_load_decision(
    fallback: Seq<char>,
    url: Seq<char>,
    raw: Seq<char>,
    stored: Option<SpecParsedCache>,
) -> (SpecFeedBundle, Seq<char>, bool) {
    let h = hex_of(sha256_of(raw));
    match stored {
        Some(pc) => if pc.content_hash == h {
            (pc.bundle, h, true)
        } else {
            (spec_fresh_bundle(fallback, url, raw), h, false)
        },
        None => (spec_fresh_bundle(fallback, url, raw), h, false),
    }
}

/// Turn raw feed text into a bundle: reuse the stored parse when its
/// content hash matches, else parse afresh.  Returns the bundle, the
/// fresh content hash, and whether the store was reused; when it was
/// not, the caller should store the returned bundle under the returned
/// hash.
pub fn load_feed_from_text(nick: &str, url: &str, raw: &str, stored: Option<ParsedCache>) -> (r: (
    FeedBundle,
    String,
    bool,
))
    ensures
        (r.0@, r.1@, r.2) == spec_load_decision(nick@, url@, raw@, opt_parsed_view(stored)),
{
    let fresh_hash = hash_sha256_str(raw);
    match stored {
        Some(pc) => {
            let same = str_eq(pc.content_hash.as_str(), fresh_hash.as_str());
            if same {
                return (pc.bundle, fresh_hash, true);
            }
            let bundle = fresh_parse(nick, url, raw);
            (bundle, fresh_hash, false)
        },
        None => {
            let bundle = fresh_parse(nick, url, raw);
            (bundle, fresh_hash, false)
        },
    }
}

/// Parse metadata and posts afresh against the canonical author.
fn fresh_parse(nick: &str, url: &str, raw: &str) -> (r: FeedBundle)
    ensures
        r@ == spec_fresh_bundle(nick@, url@, raw@),
{
    let metadata = parse_metadata(raw);
    let author: String = match &metadata {
        Some(m) => match &m.nick {
            Some(n) => n.clone(),
            None => host_or_fallback(url, nick),
        },
        None => host_or_fallback(url, nick),
    };
    proof {
        assert(author@ == spec_canonical_author(opt_meta_view(metadata), url@, nick@));
    }
    let tweets = parse_tweets(author.as_str(), url, None, raw);
    let r = FeedBundle { tweets, metadata };
    proof {
        assert(r@ =~= spec_fresh_bundle(nick@, url@, raw@));
    }
    r
}

/// The URL's host, else the fallback display name.
pub fn host_or_fallback(url: &str, fallback: &str) -> (r: String)
    ensures
        r@ == (match host_of(url@) {
            Some(h) => h,
            None => fallback@,
        }),
{
    match url_host(url) {
        Some(h) => h,
        None => fallback.to_owned(),
    }
}

/// The author override a post list gets when the caller's identity must
/// win over file content.
pub open spec fn spec_nick_override(b: SpecFeedBundle, nick: Seq<char>, use_nick: bool) -> SpecFeedBundle {
    if use_nick {
        SpecFeedBundle {
            tweets: b.tweets.map_values(|t: SpecTweet| SpecTweet { author: nick, ..t }),
            metadata: b.metadata,
        }
    } else {
        b
    }
}

/// Overwrite every post's author with the given display name when
/// `use_nick` holds; change nothing otherwise.
pub fn apply_nick_override(bundle: &mut FeedBundle, nick: &str, use_nick: bool)
    ensures
        final(bundle)@ == spec_nick_override(old(bundle)@, nick@, use_nick),
{
    if !use_nick {
        return ;
    }
    let ghost orig = old(bundle)@;
    let n = bundle.tweets.len();
    let mut i: usize = 0;
    while i < n
        invariant
            0 <= i <= n,
            n == bundle.tweets@.len(),
            old(bundle).tweets@.len() == n,
            bundle.metadata == old(bundle).metadata,
            forall|k: int| i <= k < n ==> bundle.tweets@[k] == old(bundle).tweets@[k],
            forall|k: int|
                0 <= k < i ==> bundle.tweets@[k]@ == (SpecTweet {
                    author: nick@,
                    ..old(bundle).tweets@[k]@
                }),
        decreases n - i,
    {
        bundle.tweets[i].author = nick.to_owned();
        proof {
            assert(bundle.tweets@[i as int]@ =~= SpecTweet {
                author: nick@,
                ..old(bundle).tweets@[i as int]@
            });
        }
        i = i + 1;
    }
    proof {
        assert(final(bundle)@.tweets =~= spec_nick_override(orig, nick@, true).tweets);
        assert(final(bundle)@ =~= spec_nick_override(orig, nick@, true));
    }
}

} // verus!
