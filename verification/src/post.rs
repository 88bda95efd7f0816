//! Posts: parsing content lines into identity-stable posts, ordering
//! them by timestamp, and the late avatar patch.
//!
//! A line is a post only if it is not comment-prefixed and holds a tab;
//! the part before the first tab must parse as RFC 3339.  Any failure
//! silently drops the line.  A post's identity hash is computed from the
//! canonical URL, the verbatim timestamp string and the verbatim raw
//! content — never from display content.

use vstd::prelude::*;
use vstd::seq_lib::to_multiset_insert;
use vstd::seq_lib::to_multiset_remove;

verus! {

use crate::content::OptLink;
use crate::content::SpecMention;
use crate::content::mentions_view;
use crate::content::spec_parse_contents;
use crate::content::parse_twt_contents;
use crate::hash::spec_twt_hash;
use crate::hash::compute_twt_hash;
use crate::text::chars_of;
use crate::text::string_from_chars;
use crate::text::copy_range;
use crate::text::spec_lines;
use crate::text::lines_of;
use crate::text::char_lines_view;
use crate::text::str_eq;
use crate::text::opt_string_view;

/// An instant as seconds and subsecond nanoseconds since the Unix
/// epoch (what the RFC 3339 parser hands back).
#[derive(PartialEq, Eq, Structural, Clone, Copy, Debug)]
pub struct Timestamp {
    pub secs: i64,
    pub nanos: u32,
}

/// The instant an RFC 3339 string denotes, if it is well-formed.
pub uninterp spec fn rfc3339_of(s: Seq<char>) -> Option<Timestamp>;

/// Relies on chrono's `DateTime::parse_from_rfc3339`, whose result is a
/// function of the input string alone; `timestamp` and
/// `timestamp_subsec_nanos` convert the parsed instant to plain values,
/// independent of the offset the string carried.
#[verifier::external_body]
pub fn parse_rfc3339(s: &str) -> (r: Option<Timestamp>)
    ensures
        r == rfc3339_of(s@),
{
    match chrono::DateTime::parse_from_rfc3339(s) {
        Ok(dt) => Some(Timestamp { secs: dt.timestamp(), nanos: dt.timestamp_subsec_nanos() }),
        Err(_) => None,
    }
}

/// One post, display-ready.  `avatar` is an opaque image reference owned
/// by the renderer; `None` stands for the placeholder.
#[derive(Debug)]
pub struct Tweet {
    pub hash: String,
    pub reply_to: Option<String>,
    pub mentions: Vec<OptLink>,
    pub timestamp: Timestamp,
    pub url: String,
    pub author: String,
    pub content: String,
    pub avatar: Option<u64>,
}

/// Spec-level value of a [`Tweet`].
#[verifier::ext_equal]
pub struct SpecTweet {
    pub hash: Seq<char>,
    pub reply_to: Option<Seq<char>>,
    pub mentions: Seq<SpecMention>,
    pub timestamp: Timestamp,
    pub url: Seq<char>,
    pub author: Seq<char>,
    pub content: Seq<char>,
    pub avatar: Option<u64>,
}

impl View for Tweet {
    type V = SpecTweet;

    open spec fn view(&self) -> SpecTweet {
        SpecTweet {
            hash: self.hash@,
            reply_to: opt_string_view(self.reply_to),
            mentions: mentions_view(self.mentions@),
            timestamp: self.timestamp,
            url: self.url@,
            author: self.author@,
            content: self.content@,
            avatar: self.avatar,
        }
    }
}

pub open spec fn tweets_view(v: Seq<Tweet>) -> Seq<SpecTweet> {
    v.map_values(|t: Tweet| t@)
}

pub proof fn lemma_tweets_view_push(v: Seq<Tweet>, t: Tweet)
    ensures
        tweets_view(v.push(t)) =~= tweets_view(v) + seq![t@],
{
}

/// First index at or after `i` holding a tab; `s.len()` if none.
pub open spec fn scan_tab(s: Seq<char>, i: int) -> int
    decreases s.len() - i,
{
    if i < 0 {
        0
    } else if i >= s.len() {
        s.len() as int
    } else if s[i] == '\t' {
        i
    } else {
        scan_tab(s, i + 1)
    }
}

pub proof fn lemma_scan_tab_eq(s: Seq<char>, i: int, j: int)
    requires
        0 <= i <= j <= s.len(),
        forall|k: int| i <= k < j ==> s[k] != '\t',
        j < s.len() ==> s[j] == '\t',
    ensures
        scan_tab(s, i) == j,
    decreases j - i,
{
    if i < j {
        lemma_scan_tab_eq(s, i + 1, j);
    }
}

/// Whether a line qualifies as a post: not comment-prefixed, holds a
/// tab, and its timestamp part parses as RFC 3339.  Independent of the
/// feed it came from.
pub open spec fn is_post_line(line: Seq<char>) -> bool {
    &&& !(line.len() > 0 && line[0] == '#')
    &&& scan_tab(line, 0) < line.len()
    &&& rfc3339_of(line.subrange(0, scan_tab(line, 0))) is Some
}

/// The post a line yields, if it qualifies: split at the first tab, the
/// timestamp parsed, the content tokenized, the hash computed from the
/// verbatim timestamp and raw content.
pub open spec fn spec_parse_post_line(
    author: Seq<char>,
    url: Seq<char>,
    avatar: Option<u64>,
    line: Seq<char>,
) -> Option<SpecTweet> {
    if !is_post_line(line) {
        None
    } else {
        let t = scan_tab(line, 0);
        let ts_str = line.subrange(0, t);
        let raw = line.skip(t + 1);
        let parsed = spec_parse_contents(raw);
        Some(
            SpecTweet {
                hash: spec_twt_hash(url, ts_str, raw),
                reply_to: parsed.0,
                mentions: parsed.1,
                timestamp: rfc3339_of(ts_str).unwrap(),
                url: url,
                author: author,
                content: parsed.2,
                avatar: avatar,
            },
        )
    }
}

/// The posts of the first `i` lines, in order.
pub open spec fn posts_after(
    author: Seq<char>,
    url: Seq<char>,
    avatar: Option<u64>,
    lines: Seq<Seq<char>>,
    i: int,
) -> Seq<SpecTweet>
    decreases i,
{
    if i <= 0 {
        seq![]
    } else {
        let p = posts_after(author, url, avatar, lines, i - 1);
        match spec_parse_post_line(author, url, avatar, lines[i - 1]) {
            Some(t) => p.push(t),
            None => p,
        }
    }
}

/// Every post of a document, in document order.
pub open spec fn spec_parse_tweets(
    author: Seq<char>,
    url: Seq<char>,
    avatar: Option<u64>,
    s: Seq<char>,
) -> Seq<SpecTweet> {
    let lines = spec_lines(s);
    posts_after(author, url, avatar, lines, lines.len() as int)
}

/// How many of the first `i` lines qualify as posts.
pub open spec fn count_post_lines(lines: Seq<Seq<char>>, i: int) -> int
    decreases i,
{
    if i <= 0 {
        0
    } else {
        count_post_lines(lines, i - 1) + (if is_post_line(lines[i - 1]) {
            1int
        } else {
            0int
        })
    }
}

proof fn lemma_posts_after_count(
    author: Seq<char>,
    url: Seq<char>,
    avatar: Option<u64>,
    lines: Seq<Seq<char>>,
    i: int,
)
    ensures
        posts_after(author, url, avatar, lines, i).len() == count_post_lines(lines, i),
    decreases i,
{
    if i > 0 {
        lemma_posts_after_count(author, url, avatar, lines, i - 1);
    }
}

/// Parsing yields exactly one post per qualifying line — `N` well-formed
/// post lines yield `N` posts — and a line that is comment-prefixed, has
/// no tab, or has an unparsable timestamp contributes nothing; parsing
/// never fails.
pub proof fn lemma_parse_tweets_count(
    author: Seq<char>,
    url: Seq<char>,
    avatar: Option<u64>,
    s: Seq<char>,
)
    ensures
        spec_parse_tweets(author, url, avatar, s).len() == count_post_lines(
            spec_lines(s),
            spec_lines(s).len() as int,
        ),
        (forall|k: int|
            0 <= k < spec_lines(s).len() ==> is_post_line(spec_lines(s)[k])) ==> spec_parse_tweets(
            author,
            url,
            avatar,
            s,
        ).len() == spec_lines(s).len(),
        (forall|k: int|
            0 <= k < spec_lines(s).len() ==> !is_post_line(spec_lines(s)[k])) ==> spec_parse_tweets(
            author,
            url,
            avatar,
            s,
        ).len() == 0,
{
    let lines = spec_lines(s);
    lemma_posts_after_count(author, url, avatar, lines, lines.len() as int);
    assert forall|i: int|
        0 <= i <= lines.len() && (forall|k: int|
            0 <= k < lines.len() ==> is_post_line(lines[k])) implies count_post_lines(lines, i)
        == i by {
        lemma_count_all_post_lines(lines, i);
    }
    assert forall|i: int|
        0 <= i <= lines.len() && (forall|k: int|
            0 <= k < lines.len() ==> !is_post_line(lines[k])) implies count_post_lines(lines, i)
        == 0 by {
        lemma_count_no_post_lines(lines, i);
    }
}

proof fn lemma_count_no_post_lines(lines: Seq<Seq<char>>, i: int)
    requires
        0 <= i <= lines.len(),
        forall|k: int| 0 <= k < lines.len() ==> !is_post_line(lines[k]),
    ensures
        count_post_lines(lines, i) == 0,
    decreases i,
{
    if i > 0 {
        lemma_count_no_post_lines(lines, i - 1);
    }
}

proof fn lemma_count_all_post_lines(lines: Seq<Seq<char>>, i: int)
    requires
        0 <= i <= lines.len(),
        forall|k: int| 0 <= k < lines.len() ==> is_post_line(lines[k]),
    ensures
        count_post_lines(lines, i) == i,
    decreases i,
{
    if i > 0 {
        lemma_count_all_post_lines(lines, i - 1);
    }
}

/// A post's identity is a pure function of the source URL, the verbatim
/// timestamp string, and the verbatim raw content: whether a line
/// qualifies, and the hash it gets, never depend on the author it is
/// attributed to or on the avatar attached — so redisplaying or
/// re-attributing a post never changes its identity.
pub proof fn lemma_hash_ignores_attribution(
    author1: Seq<char>,
    author2: Seq<char>,
    url: Seq<char>,
    avatar1: Option<u64>,
    avatar2: Option<u64>,
    line: Seq<char>,
)
    ensures
        (spec_parse_post_line(author1, url, avatar1, line) is Some) == (spec_parse_post_line(
            author2,
            url,
            avatar2,
            line,
        ) is Some),
        spec_parse_post_line(author1, url, avatar1, line) matches Some(t1) ==> spec_parse_post_line(
            author2,
            url,
            avatar2,
            line,
        ).unwrap().hash == t1.hash,
{
}

/// Parse every post line of a document against the given canonical
/// author, canonical URL, and avatar reference.
pub fn parse_tweets(author: &str, url: &str, avatar: Option<u64>, input: &str) -> (r: Vec<Tweet>)
    ensures
        tweets_view(r@) == spec_parse_tweets(author@, url@, avatar, input@),
{
    let cs = chars_of(input);
    let lines = lines_of(&cs);
    let ghost lv = char_lines_view(lines@);
    let mut out: Vec<Tweet> = Vec::new();
    proof {
        assert(tweets_view(out@) =~= Seq::<SpecTweet>::empty());
    }
    let mut i: usize = 0;
    while i < lines.len()
        invariant
            0 <= i <= lines@.len(),
            lv == char_lines_view(lines@),
            lv == spec_lines(cs@),
            cs@ == input@,
            tweets_view(out@) =~= posts_after(author@, url@, avatar, lv, i as int),
        decreases lines@.len() - i,
    {
        let line = &lines[i];
        let ghost lsq = line@;
        proof {
            assert(lv[i as int] == lines@[i as int]@);
        }
        let n = line.len();
        let is_comment = n > 0 && line[0] == '#';
        if !is_comment {
            let mut t: usize = 0;
            while t < n && line[t] != '\t'
                invariant
                    0 <= t <= n,
                    n == lsq.len(),
                    line@ == lsq,
                    forall|k: int| 0 <= k < t ==> lsq[k] != '\t',
                decreases n - t,
            {
                t = t + 1;
            }
            proof {
                lemma_scan_tab_eq(lsq, 0, t as int);
            }
            if t < n {
                let ts_vec = copy_range(line, 0, t);
                let ts_str = string_from_chars(&ts_vec);
                let raw_vec = copy_range(line, t + 1, n);
                let raw_str = string_from_chars(&raw_vec);
                proof {
                    assert(raw_str@ =~= lsq.skip(t + 1 as int));
                }
                match parse_rfc3339(ts_str.as_str()) {
                    Some(ts) => {
                        let parsed = parse_twt_contents(raw_str.as_str());
                        let (reply_to, mentions, content) = parsed;
                        let hash = compute_twt_hash(url, ts_str.as_str(), raw_str.as_str());
                        let tweet = Tweet {
                            hash,
                            reply_to,
                            mentions,
                            timestamp: ts,
                            url: url.to_owned(),
                            author: author.to_owned(),
                            content,
                            avatar,
                        };
                        proof {
                            assert(tweet@ =~= spec_parse_post_line(
                                author@,
                                url@,
                                avatar,
                                lsq,
                            ).unwrap());
                            lemma_tweets_view_push(out@, tweet);
                        }
                        out.push(tweet);
                    },
                    None => {
                        proof {
                            assert(spec_parse_post_line(author@, url@, avatar, lsq) is None);
                        }
                    },
                }
            }
        }
        i = i + 1;
    }
    out
}

/// Descending timestamp order: `a` at or after `b` in time means `a`
/// comes first.
pub open spec fn ts_le(a: Timestamp, b: Timestamp) -> bool {
    a.secs < b.secs || (a.secs == b.secs && a.nanos <= b.nanos)
}

pub open spec fn ts_lt(a: Timestamp, b: Timestamp) -> bool {
    !ts_le(b, a)
}

/// Executable strict order on timestamps.
pub fn ts_lt_exec(a: &Timestamp, b: &Timestamp) -> (r: bool)
    ensures
        r == ts_lt(*a, *b),
{
    a.secs < b.secs || (a.secs == b.secs && a.nanos < b.nanos)
}

/// Newest first: each post's timestamp is at or after the next one's.
pub open spec fn sorted_desc(v: Seq<Tweet>) -> bool {
    forall|i: int, j: int| 0 <= i < j < v.len() ==> ts_le(v[j].timestamp, v[i].timestamp)
}

/// Sort the posts newest-first.  The posts themselves are exactly those
/// given, reordered.
pub fn sort_tweets_desc(tweets: &mut Vec<Tweet>)
    ensures
        sorted_desc(final(tweets)@),
        final(tweets)@.to_multiset() == old(tweets)@.to_multiset(),
        tweets_view(final(tweets)@).to_multiset() == tweets_view(old(tweets)@).to_multiset(),
        final(tweets)@.len() == old(tweets)@.len(),
{
    let ghost orig = tweets@;
    let n = tweets.len();
    if n == 0 {
        return ;
    }
    let mut i: usize = 1;
    while i < n
        invariant
            1 <= i <= n,
            n == tweets@.len(),
            tweets@.to_multiset() == orig.to_multiset(),
            tweets_view(tweets@).to_multiset() == tweets_view(orig).to_multiset(),
            orig.len() == n,
            sorted_desc(tweets@.take(i as int)),
        decreases n - i,
    {
        let ghost before = tweets@;
        let x = tweets.remove(i);
        let ghost s1 = tweets@;
        proof {
            to_multiset_remove(before, i as int);
            assert(tweets_view(s1) =~= tweets_view(before).remove(i as int));
            to_multiset_remove(tweets_view(before), i as int);
        }
        let mut j: usize = i;
        while j > 0 && ts_lt_exec(&tweets[j - 1].timestamp, &x.timestamp)
            invariant
                0 <= j <= i,
                i < n,
                tweets@ == s1,
                s1.len() == n - 1,
                forall|k: int| j <= k < i ==> ts_lt(s1[k].timestamp, x.timestamp),
            decreases j,
        {
            j = j - 1;
        }
        proof {
            to_multiset_insert(s1, j as int, x);
            assert(s1.insert(j as int, x).to_multiset() =~= before.to_multiset()) by {
                before.to_multiset_ensures();
                assert(before.contains(before[i as int]));
                assert(before.to_multiset().count(x) > 0);
            }
            to_multiset_insert(tweets_view(s1), j as int, x@);
            assert(tweets_view(s1.insert(j as int, x)) =~= tweets_view(s1).insert(j as int, x@));
            assert(tweets_view(s1).insert(j as int, x@).to_multiset() =~= tweets_view(
                before,
            ).to_multiset()) by {
                tweets_view(before).to_multiset_ensures();
                assert(tweets_view(before)[i as int] == x@);
                assert(tweets_view(before).contains(tweets_view(before)[i as int]));
                assert(tweets_view(before).to_multiset().count(x@) > 0);
            }
        }
        tweets.insert(j, x);
        proof {
            let cur = tweets@.take(i + 1 as int);
            let pre = before.take(i as int);
            assert(sorted_desc(pre));
            assert(forall|k: int| 0 <= k < j ==> cur[k] == s1[k] && s1[k] == pre[k]);
            assert(cur[j as int] == x);
            assert(forall|k: int| j < k <= i ==> cur[k] == s1[k - 1]);
            assert(forall|k: int| 0 <= k < i ==> s1[k] == pre[k]);
            assert forall|a: int, b: int| 0 <= a < b < i + 1 implies ts_le(
                cur[b].timestamp,
                cur[a].timestamp,
            ) by {
                if j > 0 {
                    assert(!ts_lt(s1[j - 1].timestamp, x.timestamp));
                    assert(ts_le(x.timestamp, s1[j - 1].timestamp));
                }
                if b < j {
                    assert(ts_le(pre[b].timestamp, pre[a].timestamp));
                } else if b == j {
                    assert(cur[b] == x);
                    assert(a < j);
                    assert(cur[a] == pre[a]);
                    assert(ts_le(pre[j - 1].timestamp, pre[a].timestamp) || a == j - 1);
                } else {
                    assert(cur[b] == pre[b - 1]);
                    if a < j {
                        assert(cur[a] == pre[a]);
                        if a < b - 1 {
                            assert(ts_le(pre[b - 1].timestamp, pre[a].timestamp));
                        }
                    } else if a == j {
                        assert(cur[a] == x);
                        assert(ts_lt(pre[b - 1].timestamp, x.timestamp));
                    } else {
                        assert(cur[a] == pre[a - 1]);
                        assert(ts_le(pre[b - 1].timestamp, pre[a - 1].timestamp));
                    }
                }
            }
            assert(sorted_desc(cur));
        }
        i = i + 1;
    }
    proof {
        assert(tweets@.take(n as int) =~= tweets@);
    }
}

/// Set the avatar of every post whose source URL matches; leave every
/// other post, and every other field, unchanged.  Safe to apply after
/// the posts are already visible.
pub fn apply_avatar(tweets: &mut Vec<Tweet>, url: &str, avatar: u64)
    ensures
        final(tweets)@.len() == old(tweets)@.len(),
        forall|k: int|
            0 <= k < old(tweets)@.len() ==> final(tweets)@[k]@ == (if old(tweets)@[k].url@ == url@ {
                SpecTweet { avatar: Some(avatar), ..old(tweets)@[k]@ }
            } else {
                old(tweets)@[k]@
            }),
{
    let n = tweets.len();
    let mut i: usize = 0;
    while i < n
        invariant
            0 <= i <= n,
            n == tweets@.len(),
            old(tweets)@.len() == n,
            forall|k: int| i <= k < n ==> tweets@[k] == old(tweets)@[k],
            forall|k: int|
                0 <= k < i ==> tweets@[k]@ == (if old(tweets)@[k].url@ == url@ {
                    SpecTweet { avatar: Some(avatar), ..old(tweets)@[k]@ }
                } else {
                    old(tweets)@[k]@
                }),
        decreases n - i,
    {
        let matches_url = str_eq(tweets[i].url.as_str(), url);
        if matches_url {
            tweets[i].avatar = Some(avatar);
            proof {
                assert(tweets@[i as int]@ =~= SpecTweet {
                    avatar: Some(avatar),
                    ..old(tweets)@[i as int]@
                });
            }
        }
        i = i + 1;
    }
}

} // verus!
