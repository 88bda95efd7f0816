//! The view page: show one feed by URL — its profile metadata and its
//! posts.
//!
//! The page issues one feed fetch; if the fetched metadata declares an
//! avatar, a secondary fetch follows before the posts are built.  The
//! posts are parsed against the canonical author: the declared nick,
//! else the host of the entered URL, else "unknown".

use vstd::prelude::*;

verus! {

use crate::app::AppConfig;
use crate::app::SpecAppConfig;
use crate::app::Page;
use crate::app::RedirectInfo;
use crate::post::Tweet;
use crate::post::sort_tweets_desc;
use crate::post::sorted_desc;
use crate::post::spec_parse_tweets;
use crate::post::parse_tweets;
use crate::post::tweets_view;
use crate::metadata::Metadata;
use crate::metadata::SpecMetadata;
use crate::metadata::spec_parse_metadata;
use crate::metadata::parse_metadata;
use crate::loader::opt_meta_view;
use crate::loader::host_of;
use crate::loader::host_or_fallback;
use crate::feed::VirtualTimeline;
use crate::feed::spec_reset_count;

/// The canonical URL of the local feed: the first URL its metadata
/// declares, if any.
pub open spec fn spec_twturl(c: SpecAppConfig) -> Seq<char> {
    if c.metadata.urls.len() > 0 {
        c.metadata.urls[0]
    } else {
        Seq::<char>::empty()
    }
}

/// The author posts of a viewed feed are attributed to: the declared
/// nick, else the host of the entered URL, else "unknown".
pub open spec fn spec_view_author(meta: Option<SpecMetadata>, composer: Seq<char>) -> Seq<char> {
    let from_host = match host_of(composer) {
        Some(h) => h,
        None => "unknown"@,
    };
    match meta {
        Some(m) => match m.nick {
            Some(n) => n,
            None => from_host,
        },
        None => from_host,
    }
}

/// View-page state: the URL input, the fetched raw text, the built
/// posts, the parsed metadata, pending fetches, and the reveal window.
pub struct ViewPage {
    pub composer: String,
    pub avatar: Option<u64>,
    pub fetched: String,
    pub tweets: Vec<Tweet>,
    pub metadata: Option<Metadata>,
    pub pending_downloads: usize,
    pub feed: VirtualTimeline,
}

impl ViewPage {
    /// A fresh view page, its input prefilled with the local feed URL.
    pub fn new(config: &AppConfig) -> (r: Self)
        ensures
            r.composer@ == spec_twturl(config@),
            r.avatar is None,
            r.fetched@ == Seq::<char>::empty(),
            r.tweets@ == Seq::<Tweet>::empty(),
            r.metadata is None,
            r.pending_downloads == 0,
            r.feed.visible_count == 0,
    {
        let composer: String = if config.metadata.urls.len() > 0 {
            config.metadata.urls[0].clone()
        } else {
            String::new()
        };
        ViewPage {
            composer,
            avatar: None,
            fetched: String::new(),
            tweets: Vec::new(),
            metadata: None,
            pending_downloads: 0,
            feed: VirtualTimeline::new(0),
        }
    }

    /// Start viewing the entered URL: clear everything shown, note one
    /// pending fetch, and hand the caller the URL to download.
    pub fn begin_view(&mut self) -> (url: String)
        ensures
            url@ == old(self).composer@,
            final(self).composer == old(self).composer,
            final(self).avatar is None,
            final(self).fetched@ == Seq::<char>::empty(),
            final(self).tweets@ == Seq::<Tweet>::empty(),
            final(self).metadata is None,
            final(self).pending_downloads == 1,
            final(self).feed.visible_count == 0,
    {
        self.avatar = None;
        self.fetched = String::new();
        self.tweets = Vec::new();
        self.metadata = None;
        self.pending_downloads = 1;
        self.feed.reset(0);
        self.composer.clone()
    }

    /// Build the posts from the fetched text against the canonical
    /// author, sort them newest-first, and reset the window.
    fn build_tweets(&mut self, url: &str)
        ensures
            tweets_view(final(self).tweets@).to_multiset() == spec_parse_tweets(
                spec_view_author(opt_meta_view(old(self).metadata), old(self).composer@),
                url@,
                old(self).avatar,
                old(self).fetched@,
            ).to_multiset(),
            sorted_desc(final(self).tweets@),
            final(self).feed.visible_count == spec_reset_count(final(self).tweets@.len() as nat),
            final(self).composer == old(self).composer,
            final(self).avatar == old(self).avatar,
            final(self).fetched == old(self).fetched,
            final(self).metadata == old(self).metadata,
            final(self).pending_downloads == old(self).pending_downloads,
    {
        let author: String = match &self.metadata {
            Some(m) => match &m.nick {
                Some(n) => n.clone(),
                None => host_or_fallback(self.composer.as_str(), "unknown"),
            },
            None => host_or_fallback(self.composer.as_str(), "unknown"),
        };
        proof {
            assert(author@ == spec_view_author(opt_meta_view(self.metadata), self.composer@));
        }
        self.tweets = parse_tweets(author.as_str(), url, self.avatar, self.fetched.as_str());
        sort_tweets_desc(&mut self.tweets);
        let total = self.tweets.len();
        self.feed.reset(total);
    }

    /// The feed text arrived: store and parse it.  When the metadata
    /// declares an avatar, return its URL — the posts are built only
    /// once that fetch resolves; otherwise build the posts now.
    pub fn feed_downloaded(&mut self, url: &str, data: String) -> (avatar_url: Option<String>)
        requires
            old(self).pending_downloads >= 1,
        ensures
            final(self).fetched@ == data@,
            opt_meta_view(final(self).metadata) == spec_parse_metadata(data@),
            final(self).composer == old(self).composer,
            final(self).avatar == old(self).avatar,
            match avatar_url {
                Some(u) => {
                    &&& spec_parse_metadata(data@) matches Some(m) && m.avatar == Some(u@)
                    &&& final(self).pending_downloads == old(self).pending_downloads
                    &&& final(self).tweets == old(self).tweets
                    &&& final(self).feed == old(self).feed
                },
                None => {
                    &&& (match spec_parse_metadata(data@) {
                        Some(m) => m.avatar is None,
                        None => true,
                    })
                    &&& final(self).pending_downloads == old(self).pending_downloads - 1
                    &&& tweets_view(final(self).tweets@).to_multiset() == spec_parse_tweets(
                        spec_view_author(spec_parse_metadata(data@), old(self).composer@),
                        url@,
                        old(self).avatar,
                        data@,
                    ).to_multiset()
                    &&& sorted_desc(final(self).tweets@)
                    &&& final(self).feed.visible_count == spec_reset_count(
                        final(self).tweets@.len() as nat,
                    )
                },
            },
    {
        self.pending_downloads = self.pending_downloads - 1;
        self.fetched = data;
        self.metadata = parse_metadata(self.fetched.as_str());
        let avatar_url: Option<String> = match &self.metadata {
            Some(m) => match &m.avatar {
                Some(a) => Some(a.clone()),
                None => None,
            },
            None => None,
        };
        match avatar_url {
            Some(u) => {
                self.pending_downloads = self.pending_downloads + 1;
                Some(u)
            },
            None => {
                self.build_tweets(url);
                None
            },
        }
    }

    /// The feed fetch failed: show the message the caller formatted.
    pub fn feed_failed(&mut self, message: String)
        requires
            old(self).pending_downloads >= 1,
        ensures
            final(self).fetched@ == message@,
            final(self).pending_downloads == old(self).pending_downloads - 1,
            final(self).composer == old(self).composer,
            final(self).avatar == old(self).avatar,
            final(self).tweets == old(self).tweets,
            final(self).metadata == old(self).metadata,
            final(self).feed == old(self).feed,
    {
        self.pending_downloads = self.pending_downloads - 1;
        self.fetched = message;
    }

    /// The avatar fetch resolved (with a renderer handle, or without
    /// one on failure): record it and build the posts.
    pub fn avatar_downloaded(&mut self, url: &str, avatar: Option<u64>)
        requires
            old(self).pending_downloads >= 1,
        ensures
            final(self).avatar == avatar,
            final(self).pending_downloads == old(self).pending_downloads - 1,
            final(self).composer == old(self).composer,
            final(self).fetched == old(self).fetched,
            final(self).metadata == old(self).metadata,
            tweets_view(final(self).tweets@).to_multiset() == spec_parse_tweets(
                spec_view_author(opt_meta_view(old(self).metadata), old(self).composer@),
                url@,
                avatar,
                old(self).fetched@,
            ).to_multiset(),
            sorted_desc(final(self).tweets@),
            final(self).feed.visible_count == spec_reset_count(final(self).tweets@.len() as nat),
    {
        self.pending_downloads = self.pending_downloads - 1;
        self.avatar = avatar;
        self.build_tweets(url);
    }

    /// A redirect request: when it targets this page, take its URL into
    /// the input and report that a view fetch should start.
    pub fn process_redirect_info(&mut self, info: RedirectInfo) -> (fetch: bool)
        ensures
            match info.page {
                Page::View => fetch && final(self).composer@ == info.content@
                    && final(self).tweets == old(self).tweets,
                _ => !fetch && *final(self) == *old(self),
            },
    {
        match info.page {
            Page::View => {
                self.composer = info.content;
                true
            },
            _ => false,
        }
    }
}

} // verus!
