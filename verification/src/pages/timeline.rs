//! The timeline page: the merged, sorted post list of every followed
//! feed, loading progressively.
//!
//! Sources download concurrently and in no particular order; each
//! arriving batch is merged, and once the last pending download is in,
//! the aggregate is re-sorted newest-first and the reveal window reset.
//! A failed source contributes zero posts for the cycle.

use vstd::prelude::*;

verus! {

use crate::post::Tweet;
use crate::post::sort_tweets_desc;
use crate::post::sorted_desc;
use crate::feed::VirtualTimeline;
use crate::feed::spec_reset_count;

/// Timeline state: the composer draft, the merged posts, the local
/// avatar reference, how many downloads are still pending, and the
/// reveal window.
pub struct TimelinePage {
    pub composer: String,
    pub tweets: Vec<Tweet>,
    pub local_avatar: Option<u64>,
    pub pending_downloads: usize,
    pub feed: VirtualTimeline,
}

impl TimelinePage {
    /// An empty timeline with nothing pending.
    pub fn new() -> (r: Self)
        ensures
            r.composer@ == Seq::<char>::empty(),
            r.tweets@ == Seq::<Tweet>::empty(),
            r.local_avatar is None,
            r.pending_downloads == 0,
            r.feed.visible_count == 0,
    {
        TimelinePage {
            composer: String::new(),
            tweets: Vec::new(),
            local_avatar: None,
            pending_downloads: 0,
            feed: VirtualTimeline::new(0),
        }
    }

    /// Begin a refresh cycle: drop every post, collapse the window, and
    /// forget pending work.  The caller then spawns one download per
    /// source, noting each.
    pub fn begin_refresh(&mut self)
        ensures
            final(self).tweets@ == Seq::<Tweet>::empty(),
            final(self).pending_downloads == 0,
            final(self).feed.visible_count == 0,
            final(self).composer == old(self).composer,
            final(self).local_avatar == old(self).local_avatar,
    {
        self.tweets.clear();
        self.feed.reset(0);
        self.pending_downloads = 0;
    }

    /// Note one download spawned.
    pub fn note_spawned(&mut self)
        requires
            old(self).pending_downloads < usize::MAX,
        ensures
            final(self).pending_downloads == old(self).pending_downloads + 1,
            final(self).tweets == old(self).tweets,
            final(self).composer == old(self).composer,
            final(self).local_avatar == old(self).local_avatar,
            final(self).feed == old(self).feed,
    {
        self.pending_downloads = self.pending_downloads + 1;
    }

    /// Merge the local feed's posts (no pending download involved) and
    /// keep the list sorted newest-first.
    pub fn merge_local(&mut self, fetched: Vec<Tweet>)
        ensures
            final(self).tweets@.to_multiset() == (old(self).tweets@ + fetched@).to_multiset(),
            sorted_desc(final(self).tweets@),
            final(self).pending_downloads == old(self).pending_downloads,
            final(self).composer == old(self).composer,
            final(self).local_avatar == old(self).local_avatar,
            final(self).feed == old(self).feed,
    {
        let mut incoming = fetched;
        self.tweets.append(&mut incoming);
        sort_tweets_desc(&mut self.tweets);
    }

    /// One pending download finished with these posts: merge them,
    /// re-sort the aggregate newest-first, and reset the window — not
    /// gated on the other sources finishing, so the display completes
    /// progressively.
    pub fn merge_fetch(&mut self, fetched: Vec<Tweet>)
        requires
            old(self).pending_downloads >= 1,
        ensures
            final(self).pending_downloads == old(self).pending_downloads - 1,
            final(self).tweets@.to_multiset() == (old(self).tweets@ + fetched@).to_multiset(),
            sorted_desc(final(self).tweets@),
            final(self).feed.visible_count == spec_reset_count(final(self).tweets@.len() as nat),
            final(self).composer == old(self).composer,
            final(self).local_avatar == old(self).local_avatar,
    {
        self.pending_downloads = self.pending_downloads - 1;
        let mut incoming = fetched;
        self.tweets.append(&mut incoming);
        sort_tweets_desc(&mut self.tweets);
        let total = self.tweets.len();
        self.feed.reset(total);
    }

    /// One pending download failed: it contributes nothing this cycle.
    pub fn download_failed(&mut self)
        requires
            old(self).pending_downloads >= 1,
        ensures
            final(self).pending_downloads == old(self).pending_downloads - 1,
            final(self).tweets == old(self).tweets,
            final(self).composer == old(self).composer,
            final(self).local_avatar == old(self).local_avatar,
            final(self).feed == old(self).feed,
    {
        self.pending_downloads = self.pending_downloads - 1;
    }
}

} // verus!
