//! The reveal window over a sorted post list, and the in-post link
//! redirect decision.
//!
//! The renderer shows only a prefix of the full post list; this cursor
//! tracks how long that prefix is.  A reset (list replaced) or a scroll
//! near the top collapses the window back to the initial size; a scroll
//! near the bottom grows it by one batch, capped at the list length.

use vstd::prelude::*;

verus! {

/// Number of posts revealed right after the list is replaced.
pub const INITIAL_LOAD: usize = 30;

/// Number of additional posts revealed when the reader nears the bottom.
pub const BATCH_SIZE: usize = 25;

/// Reveal cursor over a sorted post list: `visible_count` posts are shown.
#[derive(Debug)]
pub struct VirtualTimeline {
    pub visible_count: usize,
}

/// Window size after a reset over `total` posts.
pub open spec fn spec_reset_count(total: nat) -> nat {
    if (INITIAL_LOAD as nat) <= total {
        INITIAL_LOAD as nat
    } else {
        total
    }
}

/// Window size after one scroll report: a near-top scroll collapses the
/// window first, then a near-bottom scroll grows it by one batch, capped
/// at `total`.
pub open spec fn spec_scroll_count(count: nat, near_top: bool, near_bottom: bool, total: nat) -> nat {
    let c = if near_top {
        spec_reset_count(total)
    } else {
        count
    };
    if near_bottom && c < total {
        if c + (BATCH_SIZE as nat) <= total {
            (c + (BATCH_SIZE as nat)) as nat
        } else {
            total
        }
    } else {
        c
    }
}

impl VirtualTimeline {
    pub fn new(total_items: usize) -> (r: Self)
        ensures
            r.visible_count == spec_reset_count(total_items as nat),
    {
        VirtualTimeline {
            visible_count: if INITIAL_LOAD <= total_items {
                INITIAL_LOAD
            } else {
                total_items
            },
        }
    }

    /// Collapse the window to its initial size; must be called whenever
    /// the underlying sorted list is replaced.
    pub fn reset(&mut self, total_items: usize)
        ensures
            final(self).visible_count == spec_reset_count(total_items as nat),
    {
        self.visible_count = if INITIAL_LOAD <= total_items {
            INITIAL_LOAD
        } else {
            total_items
        };
    }

    /// Apply one scroll report.  `near_top` holds when the scroll offset
    /// is within the top threshold, `near_bottom` when the viewport end
    /// is within the load threshold of the content end.
    pub fn update(&mut self, near_top: bool, near_bottom: bool, total_items: usize)
        ensures
            final(self).visible_count == spec_scroll_count(
                old(self).visible_count as nat,
                near_top,
                near_bottom,
                total_items as nat,
            ),
    {
        if near_top {
            self.visible_count = if INITIAL_LOAD <= total_items {
                INITIAL_LOAD
            } else {
                total_items
            };
        }
        if near_bottom && self.visible_count < total_items {
            let room = total_items - self.visible_count;
            let step = if room <= BATCH_SIZE {
                room
            } else {
                BATCH_SIZE
            };
            self.visible_count = self.visible_count + step;
        }
    }
}

/// The window never shrinks on a scroll report that is not near the top:
/// `visible_count` only decreases via a near-top collapse or a reset.
pub proof fn lemma_scroll_never_shrinks(count: nat, near_bottom: bool, total: nat)
    ensures
        spec_scroll_count(count, false, near_bottom, total) >= count,
{
}

/// Once the window is within the list, every scroll report keeps it there.
pub proof fn lemma_scroll_stays_bounded(count: nat, near_top: bool, near_bottom: bool, total: nat)
    requires
        count <= total,
    ensures
        spec_scroll_count(count, near_top, near_bottom, total) <= total,
{
}

/// A reset always lands within the list.
pub proof fn lemma_reset_bounded(total: nat)
    ensures
        spec_reset_count(total) <= total,
{
}

/// `pat` occurs in `s` starting at `i`.
pub open spec fn contains_at(s: Seq<char>, pat: Seq<char>, i: int) -> bool {
    0 <= i && i + pat.len() <= s.len() && s.subrange(i, i + pat.len()) == pat
}

/// `pat` occurs somewhere in `s`.
pub open spec fn spec_contains(s: Seq<char>, pat: Seq<char>) -> bool {
    exists|i: int| contains_at(s, pat, i)
}

/// `s` ends with `suf`.
pub open spec fn spec_ends_with(s: Seq<char>, suf: Seq<char>) -> bool {
    s.len() >= suf.len() && s.subrange(s.len() - suf.len(), s.len() as int) == suf
}

/// Whether `needle` occurs in `hay`.
fn contains_chars(hay: &Vec<char>, needle: &Vec<char>) -> (r: bool)
    ensures
        r == spec_contains(hay@, needle@),
{
    let n = hay.len();
    let m = needle.len();
    if m > n {
        proof {
            assert forall|i: int| !contains_at(hay@, needle@, i) by {}
        }
        return false;
    }
    let mut i: usize = 0;
    while i <= n - m
        invariant
            0 <= i <= n - m + 1,
            m <= n,
            n == hay@.len(),
            m == needle@.len(),
            forall|k: int| 0 <= k < i ==> !contains_at(hay@, needle@, k),
        decreases n + 1 - i,
    {
        let mut j: usize = 0;
        let mut all: bool = true;
        while j < m
            invariant
                0 <= j <= m,
                i + m <= n,
                n == hay@.len(),
                m == needle@.len(),
                all == (forall|k: int| 0 <= k < j ==> hay@[i + k] == needle@[k]),
            decreases m - j,
        {
            if hay[i + j] != needle[j] {
                all = false;
                proof {
                    assert(hay@[i + j as int] != needle@[j as int]);
                }
                j = m;
            } else {
                j = j + 1;
            }
        }
        if all {
            proof {
                assert(hay@.subrange(i as int, i + m as int) =~= needle@);
                assert(contains_at(hay@, needle@, i as int));
            }
            return true;
        }
        proof {
            if contains_at(hay@, needle@, i as int) {
                assert(forall|k: int|
                    0 <= k < m ==> #[trigger] hay@.subrange(i as int, i + m as int)[k] == hay@[i
                        + k]);
                assert(false);
            }
        }
        i = i + 1;
    }
    proof {
        assert forall|k: int| !contains_at(hay@, needle@, k) by {
            if 0 <= k <= n - m {
                assert(!contains_at(hay@, needle@, k));
            }
        }
    }
    false
}

/// Whether `hay` ends with `suf`.
fn ends_with_chars(hay: &Vec<char>, suf: &Vec<char>) -> (r: bool)
    ensures
        r == spec_ends_with(hay@, suf@),
{
    let n = hay.len();
    let m = suf.len();
    if m > n {
        return false;
    }
    let start = n - m;
    let tail = crate::text::copy_range(hay, start, n);
    crate::text::vec_char_eq(&tail, suf)
}

/// Whether a clicked in-post link itself points at a twtxt document:
/// such a click redirects into a "view this feed" context instead of
/// the system browser.  It does when the URL contains `twtxt` and ends
/// with `.txt`.
pub fn is_twtxt_link(url: &str) -> (r: bool)
    ensures
        r == (spec_contains(url@, "twtxt"@) && spec_ends_with(url@, ".txt"@)),
{
    let cs = crate::text::chars_of(url);
    let pat = crate::text::chars_of("twtxt");
    let suf = crate::text::chars_of(".txt");
    let found = contains_chars(&cs, &pat);
    if found {
        ends_with_chars(&cs, &suf)
    } else {
        false
    }
}

} // verus!
